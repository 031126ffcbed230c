use push2talk::chord::ChordTracker;
use push2talk::keybind::KeyBinding;

const CONTROL_L: u32 = 0xffe3;
const SPACE: u32 = 0x20;

fn two_key_tracker() -> ChordTracker {
    ChordTracker::new(KeyBinding {
        first: CONTROL_L,
        second: Some(SPACE),
    })
}

#[test]
fn test_chord_end_to_end() {
    // binding = [Control_L, Space]: pressing the whole chord unmutes,
    // releasing any of it mutes, and the trailing release emits nothing
    let mut t = two_key_tracker();
    assert_eq!(t.observe(CONTROL_L, true), None);
    assert_eq!(t.observe(SPACE, true), Some(false));
    assert_eq!(t.observe(SPACE, false), Some(true));
    assert_eq!(t.observe(CONTROL_L, false), None);
}

#[test]
fn test_repeated_event_is_silent() {
    let mut t = two_key_tracker();
    assert_eq!(t.observe(CONTROL_L, true), None);
    assert_eq!(t.observe(SPACE, true), Some(false));
    // the same press again must not yield a second decision
    assert_eq!(t.observe(SPACE, true), None);
    assert_eq!(t.observe(SPACE, true), None);
}

#[test]
fn test_unconfigured_key_is_ignored() {
    let mut t = two_key_tracker();
    assert_eq!(t.observe(0x61, true), None);
    assert_eq!(t.observe(CONTROL_L, true), None);
    assert_eq!(t.observe(0x61, false), None);
    assert_eq!(t.observe(SPACE, true), Some(false));
}

#[test]
fn test_single_key_binding() {
    let mut t = ChordTracker::new(KeyBinding {
        first: SPACE,
        second: None,
    });
    assert_eq!(t.observe(SPACE, true), Some(false));
    assert_eq!(t.observe(SPACE, false), Some(true));
    assert_eq!(t.observe(SPACE, false), None);
}

#[test]
fn test_second_slot_takes_precedence_on_collision() {
    // both slots configured with the same key: an event moves the second
    // slot only, so the chord can never engage through the first
    let mut t = ChordTracker::new(KeyBinding {
        first: SPACE,
        second: Some(SPACE),
    });
    assert_eq!(t.observe(SPACE, true), None);
    assert!(!t.first_pressed);
    assert!(t.second_pressed);
}

#[test]
fn test_decisions_are_dedup_of_levels() {
    // a run with repeats and foreign keys: the decisions are exactly the
    // level changes of "not every configured key pressed"
    let mut t = two_key_tracker();
    let events: Vec<(u32, bool)> = vec![
        (CONTROL_L, true),  // level stays true
        (CONTROL_L, true),  // repeat, level stays true
        (SPACE, true),      // chord held: level drops to false
        (0x61, true),       // foreign key: no change
        (SPACE, false),     // level back to true
        (SPACE, true),      // false again
        (CONTROL_L, false), // true again
    ];
    let mut decisions: Vec<bool> = Vec::new();
    for (key, pressed) in events {
        if let Some(d) = t.observe(key, pressed) {
            decisions.push(d);
        }
    }
    assert_eq!(decisions, vec![false, true, false, true]);
}

#[test]
fn test_reset_chord_clears_presses_only() {
    let mut t = two_key_tracker();
    t.observe(CONTROL_L, true);
    t.observe(SPACE, true);
    t.reset_chord();
    assert!(!t.first_pressed);
    assert!(!t.second_pressed);
    // the decision in effect is untouched by the reset itself
    assert!(!t.last_decision);
}
