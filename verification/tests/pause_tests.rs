use push2talk::chord::ChordTracker;
use push2talk::keybind::KeyBinding;
use push2talk::pause::PauseController;
use push2talk::session::Session;
use push2talk::KeyEvent;

const CONTROL_L: u32 = 0xffe3;
const SPACE: u32 = 0x20;

fn two_key_session() -> Session {
    Session::new(ChordTracker::new(KeyBinding {
        first: CONTROL_L,
        second: Some(SPACE),
    }))
}

fn ev(key: u32, pressed: bool) -> KeyEvent {
    KeyEvent { key, pressed }
}

#[test]
fn test_pause_coalescing() {
    // five deliveries between two observation points: exactly one flip
    let mut p = PauseController::new();
    assert!(p.running);
    for _ in 0..5 {
        p.signal();
    }
    assert_eq!(p.observe(), Some(false));
    assert!(!p.running);
    // nothing left to observe: no second flip
    assert_eq!(p.observe(), None);
    assert!(!p.running);
}

#[test]
fn test_pause_toggles_back_and_forth() {
    let mut p = PauseController::new();
    p.signal();
    assert_eq!(p.observe(), Some(false));
    p.signal();
    p.signal();
    assert_eq!(p.observe(), Some(true));
    assert!(p.running);
}

#[test]
fn test_paused_events_are_discarded() {
    let mut s = two_key_session();
    // paused: a full chord press yields no decision and moves nothing
    let batch = vec![ev(CONTROL_L, true), ev(SPACE, true)];
    let ds = s.step(false, &batch);
    assert!(ds.is_empty());
    assert!(!s.tracker.first_pressed);
    assert!(!s.tracker.second_pressed);
}

#[test]
fn test_drain_on_resume() {
    let mut s = two_key_session();
    // engage half the chord while running
    let ds = s.step(true, &vec![ev(CONTROL_L, true)]);
    assert!(ds.is_empty());
    assert!(s.tracker.first_pressed);
    // pause; events during the pause are discarded
    let ds = s.step(false, &vec![ev(SPACE, true)]);
    assert!(ds.is_empty());
    // the resume step drains the stale batch and clears the chord state
    let stale = vec![ev(SPACE, true), ev(CONTROL_L, false)];
    let ds = s.step(true, &stale);
    assert!(ds.is_empty());
    assert!(!s.tracker.first_pressed);
    assert!(!s.tracker.second_pressed);
    // after the resume, the chord starts from nothing pressed
    let ds = s.step(true, &vec![ev(CONTROL_L, true), ev(SPACE, true)]);
    assert_eq!(ds, vec![false]);
}

#[test]
fn test_pause_freezes_last_decision() {
    let mut s = two_key_session();
    // hold the chord: unmuted
    let ds = s.step(true, &vec![ev(CONTROL_L, true), ev(SPACE, true)]);
    assert_eq!(ds, vec![false]);
    // pausing emits nothing: the last decision stays in effect unchanged
    let ds = s.step(false, &Vec::new());
    assert!(ds.is_empty());
    assert!(!s.tracker.last_decision);
}
