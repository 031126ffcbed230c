//! The key-chord tracker: a pure state machine that turns key events into
//! edge-triggered mute decisions.
//!
//! The chord is engaged only while every configured key is held; the mute
//! level required of the microphone is the negation of that. A decision is
//! emitted only when the required level differs from the last one emitted.

use vstd::prelude::*;

verus! {

use crate::KeyEvent;
use crate::keybind::KeyBinding;

/// Press state of the configured keys, plus the last decision emitted.
pub struct ChordTracker {
    pub binding: KeyBinding,
    pub first_pressed: bool,
    pub second_pressed: bool,
    pub last_decision: bool,
}

impl ChordTracker {
    /// The tracker state right after construction: nothing pressed, and the
    /// initial mute decision taken as already in effect.
    pub open spec fn spec_new(binding: KeyBinding) -> ChordTracker {
        ChordTracker { binding, first_pressed: false, second_pressed: false, last_decision: true }
    }

    /// How one event moves the press flags. A second configured key takes
    /// precedence over the first on a name collision; keys outside the
    /// binding change nothing.
    pub open spec fn spec_update(self, key: u32, pressed: bool) -> ChordTracker {
        if self.binding.second matches Some(k2) && key == k2 {
            ChordTracker { second_pressed: pressed, ..self }
        } else if key == self.binding.first {
            ChordTracker { first_pressed: pressed, ..self }
        } else {
            self
        }
    }

    /// The mute level the current press state requires: muted unless the
    /// whole chord is held.
    pub open spec fn required_mute(self) -> bool {
        !self.first_pressed || (self.binding.second is Some && !self.second_pressed)
    }

    /// One full step: move the press flags, then emit the new required level
    /// exactly when it differs from the last decision emitted.
    pub open spec fn spec_observe(self, key: u32, pressed: bool) -> (ChordTracker, Option<bool>) {
        let moved = self.spec_update(key, pressed);
        if moved.required_mute() != self.last_decision {
            (ChordTracker { last_decision: moved.required_mute(), ..moved },
                Some(moved.required_mute()))
        } else {
            (moved, None)
        }
    }

    /// The last decision emitted agrees with the level the press state
    /// requires. Construction establishes this and every step keeps it.
    pub open spec fn synced(self) -> bool {
        self.last_decision == self.required_mute()
    }

    pub fn new(binding: KeyBinding) -> (t: ChordTracker)
        ensures
            t == Self::spec_new(binding),
            t.synced(),
    {
        ChordTracker { binding, first_pressed: false, second_pressed: false, last_decision: true }
    }

    /// Feed one key event; the result is the decision emitted, if any.
    pub fn observe(&mut self, key: u32, pressed: bool) -> (d: Option<bool>)
        ensures
            *final(self) == old(self).spec_observe(key, pressed).0,
            d == old(self).spec_observe(key, pressed).1,
    {
        let second_hit = match self.binding.second {
            Some(k2) => k2 == key,
            None => false,
        };
        if second_hit {
            self.second_pressed = pressed;
        } else if key == self.binding.first {
            self.first_pressed = pressed;
        }
        let needed = self.should_mute();
        if needed != self.last_decision {
            self.last_decision = needed;
            Some(needed)
        } else {
            None
        }
    }

    /// The level the current press state requires.
    pub fn should_mute(&self) -> (m: bool)
        ensures
            m == self.required_mute(),
    {
        !self.first_pressed || (self.binding.second.is_some() && !self.second_pressed)
    }

    /// Forget all presses, keeping the binding and the last decision: used
    /// when stale events are discarded on resume.
    pub fn reset_chord(&mut self)
        ensures
            *final(self) == (ChordTracker {
                first_pressed: false,
                second_pressed: false,
                ..*old(self)
            }),
    {
        self.first_pressed = false;
        self.second_pressed = false;
    }
}

/// The tracker state after a whole event sequence has been fed in order.
pub open spec fn run_events(t: ChordTracker, es: Seq<KeyEvent>) -> ChordTracker
    decreases es.len(),
{
    if es.len() == 0 {
        t
    } else {
        run_events(t.spec_observe(es[0].key, es[0].pressed).0, es.drop_first())
    }
}

/// The decisions the tracker emits over a whole event sequence, in order.
pub open spec fn decisions_of(t: ChordTracker, es: Seq<KeyEvent>) -> Seq<bool>
    decreases es.len(),
{
    if es.len() == 0 {
        Seq::empty()
    } else {
        let stepped = t.spec_observe(es[0].key, es[0].pressed);
        (match stepped.1 {
            Some(v) => seq![v],
            None => Seq::empty(),
        }) + decisions_of(stepped.0, es.drop_first())
    }
}

/// The mute level the press state requires after each event of the sequence.
pub open spec fn levels_of(t: ChordTracker, es: Seq<KeyEvent>) -> Seq<bool>
    decreases es.len(),
{
    if es.len() == 0 {
        Seq::empty()
    } else {
        let stepped = t.spec_observe(es[0].key, es[0].pressed);
        seq![stepped.0.required_mute()] + levels_of(stepped.0, es.drop_first())
    }
}

/// The de-duplicated form of a level sequence: each element that differs
/// from the one before it, starting from `prev`.
pub open spec fn level_changes(prev: bool, levels: Seq<bool>) -> Seq<bool>
    decreases levels.len(),
{
    if levels.len() == 0 {
        Seq::empty()
    } else if levels[0] == prev {
        level_changes(prev, levels.drop_first())
    } else {
        seq![levels[0]] + level_changes(levels[0], levels.drop_first())
    }
}

/// One step always leaves the last decision equal to the required level.
pub proof fn lemma_observe_synced(t: ChordTracker, key: u32, pressed: bool)
    ensures
        t.spec_observe(key, pressed).0.synced(),
{
}

/// The tracker's decision sequence over any event sequence equals the
/// de-duplicated sequence of levels of "not every configured key pressed",
/// starting from the level already in effect.
pub proof fn lemma_decisions_are_level_changes(t: ChordTracker, es: Seq<KeyEvent>)
    requires
        t.synced(),
    ensures
        decisions_of(t, es) == level_changes(t.required_mute(), levels_of(t, es)),
    decreases es.len(),
{
    if es.len() > 0 {
        let stepped = t.spec_observe(es[0].key, es[0].pressed);
        lemma_observe_synced(t, es[0].key, es[0].pressed);
        lemma_decisions_are_level_changes(stepped.0, es.drop_first());
        let tail_levels = levels_of(stepped.0, es.drop_first());
        assert(levels_of(t, es).drop_first() =~= tail_levels);
        if stepped.0.required_mute() == t.required_mute() {
            assert(decisions_of(t, es) =~= decisions_of(stepped.0, es.drop_first()));
        } else {
            assert(decisions_of(t, es) =~= seq![stepped.0.required_mute()]
                + decisions_of(stepped.0, es.drop_first()));
        }
    }
}

/// Repeating the same event never yields a second decision, and leaves the
/// tracker exactly where the first occurrence left it.
pub proof fn lemma_observe_idempotent(t: ChordTracker, key: u32, pressed: bool)
    ensures
        ({
            let once = t.spec_observe(key, pressed);
            let twice = once.0.spec_observe(key, pressed);
            twice.1 is None && twice.0 == once.0
        }),
{
}

} // verus!

