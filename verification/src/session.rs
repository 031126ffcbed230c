//! The input session: one observation step of the event loop, combining the
//! shared running flag with the chord tracker.
//!
//! While paused, every event of a batch is discarded. On the step where the
//! running flag is first seen high again, the batch queued during the pause
//! is discarded as stale and the chord state is cleared, so a half-pressed
//! chord cannot leak across the boundary. Otherwise the batch is fed to the
//! tracker and the emitted decisions are handed out in order.

use vstd::prelude::*;

verus! {

use crate::KeyEvent;
use crate::chord::ChordTracker;
use crate::chord::decisions_of;
use crate::chord::run_events;

/// The per-thread state of the input worker: the tracker and the running
/// value it saw at the previous step.
pub struct Session {
    pub tracker: ChordTracker,
    pub was_running: bool,
}

impl Session {
    /// What one step does, given the running flag as read now and the batch
    /// of events retrieved since the last step.
    pub open spec fn spec_step(self, running_now: bool, es: Seq<KeyEvent>) -> (Session, Seq<bool>) {
        if !running_now {
            (Session { tracker: self.tracker, was_running: false }, Seq::empty())
        } else if !self.was_running {
            (Session {
                tracker: ChordTracker {
                    first_pressed: false,
                    second_pressed: false,
                    ..self.tracker
                },
                was_running: true,
            }, Seq::empty())
        } else {
            (Session { tracker: run_events(self.tracker, es), was_running: true },
                decisions_of(self.tracker, es))
        }
    }

    pub fn new(tracker: ChordTracker) -> (s: Session)
        ensures
            s == (Session { tracker, was_running: true }),
    {
        Session { tracker, was_running: true }
    }

    /// Run one observation step; the result holds the decisions to send, in
    /// emission order.
    pub fn step(&mut self, running_now: bool, events: &Vec<KeyEvent>) -> (ds: Vec<bool>)
        ensures
            *final(self) == old(self).spec_step(running_now, events@).0,
            ds@ == old(self).spec_step(running_now, events@).1,
    {
        let mut ds: Vec<bool> = Vec::new();
        if !running_now {
            self.was_running = false;
            return ds;
        }
        if !self.was_running {
            self.tracker.reset_chord();
            self.was_running = true;
            return ds;
        }
        let ghost t0 = self.tracker;
        proof {
            assert(events@.skip(0) =~= events@);
        }
        let mut i: usize = 0;
        while i < events.len()
            invariant
                i <= events@.len(),
                self.was_running,
                decisions_of(t0, events@) =~= ds@ + decisions_of(
                    self.tracker,
                    events@.skip(i as int),
                ),
                run_events(t0, events@) == run_events(self.tracker, events@.skip(i as int)),
            decreases events@.len() - i,
        {
            let e = events[i];
            proof {
                assert(events@.skip(i as int)[0] == events@[i as int]);
                assert(events@.skip(i as int).drop_first() =~= events@.skip(i as int + 1));
            }
            let d = self.tracker.observe(e.key, e.pressed);
            if let Some(v) = d {
                ds.push(v);
            }
            i = i + 1;
        }
        proof {
            assert(events@.skip(events@.len() as int) =~= Seq::<KeyEvent>::empty());
        }
        ds
    }
}

/// While paused, a step discards its whole batch: no decision is emitted and
/// the tracker does not move.
pub proof fn lemma_paused_discards_events(s: Session, es: Seq<KeyEvent>)
    ensures
        s.spec_step(false, es).1 == Seq::<bool>::empty(),
        s.spec_step(false, es).0.tracker == s.tracker,
{
}

/// On the step that observes the resume, the batch queued during the pause
/// is discarded and the chord state starts over at "nothing pressed", with
/// the binding and the decision in effect unchanged.
pub proof fn lemma_drain_on_resume(s: Session, es: Seq<KeyEvent>)
    requires
        !s.was_running,
    ensures
        ({
            let stepped = s.spec_step(true, es);
            stepped.1 == Seq::<bool>::empty() && !stepped.0.tracker.first_pressed
                && !stepped.0.tracker.second_pressed
                && stepped.0.tracker.last_decision == s.tracker.last_decision
                && stepped.0.tracker.binding == s.tracker.binding
        }),
{
}

} // verus!
