//! The pause controller: an external toggle signal is latched into a pending
//! flag, and an observation point turns any number of latched deliveries into
//! exactly one Running/Paused flip.

use vstd::prelude::*;

verus! {

/// The latched toggle signal and the shared running flag it drives.
pub struct PauseController {
    /// True while at least one toggle delivery has not been observed yet.
    pub pending: bool,
    /// The running flag: true in Running, false in Paused. Initially true.
    pub running: bool,
}

impl PauseController {
    pub open spec fn spec_new() -> PauseController {
        PauseController { pending: false, running: true }
    }

    /// What one signal delivery does: it latches the pending flag and
    /// touches nothing else, so deliveries between observations coalesce.
    pub open spec fn spec_signal(self) -> PauseController {
        PauseController { pending: true, running: self.running }
    }

    /// What one observation point does: a latched delivery flips the running
    /// flag once and clears the latch; without one, nothing moves.
    pub open spec fn spec_observe(self) -> (PauseController, Option<bool>) {
        if self.pending {
            (PauseController { pending: false, running: !self.running }, Some(!self.running))
        } else {
            (self, None)
        }
    }

    pub fn new() -> (p: PauseController)
        ensures
            p == Self::spec_new(),
    {
        PauseController { pending: false, running: true }
    }

    /// Record one delivery of the external toggle signal.
    pub fn signal(&mut self)
        ensures
            *final(self) == old(self).spec_signal(),
    {
        self.pending = true;
    }

    /// Observe and clear the latch; the result is the new running value when
    /// a flip happened, and nothing otherwise.
    pub fn observe(&mut self) -> (flipped: Option<bool>)
        ensures
            *final(self) == old(self).spec_observe().0,
            flipped == old(self).spec_observe().1,
    {
        if self.pending {
            self.pending = false;
            self.running = !self.running;
            Some(self.running)
        } else {
            None
        }
    }
}

/// The controller after `n` consecutive signal deliveries.
pub open spec fn apply_signals(p: PauseController, n: nat) -> PauseController
    decreases n,
{
    if n == 0 {
        p
    } else {
        apply_signals(p.spec_signal(), (n - 1) as nat)
    }
}

/// Any positive number of deliveries leaves the controller exactly where a
/// single delivery leaves it.
pub proof fn lemma_signals_coalesce(p: PauseController, n: nat)
    requires
        n >= 1,
    ensures
        apply_signals(p, n) == p.spec_signal(),
    decreases n,
{
    if n > 1 {
        lemma_signals_coalesce(p.spec_signal(), (n - 1) as nat);
        assert(p.spec_signal().spec_signal() == p.spec_signal());
    } else {
        assert(apply_signals(p, n) == apply_signals(p.spec_signal(), 0));
    }
}

/// N deliveries between two observation points yield exactly one flip: the
/// first observation flips the running flag once, and the second, with no
/// new delivery in between, does nothing.
pub proof fn lemma_deliveries_observe_once(p: PauseController, n: nat)
    requires
        n >= 1,
    ensures
        ({
            let first = apply_signals(p, n).spec_observe();
            let second = first.0.spec_observe();
            first.0.running == !p.running && first.1 == Some(!p.running)
                && second.0 == first.0 && second.1 is None
        }),
{
    lemma_signals_coalesce(p, n);
}

} // verus!
