//! The mute actuator's decision core: which set-mute requests one received
//! decision, or one device-topology notification, turns into.
//!
//! The actuator keeps the last decision it applied. A decision sweeps every
//! device the filter selects; a topology change, while not paused, re-issues
//! the last decision so a newly appeared device cannot stay unmuted.

use vstd::prelude::*;

verus! {

use crate::devices::DeviceFilter;
use crate::devices::DeviceInfo;
use crate::devices::matches_filter;

/// One asynchronous set-mute request, keyed by device index. A device
/// without an active port is never muted, only unmuted.
#[derive(Clone, Copy, Debug, PartialEq, Eq)]
pub struct MuteCommand {
    pub index: u32,
    pub mute: bool,
}

/// What wakes the actuator: a mute decision from the tracker, or a
/// device-topology change notification from the audio subsystem.
#[derive(Clone, Copy, Debug, PartialEq, Eq)]
pub enum ActuatorEvent {
    Decision(bool),
    Topology,
}

/// The actuator's own state: its device filter and the last decision it
/// applied, initially "muted".
pub struct Actuator {
    pub filter: DeviceFilter,
    pub last_decision: bool,
}

/// The requests one decision issues over the present devices, in device
/// order: one per selected device, muting only where a port is active.
pub open spec fn spec_sweep(f: Option<Seq<u8>>, decision: bool, devs: Seq<DeviceInfo>) -> Seq<
    MuteCommand,
>
    decreases devs.len(),
{
    if devs.len() == 0 {
        Seq::empty()
    } else {
        (if matches_filter(f, devs[0].description@) {
            seq![MuteCommand { index: devs[0].index, mute: decision && devs[0].active_port }]
        } else {
            Seq::empty()
        }) + spec_sweep(f, decision, devs.drop_first())
    }
}

/// Issue one decision to every device the filter selects.
pub fn sweep(filter: &DeviceFilter, decision: bool, devices: &Vec<DeviceInfo>) -> (cmds: Vec<
    MuteCommand,
>)
    ensures
        cmds@ == spec_sweep(filter.spec_needle(), decision, devices@),
{
    let mut cmds: Vec<MuteCommand> = Vec::new();
    let mut i: usize = 0;
    proof {
        assert(devices@.skip(0) =~= devices@);
    }
    while i < devices.len()
        invariant
            i <= devices@.len(),
            spec_sweep(filter.spec_needle(), decision, devices@) =~= cmds@ + spec_sweep(
                filter.spec_needle(),
                decision,
                devices@.skip(i as int),
            ),
        decreases devices@.len() - i,
    {
        proof {
            assert(devices@.skip(i as int)[0] == devices@[i as int]);
            assert(devices@.skip(i as int).drop_first() =~= devices@.skip(i as int + 1));
        }
        let dev = &devices[i];
        if crate::devices::device_matches(filter, &dev.description) {
            cmds.push(MuteCommand { index: dev.index, mute: decision && dev.active_port });
        }
        i = i + 1;
    }
    proof {
        assert(devices@.skip(devices@.len() as int) =~= Seq::<DeviceInfo>::empty());
    }
    cmds
}

impl Actuator {
    /// What one wake-up does: a decision is recorded and swept over the
    /// devices; a topology change re-issues the last decision unless paused.
    pub open spec fn spec_step(self, event: ActuatorEvent, paused: bool, devs: Seq<DeviceInfo>)
        -> (Actuator, Seq<MuteCommand>) {
        match event {
            ActuatorEvent::Decision(m) => (
                Actuator { filter: self.filter, last_decision: m },
                spec_sweep(self.filter.spec_needle(), m, devs),
            ),
            ActuatorEvent::Topology => {
                if paused {
                    (self, Seq::empty())
                } else {
                    (self, spec_sweep(self.filter.spec_needle(), self.last_decision, devs))
                }
            },
        }
    }

    /// A fresh actuator: the decision in effect before any event is "muted".
    pub fn new(filter: DeviceFilter) -> (a: Actuator)
        ensures
            a.filter == filter,
            a.last_decision == true,
    {
        Actuator { filter, last_decision: true }
    }

    /// Handle one wake-up over the devices present right now; the result
    /// holds the set-mute requests to issue, in device order.
    pub fn step(&mut self, event: &ActuatorEvent, paused: bool, devices: &Vec<DeviceInfo>) -> (cmds:
        Vec<MuteCommand>)
        ensures
            *final(self) == old(self).spec_step(*event, paused, devices@).0,
            cmds@ == old(self).spec_step(*event, paused, devices@).1,
    {
        match event {
            ActuatorEvent::Decision(m) => {
                self.last_decision = *m;
                sweep(&self.filter, *m, devices)
            },
            ActuatorEvent::Topology => {
                if paused {
                    Vec::new()
                } else {
                    sweep(&self.filter, self.last_decision, devices)
                }
            },
        }
    }
}

/// Every device the filter selects receives its request in a sweep.
pub proof fn lemma_sweep_covers(f: Option<Seq<u8>>, decision: bool, devs: Seq<DeviceInfo>)
    ensures
        forall|k: int|
            0 <= k < devs.len() && matches_filter(f, #[trigger] devs[k].description@)
                ==> spec_sweep(f, decision, devs).contains(
                MuteCommand { index: devs[k].index, mute: decision && devs[k].active_port },
            ),
    decreases devs.len(),
{
    if devs.len() > 0 {
        lemma_sweep_covers(f, decision, devs.drop_first());
        let whole = spec_sweep(f, decision, devs);
        let head = if matches_filter(f, devs[0].description@) {
            seq![MuteCommand { index: devs[0].index, mute: decision && devs[0].active_port }]
        } else {
            Seq::<MuteCommand>::empty()
        };
        let tail = spec_sweep(f, decision, devs.drop_first());
        assert forall|k: int|
            0 <= k < devs.len() && matches_filter(f, #[trigger] devs[k].description@) implies whole
            .contains(
            MuteCommand { index: devs[k].index, mute: decision && devs[k].active_port },
        ) by {
            let c = MuteCommand { index: devs[k].index, mute: decision && devs[k].active_port };
            if k == 0 {
                assert(whole[0] == c);
            } else {
                assert(devs.drop_first()[k - 1] == devs[k]);
                assert(tail.contains(c));
                let j = choose|j: int| 0 <= j < tail.len() && tail[j] == c;
                assert(whole[head.len() + j] == c);
            }
        }
    }
}

/// Topology resilience: while the decision in effect is "muted" and the
/// controller is not paused, a topology notification makes every device the
/// filter selects receive its request, without any key event.
pub proof fn lemma_topology_reasserts_mute(a: Actuator, devs: Seq<DeviceInfo>)
    requires
        a.last_decision == true,
    ensures
        forall|k: int|
            0 <= k < devs.len() && matches_filter(
                a.filter.spec_needle(),
                #[trigger] devs[k].description@,
            ) ==> a.spec_step(ActuatorEvent::Topology, false, devs).1.contains(
                MuteCommand { index: devs[k].index, mute: devs[k].active_port },
            ),
{
    lemma_sweep_covers(a.filter.spec_needle(), true, devs);
    assert forall|k: int|
        0 <= k < devs.len() && matches_filter(
            a.filter.spec_needle(),
            #[trigger] devs[k].description@,
        ) implies a.spec_step(ActuatorEvent::Topology, false, devs).1.contains(
        MuteCommand { index: devs[k].index, mute: devs[k].active_port },
    ) by {
        assert(spec_sweep(a.filter.spec_needle(), true, devs).contains(
            MuteCommand { index: devs[k].index, mute: true && devs[k].active_port },
        ));
        assert(MuteCommand { index: devs[k].index, mute: true && devs[k].active_port }
            == MuteCommand { index: devs[k].index, mute: devs[k].active_port });
    }
}

} // verus!
