//! Push-to-talk core: a verified key-chord state machine with pause/resume
//! coalescing and a device-mute actuator model.
//!
//! The crate holds the decision logic of a push-to-talk daemon: which key
//! events engage the configured chord, when a mute/unmute decision is owed,
//! how pause signals coalesce, and which capture devices a decision applies
//! to. All I/O (input devices, the audio server, signals) lives outside.

use vstd::prelude::*;

pub mod actuator;
pub mod chord;
pub mod devices;
pub mod keybind;
pub mod pause;
pub mod session;

verus! {

/// A key press or release, already translated to a symbolic key value.
#[derive(Clone, Copy, Debug, PartialEq, Eq)]
pub struct KeyEvent {
    pub key: u32,
    pub pressed: bool,
}

} // verus!
