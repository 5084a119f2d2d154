//! SoundSync: Bluetooth A2DP receiver logic — codec negotiation, device
//! registry and state machine, and the parsers for the audio-server tool
//! output the receiver drives.
use vstd::prelude::*;

pub mod audio;
pub mod bluetooth;
pub mod dsp;
pub mod state;
pub mod text;
pub mod web;

verus! {

} // verus!
