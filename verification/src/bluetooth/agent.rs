//! The pairing agent's answers to BlueZ.
use vstd::prelude::*;

verus! {

/// Bluetooth pairing agent: with auto-pairing on it accepts every request
/// (capability "NoInputNoOutput").
pub struct SoundSyncAgent {
    pub auto_pair: bool,
}

/// The refusal sent when auto-pairing is off.
pub open spec fn auto_pair_refusal() -> Seq<char> {
    "Auto-pair disabled"@
}

impl SoundSyncAgent {
    /// The PIN code offered to legacy pairing.
    pub fn request_pin_code(&self) -> (r: String)
        ensures
            r@ == "0000"@,
    {
        String::from_str("0000")
    }

    /// The passkey offered.
    pub fn request_passkey(&self) -> (r: u32)
        ensures
            r == 0,
    {
        0
    }

    /// Confirm a passkey: accepted exactly when auto-pairing is on.
    pub fn request_confirmation(&self, passkey: u32) -> (r: Result<(), String>)
        ensures
            r is Ok <==> self.auto_pair,
            r matches Err(e) ==> e@ == auto_pair_refusal(),
    {
        self.decide()
    }

    /// Authorize a pairing: accepted exactly when auto-pairing is on.
    pub fn request_authorization(&self) -> (r: Result<(), String>)
        ensures
            r is Ok <==> self.auto_pair,
            r matches Err(e) ==> e@ == auto_pair_refusal(),
    {
        self.decide()
    }

    /// Authorize a service connection: always accepted.
    pub fn authorize_service(&self, uuid: &str) -> (r: Result<(), String>)
        ensures
            r is Ok,
    {
        Ok(())
    }

    fn decide(&self) -> (r: Result<(), String>)
        ensures
            r is Ok <==> self.auto_pair,
            r matches Err(e) ==> e@ == auto_pair_refusal(),
    {
        if self.auto_pair {
            Ok(())
        } else {
            Err(String::from_str("Auto-pair disabled"))
        }
    }
}

} // verus!
