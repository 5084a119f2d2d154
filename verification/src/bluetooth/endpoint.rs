//! The A2DP media endpoint's answers: the configuration it selects and the
//! device a transport belongs to.
use vstd::prelude::*;

use crate::bluetooth::codecs::{select_configuration_of, AudioCodec};
use crate::bluetooth::constants::{address_from_path, address_of_path};

verus! {

/// The configuration chosen from a remote device's capabilities, or the
/// refusal when negotiation found none.
pub fn negotiate_configuration(codec: AudioCodec, capabilities: &[u8]) -> (r: Result<
    Vec<u8>,
    String,
>)
    ensures
        match r {
            Ok(c) => c@ == select_configuration_of(codec, capabilities@) && c@.len() > 0,
            Err(e) => select_configuration_of(codec, capabilities@).len() == 0 && e@
                == "Capability negotiation failed"@,
        },
{
    let selected = codec.select_configuration(capabilities);
    if selected.len() == 0 {
        Err(String::from_str("Capability negotiation failed"))
    } else {
        Ok(selected)
    }
}

/// The device address of a transport path, or "unknown".
pub fn transport_address(transport_path: &str) -> (r: String)
    ensures
        r@ == match address_of_path(transport_path@) {
            Some(a) => a,
            None => "unknown"@,
        },
{
    match address_from_path(transport_path) {
        Some(a) => a,
        None => String::from_str("unknown"),
    }
}

} // verus!
