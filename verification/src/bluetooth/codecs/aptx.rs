//! aptX capability blob (vendor-specific, Qualcomm): vendor 0x004F, codec
//! 0x0001 (both little-endian), 44.1 | 48 kHz, stereo.
use vstd::prelude::*;

verus! {

pub open spec fn aptx_capabilities() -> Seq<u8> {
    seq![0x4Fu8, 0x00u8, 0x01u8, 0x00u8, 0x30u8, 0x02u8]
}

/// Frequency byte shared by aptX and aptX HD: prefer 44.1 kHz.
pub open spec fn aptx_freq(b: u8) -> u8 {
    if b & 0x20 != 0 {
        0x20
    } else {
        b & 0x30
    }
}

pub open spec fn aptx_select(remote: Seq<u8>) -> Seq<u8> {
    if remote.len() < 6 {
        aptx_capabilities()
    } else {
        seq![remote[0], remote[1], remote[2], remote[3], aptx_freq(remote[4]), 0x02u8]
    }
}

pub fn capabilities() -> (r: Vec<u8>)
    ensures
        r@ == aptx_capabilities(),
{
    let r = vec![0x4F, 0x00, 0x01, 0x00, 0x30, 0x02];
    assert(r@ =~= aptx_capabilities());
    r
}

pub fn select_configuration(remote: &[u8]) -> (r: Vec<u8>)
    ensures
        r@ == aptx_select(remote@),
{
    if remote.len() < 6 {
        return capabilities();
    }
    let freq: u8 = if remote[4] & 0x20 != 0 {
        0x20
    } else {
        remote[4] & 0x30
    };
    let r = vec![remote[0], remote[1], remote[2], remote[3], freq, 0x02];
    assert(r@ =~= aptx_select(remote@));
    r
}

/// The chosen sampling frequency is one the remote offers.
pub proof fn lemma_aptx_freq_offered(b: u8)
    ensures
        aptx_freq(b) & !b == 0,
{
    assert(b & 0x20 != 0 ==> 0x20u8 & !b == 0) by (bit_vector);
    assert((b & 0x30) & !b == 0) by (bit_vector);
}

} // verus!
