//! LDAC capability blob (vendor-specific, Sony): vendor 0x012D, codec 0x00AA
//! (both little-endian), 44.1 | 48 | 88.2 | 96 kHz, stereo | dual | mono.
use vstd::prelude::*;

verus! {

pub open spec fn ldac_capabilities() -> Seq<u8> {
    seq![0x2Du8, 0x01u8, 0xAAu8, 0x00u8, 0x3Cu8, 0x07u8]
}

/// Frequency byte: prefer 96 kHz, then 88.2 kHz, then 48 kHz.
pub open spec fn ldac_freq(b: u8) -> u8 {
    if b & 0x04 != 0 {
        0x04
    } else if b & 0x08 != 0 {
        0x08
    } else if b & 0x10 != 0 {
        0x10
    } else {
        b & 0x3C
    }
}

pub open spec fn ldac_select(remote: Seq<u8>) -> Seq<u8> {
    if remote.len() < 6 {
        ldac_capabilities()
    } else {
        seq![remote[0], remote[1], remote[2], remote[3], ldac_freq(remote[4]), 0x01u8]
    }
}

pub fn capabilities() -> (r: Vec<u8>)
    ensures
        r@ == ldac_capabilities(),
{
    let r = vec![0x2D, 0x01, 0xAA, 0x00, 0x3C, 0x07];
    assert(r@ =~= ldac_capabilities());
    r
}

/// Select the highest sampling frequency the remote offers, stereo.
pub fn select_configuration(remote: &[u8]) -> (r: Vec<u8>)
    ensures
        r@ == ldac_select(remote@),
{
    if remote.len() < 6 {
        return capabilities();
    }
    let freq: u8 = if remote[4] & 0x04 != 0 {
        0x04
    } else if remote[4] & 0x08 != 0 {
        0x08
    } else if remote[4] & 0x10 != 0 {
        0x10
    } else {
        remote[4] & 0x3C
    };
    let r = vec![remote[0], remote[1], remote[2], remote[3], freq, 0x01];
    assert(r@ =~= ldac_select(remote@));
    r
}

/// The chosen sampling frequency is one the remote offers.
pub proof fn lemma_ldac_freq_offered(b: u8)
    ensures
        ldac_freq(b) & !b == 0,
{
    assert(b & 0x04 != 0 ==> 0x04u8 & !b == 0) by (bit_vector);
    assert(b & 0x08 != 0 ==> 0x08u8 & !b == 0) by (bit_vector);
    assert(b & 0x10 != 0 ==> 0x10u8 & !b == 0) by (bit_vector);
    assert((b & 0x3C) & !b == 0) by (bit_vector);
}

} // verus!
