//! aptX HD capability blob (vendor-specific, Qualcomm): vendor 0x00D7,
//! codec 0x0024 (both little-endian), 44.1 | 48 kHz, stereo, 4 reserved bytes.
use vstd::prelude::*;

use super::aptx::aptx_freq;

verus! {

pub open spec fn aptx_hd_capabilities() -> Seq<u8> {
    seq![0xD7u8, 0x00u8, 0x24u8, 0x00u8, 0x30u8, 0x02u8, 0u8, 0u8, 0u8, 0u8]
}

/// The six configuration bytes, zero-padded to the remote blob's length.
pub open spec fn aptx_hd_select(remote: Seq<u8>) -> Seq<u8> {
    if remote.len() < 6 {
        aptx_hd_capabilities()
    } else {
        seq![remote[0], remote[1], remote[2], remote[3], aptx_freq(remote[4]), 0x02u8]
            + Seq::new((remote.len() - 6) as nat, |i: int| 0u8)
    }
}

pub fn capabilities() -> (r: Vec<u8>)
    ensures
        r@ == aptx_hd_capabilities(),
{
    let r = vec![0xD7, 0x00, 0x24, 0x00, 0x30, 0x02, 0x00, 0x00, 0x00, 0x00];
    assert(r@ =~= aptx_hd_capabilities());
    r
}

pub fn select_configuration(remote: &[u8]) -> (r: Vec<u8>)
    ensures
        r@ == aptx_hd_select(remote@),
{
    if remote.len() < 6 {
        return capabilities();
    }
    let freq: u8 = if remote[4] & 0x20 != 0 {
        0x20
    } else {
        remote[4] & 0x30
    };
    let mut config = vec![remote[0], remote[1], remote[2], remote[3], freq, 0x02];
    while config.len() < remote.len()
        invariant
            6 <= config@.len() <= remote@.len(),
            config@ =~= seq![remote@[0], remote@[1], remote@[2], remote@[3], freq, 0x02u8]
                + Seq::new((config@.len() - 6) as nat, |i: int| 0u8),
        decreases remote.len() - config.len(),
    {
        config.push(0x00);
    }
    assert(config@ =~= aptx_hd_select(remote@));
    config
}

pub proof fn lemma_aptx_hd_select_len(remote: Seq<u8>)
    ensures
        aptx_hd_select(remote).len() == if remote.len() < 6 {
            10
        } else {
            remote.len()
        },
{
}

} // verus!
