//! SBC capability blob per BlueZ a2dp-codecs.h.
//!
//! Byte 0: sampling frequency + channel mode; byte 1: block length, subbands,
//! allocation method; byte 2: minimum bitpool; byte 3: maximum bitpool.
use vstd::prelude::*;

verus! {

pub open spec fn sbc_capabilities() -> Seq<u8> {
    seq![0x3Fu8, 0xFFu8, 2u8, 53u8]
}

/// Frequency/channel byte: prefer 44.1 kHz joint stereo, then 48 kHz joint
/// stereo, else the frequency and joint-stereo bits the remote offers.
pub open spec fn sbc_freq_channel(b: u8) -> u8 {
    if b & 0x20 != 0 && b & 0x01 != 0 {
        0x21
    } else if b & 0x10 != 0 && b & 0x01 != 0 {
        0x11
    } else {
        b & 0x31
    }
}

/// Block/subband/allocation byte: prefer 16 blocks, 8 subbands, loudness.
pub open spec fn sbc_blocks(b: u8) -> u8 {
    let blocks: u8 = if b & 0x10 != 0 {
        0x10
    } else {
        b & 0xF0
    };
    let subbands: u8 = if b & 0x04 != 0 {
        0x04
    } else {
        b & 0x0C
    };
    let alloc: u8 = if b & 0x01 != 0 {
        0x01
    } else {
        b & 0x03
    };
    blocks | subbands | alloc
}

pub open spec fn sbc_select(remote: Seq<u8>) -> Seq<u8> {
    if remote.len() < 4 {
        sbc_capabilities()
    } else {
        seq![
            sbc_freq_channel(remote[0]),
            sbc_blocks(remote[1]),
            remote[2],
            if remote[3] < 53 {
                remote[3]
            } else {
                53u8
            },
        ]
    }
}

pub fn capabilities() -> (r: Vec<u8>)
    ensures
        r@ == sbc_capabilities(),
{
    let r = vec![0x3F, 0xFF, 2, 53];
    assert(r@ =~= sbc_capabilities());
    r
}

/// Select optimal SBC configuration from remote capabilities.
pub fn select_configuration(remote: &[u8]) -> (r: Vec<u8>)
    ensures
        r@ == sbc_select(remote@),
{
    if remote.len() < 4 {
        return capabilities();
    }
    let freq_channel = remote[0];
    let blocks_subbands = remote[1];
    let min_bitpool = remote[2];
    let max_bitpool = remote[3];

    let selected_freq_channel: u8 = if freq_channel & 0x20 != 0 && freq_channel & 0x01 != 0 {
        0x21
    } else if freq_channel & 0x10 != 0 && freq_channel & 0x01 != 0 {
        0x11
    } else {
        freq_channel & 0x31
    };
    let selected_blocks: u8 = if blocks_subbands & 0x10 != 0 {
        0x10
    } else {
        blocks_subbands & 0xF0
    };
    let selected_subbands: u8 = if blocks_subbands & 0x04 != 0 {
        0x04
    } else {
        blocks_subbands & 0x0C
    };
    let selected_alloc: u8 = if blocks_subbands & 0x01 != 0 {
        0x01
    } else {
        blocks_subbands & 0x03
    };
    let max_selected: u8 = if max_bitpool < 53 {
        max_bitpool
    } else {
        53
    };
    let r = vec![
        selected_freq_channel,
        selected_blocks | selected_subbands | selected_alloc,
        min_bitpool,
        max_selected,
    ];
    assert(r@ =~= sbc_select(remote@));
    r
}

/// The chosen frequency, channel mode, block length, subbands and allocation
/// are all among those the remote offers, and the chosen maximum bitpool
/// never exceeds the remote's nor the high-quality limit of 53.
pub proof fn lemma_sbc_selection_offered(remote: Seq<u8>)
    requires
        remote.len() >= 4,
    ensures
        sbc_select(remote)[0] & !remote[0] == 0,
        sbc_select(remote)[1] & !remote[1] == 0,
        sbc_select(remote)[2] == remote[2],
        sbc_select(remote)[3] <= remote[3],
        sbc_select(remote)[3] <= 53,
{
    let b0 = remote[0];
    let b1 = remote[1];
    assert(b0 & 0x20 != 0 && b0 & 0x01 != 0 ==> 0x21u8 & !b0 == 0) by (bit_vector);
    assert(b0 & 0x10 != 0 && b0 & 0x01 != 0 ==> 0x11u8 & !b0 == 0) by (bit_vector);
    assert((b0 & 0x31) & !b0 == 0) by (bit_vector);
    let blocks: u8 = if b1 & 0x10 != 0 {
        0x10
    } else {
        b1 & 0xF0
    };
    let subbands: u8 = if b1 & 0x04 != 0 {
        0x04
    } else {
        b1 & 0x0C
    };
    let alloc: u8 = if b1 & 0x01 != 0 {
        0x01
    } else {
        b1 & 0x03
    };
    assert(blocks & !b1 == 0) by (bit_vector)
        requires
            blocks == (if b1 & 0x10 != 0 {
                0x10u8
            } else {
                b1 & 0xF0
            }),
    ;
    assert(subbands & !b1 == 0) by (bit_vector)
        requires
            subbands == (if b1 & 0x04 != 0 {
                0x04u8
            } else {
                b1 & 0x0C
            }),
    ;
    assert(alloc & !b1 == 0) by (bit_vector)
        requires
            alloc == (if b1 & 0x01 != 0 {
                0x01u8
            } else {
                b1 & 0x03
            }),
    ;
    assert((blocks | subbands | alloc) & !b1 == 0) by (bit_vector)
        requires
            blocks & !b1 == 0,
            subbands & !b1 == 0,
            alloc & !b1 == 0,
    ;
}

/// The selection prefers the best options the remote offers: 44.1 kHz joint
/// stereo, then 48 kHz joint stereo; 16 blocks, 8 subbands and loudness
/// allocation each alone in its field whenever the remote offers it; the
/// remote's minimum bitpool, and its maximum capped at 53.
pub proof fn lemma_sbc_prefers_best(remote: Seq<u8>)
    requires
        remote.len() >= 4,
    ensures
        remote[0] & 0x21 == 0x21 ==> sbc_select(remote)[0] == 0x21,
        remote[0] & 0x21 != 0x21 && remote[0] & 0x11 == 0x11 ==> sbc_select(remote)[0] == 0x11,
        remote[1] & 0x10 != 0 ==> sbc_select(remote)[1] & 0xF0 == 0x10,
        remote[1] & 0x04 != 0 ==> sbc_select(remote)[1] & 0x0C == 0x04,
        remote[1] & 0x01 != 0 ==> sbc_select(remote)[1] & 0x03 == 0x01,
        sbc_select(remote)[2] == remote[2],
        sbc_select(remote)[3] == if remote[3] < 53 {
            remote[3]
        } else {
            53
        },
        sbc_select(remote).len() == 4,
{
    let b0 = remote[0];
    let b1 = remote[1];
    let s0 = sbc_select(remote)[0];
    let s1 = sbc_select(remote)[1];
    assert(s0 == sbc_freq_channel(b0));
    assert(s1 == sbc_blocks(b1));
    assert(b0 & 0x21 == 0x21 <==> (b0 & 0x20 != 0 && b0 & 0x01 != 0)) by (bit_vector);
    assert(b0 & 0x11 == 0x11 <==> (b0 & 0x10 != 0 && b0 & 0x01 != 0)) by (bit_vector);
    let blocks: u8 = if b1 & 0x10 != 0 {
        0x10
    } else {
        b1 & 0xF0
    };
    let subbands: u8 = if b1 & 0x04 != 0 {
        0x04
    } else {
        b1 & 0x0C
    };
    let alloc: u8 = if b1 & 0x01 != 0 {
        0x01
    } else {
        b1 & 0x03
    };
    assert(s1 == blocks | subbands | alloc);
    assert(subbands & 0xF3 == 0 && alloc & 0xFC == 0) by (bit_vector)
        requires
            subbands == (if b1 & 0x04 != 0 {
                0x04u8
            } else {
                b1 & 0x0C
            }),
            alloc == (if b1 & 0x01 != 0 {
                0x01u8
            } else {
                b1 & 0x03
            }),
    ;
    assert(blocks & 0x0F == 0) by (bit_vector)
        requires
            blocks == (if b1 & 0x10 != 0 {
                0x10u8
            } else {
                b1 & 0xF0
            }),
    ;
    assert((blocks | subbands | alloc) & 0xF0 == blocks & 0xF0) by (bit_vector)
        requires
            subbands & 0xF3 == 0,
            alloc & 0xFC == 0,
    ;
    assert((blocks | subbands | alloc) & 0x0C == subbands & 0x0C) by (bit_vector)
        requires
            blocks & 0x0F == 0,
            alloc & 0xFC == 0,
    ;
    assert((blocks | subbands | alloc) & 0x03 == alloc & 0x03) by (bit_vector)
        requires
            blocks & 0x0F == 0,
            subbands & 0xF3 == 0,
    ;
    assert(0x10u8 & 0xF0 == 0x10 && 0x04u8 & 0x0C == 0x04 && 0x01u8 & 0x03 == 0x01) by (bit_vector);
}

} // verus!
