//! AAC capability blob per BlueZ a2dp-codecs.h: MPEG-2 AAC LC, 44.1 and
//! 48 kHz, mono and stereo, VBR, 256 kbit/s.
use vstd::prelude::*;

verus! {

pub open spec fn aac_capabilities() -> Seq<u8> {
    seq![0x80u8, 0x03u8, 0x0Cu8, 0x83u8, 0xE8u8, 0x00u8]
}

pub open spec fn aac_select(remote: Seq<u8>) -> Seq<u8> {
    if remote.len() < 6 {
        aac_capabilities()
    } else {
        seq![
            remote[0] & 0x80,
            remote[1] & 0x01,
            remote[2] & 0x04,
            remote[3] & 0x83,
            remote[4],
            remote[5],
        ]
    }
}

pub fn capabilities() -> (r: Vec<u8>)
    ensures
        r@ == aac_capabilities(),
{
    // LC; 44.1 | 48 kHz; mono | stereo; VBR + bitrate high byte; bitrate bytes.
    let r = vec![0x80, 0x03, 0x0C, 0x83, 0xE8, 0x00];
    assert(r@ =~= aac_capabilities());
    r
}

/// Select AAC LC, 44.1 kHz, stereo, VBR and the remote's bitrate.
pub fn select_configuration(remote: &[u8]) -> (r: Vec<u8>)
    ensures
        r@ == aac_select(remote@),
{
    if remote.len() < 6 {
        return capabilities();
    }
    let r = vec![
        remote[0] & 0x80,
        remote[1] & 0x01,
        remote[2] & 0x04,
        remote[3] & 0x83,
        remote[4],
        remote[5],
    ];
    assert(r@ =~= aac_select(remote@));
    r
}

/// Every bit of the chosen configuration is one the remote offers.
pub proof fn lemma_aac_selection_offered(remote: Seq<u8>)
    requires
        remote.len() >= 6,
    ensures
        forall|i: int| 0 <= i < 6 ==> #[trigger] aac_select(remote)[i] & !remote[i] == 0,
{
    let (a, b, c, d) = (remote[0], remote[1], remote[2], remote[3]);
    assert((a & 0x80) & !a == 0) by (bit_vector);
    assert((b & 0x01) & !b == 0) by (bit_vector);
    assert((c & 0x04) & !c == 0) by (bit_vector);
    assert((d & 0x83) & !d == 0) by (bit_vector);
    let (e, f) = (remote[4], remote[5]);
    assert(e & !e == 0) by (bit_vector);
    assert(f & !f == 0) by (bit_vector);
}

} // verus!
