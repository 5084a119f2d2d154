//! A2DP codecs the receiver offers, with their capability blobs and the
//! configuration chosen from a remote device's capabilities.
use vstd::prelude::*;

pub mod aac;
pub mod aptx;
pub mod aptx_hd;
pub mod ldac;
pub mod sbc;

verus! {

#[derive(Debug, Clone, Copy, PartialEq, Eq, Structural, Hash)]
pub enum AudioCodec {
    Sbc,
    Aac,
    Ldac,
    AptX,
    AptXHd,
}

pub open spec fn endpoint_path_of(c: AudioCodec) -> Seq<char> {
    match c {
        AudioCodec::Sbc => "/org/soundsync/a2dp/sbc"@,
        AudioCodec::Aac => "/org/soundsync/a2dp/aac"@,
        AudioCodec::Ldac => "/org/soundsync/a2dp/ldac"@,
        AudioCodec::AptX => "/org/soundsync/a2dp/aptx"@,
        AudioCodec::AptXHd => "/org/soundsync/a2dp/aptx_hd"@,
    }
}

pub open spec fn codec_id_of(c: AudioCodec) -> u8 {
    match c {
        AudioCodec::Sbc => 0x00,
        AudioCodec::Aac => 0x02,
        _ => 0xFF,
    }
}

pub open spec fn capabilities_of(c: AudioCodec) -> Seq<u8> {
    match c {
        AudioCodec::Sbc => sbc::sbc_capabilities(),
        AudioCodec::Aac => aac::aac_capabilities(),
        AudioCodec::Ldac => ldac::ldac_capabilities(),
        AudioCodec::AptX => aptx::aptx_capabilities(),
        AudioCodec::AptXHd => aptx_hd::aptx_hd_capabilities(),
    }
}

pub open spec fn max_bitrate_of(c: AudioCodec) -> u32 {
    match c {
        AudioCodec::Sbc => 345,
        AudioCodec::Aac => 256,
        AudioCodec::Ldac => 990,
        AudioCodec::AptX => 352,
        AudioCodec::AptXHd => 576,
    }
}

pub open spec fn display_name_of(c: AudioCodec) -> Seq<char> {
    match c {
        AudioCodec::Sbc => "SBC"@,
        AudioCodec::Aac => "AAC"@,
        AudioCodec::Ldac => "LDAC"@,
        AudioCodec::AptX => "aptX"@,
        AudioCodec::AptXHd => "aptX HD"@,
    }
}

pub open spec fn all_codecs() -> Seq<AudioCodec> {
    seq![
        AudioCodec::Sbc,
        AudioCodec::Aac,
        AudioCodec::Ldac,
        AudioCodec::AptX,
        AudioCodec::AptXHd,
    ]
}

pub open spec fn select_configuration_of(c: AudioCodec, remote: Seq<u8>) -> Seq<u8> {
    match c {
        AudioCodec::Sbc => sbc::sbc_select(remote),
        AudioCodec::Aac => aac::aac_select(remote),
        AudioCodec::Ldac => ldac::ldac_select(remote),
        AudioCodec::AptX => aptx::aptx_select(remote),
        AudioCodec::AptXHd => aptx_hd::aptx_hd_select(remote),
    }
}

impl AudioCodec {
    /// D-Bus object path of this codec's media endpoint.
    pub fn endpoint_path(&self) -> (r: &'static str)
        ensures
            r@ == endpoint_path_of(*self),
    {
        match self {
            AudioCodec::Sbc => "/org/soundsync/a2dp/sbc",
            AudioCodec::Aac => "/org/soundsync/a2dp/aac",
            AudioCodec::Ldac => "/org/soundsync/a2dp/ldac",
            AudioCodec::AptX => "/org/soundsync/a2dp/aptx",
            AudioCodec::AptXHd => "/org/soundsync/a2dp/aptx_hd",
        }
    }

    /// A2DP codec identifier (0xFF for vendor-specific codecs).
    pub fn codec_id(&self) -> (r: u8)
        ensures
            r == codec_id_of(*self),
    {
        match self {
            AudioCodec::Sbc => 0x00,
            AudioCodec::Aac => 0x02,
            AudioCodec::Ldac | AudioCodec::AptX | AudioCodec::AptXHd => 0xFF,
        }
    }

    pub fn capabilities(&self) -> (r: Vec<u8>)
        ensures
            r@ == capabilities_of(*self),
    {
        match self {
            AudioCodec::Sbc => sbc::capabilities(),
            AudioCodec::Aac => aac::capabilities(),
            AudioCodec::Ldac => ldac::capabilities(),
            AudioCodec::AptX => aptx::capabilities(),
            AudioCodec::AptXHd => aptx_hd::capabilities(),
        }
    }

    pub fn max_bitrate_kbps(&self) -> (r: u32)
        ensures
            r == max_bitrate_of(*self),
    {
        match self {
            AudioCodec::Sbc => 345,
            AudioCodec::Aac => 256,
            AudioCodec::Ldac => 990,
            AudioCodec::AptX => 352,
            AudioCodec::AptXHd => 576,
        }
    }

    pub fn display_name(&self) -> (r: &'static str)
        ensures
            r@ == display_name_of(*self),
    {
        match self {
            AudioCodec::Sbc => "SBC",
            AudioCodec::Aac => "AAC",
            AudioCodec::Ldac => "LDAC",
            AudioCodec::AptX => "aptX",
            AudioCodec::AptXHd => "aptX HD",
        }
    }

    /// Every codec, in order of registration.
    pub fn all() -> (r: Vec<AudioCodec>)
        ensures
            r@ == all_codecs(),
    {
        let r = vec![
            AudioCodec::Sbc,
            AudioCodec::Aac,
            AudioCodec::Ldac,
            AudioCodec::AptX,
            AudioCodec::AptXHd,
        ];
        assert(r@ =~= all_codecs());
        r
    }

    /// Select the best configuration from remote capabilities.
    pub fn select_configuration(&self, remote_caps: &[u8]) -> (r: Vec<u8>)
        ensures
            r@ == select_configuration_of(*self, remote_caps@),
    {
        match self {
            AudioCodec::Sbc => sbc::select_configuration(remote_caps),
            AudioCodec::Aac => aac::select_configuration(remote_caps),
            AudioCodec::Ldac => ldac::select_configuration(remote_caps),
            AudioCodec::AptX => aptx::select_configuration(remote_caps),
            AudioCodec::AptXHd => aptx_hd::select_configuration(remote_caps),
        }
    }
}

/// Every codec has its own endpoint path.
pub proof fn lemma_endpoint_paths_distinct(a: AudioCodec, b: AudioCodec)
    requires
        a != b,
    ensures
        endpoint_path_of(a) != endpoint_path_of(b),
{
    reveal_strlit("/org/soundsync/a2dp/sbc");
    reveal_strlit("/org/soundsync/a2dp/aac");
    reveal_strlit("/org/soundsync/a2dp/ldac");
    reveal_strlit("/org/soundsync/a2dp/aptx");
    reveal_strlit("/org/soundsync/a2dp/aptx_hd");
    let pa = endpoint_path_of(a);
    let pb = endpoint_path_of(b);
    if pa.len() == pb.len() {
        assert(pa[20] != pb[20] || pa[21] != pb[21] || pa[22] != pb[22] || pa[23] != pb[23]);
    }
}

/// The configuration chosen for any remote capability blob is never empty,
/// so endpoint negotiation always has something to answer with.
pub proof fn lemma_selection_nonempty(c: AudioCodec, remote: Seq<u8>)
    ensures
        select_configuration_of(c, remote).len() >= 4,
{
    if c == AudioCodec::AptXHd {
        aptx_hd::lemma_aptx_hd_select_len(remote);
    }
}

} // verus!
