use soundsync::bluetooth::codecs::{aac, aptx, aptx_hd, ldac, sbc, AudioCodec};
use soundsync::bluetooth::endpoint::negotiate_configuration;

#[test]
fn test_codec_ids() {
    assert_eq!(AudioCodec::Sbc.codec_id(), 0x00);
    assert_eq!(AudioCodec::Aac.codec_id(), 0x02);
    assert_eq!(AudioCodec::Ldac.codec_id(), 0xFF);
    assert_eq!(AudioCodec::AptX.codec_id(), 0xFF);
    assert_eq!(AudioCodec::AptXHd.codec_id(), 0xFF);
}

#[test]
fn test_codec_bitrates() {
    assert_eq!(AudioCodec::Sbc.max_bitrate_kbps(), 345);
    assert_eq!(AudioCodec::Ldac.max_bitrate_kbps(), 990);
}

#[test]
fn test_all_codecs() {
    assert_eq!(AudioCodec::all().len(), 5);
}

#[test]
fn test_capabilities_not_empty() {
    for codec in AudioCodec::all() {
        assert!(
            !codec.capabilities().is_empty(),
            "{:?} capabilities empty",
            codec
        );
    }
}

#[test]
fn test_endpoint_paths_unique() {
    let paths: Vec<_> = AudioCodec::all()
        .iter()
        .map(|c| c.endpoint_path())
        .collect();
    let unique: std::collections::HashSet<_> = paths.iter().collect();
    assert_eq!(paths.len(), unique.len());
}

#[test]
fn sbc_test_capabilities_length() {
    assert_eq!(sbc::capabilities().len(), 4);
}

#[test]
fn test_bitpool_range() {
    let caps = sbc::capabilities();
    assert_eq!(caps[2], 2);
    assert_eq!(caps[3], 53);
}

#[test]
fn test_select_configuration_prefers_joint_stereo() {
    let remote = vec![0x3F, 0xFF, 2, 53];
    let selected = sbc::select_configuration(&remote);
    assert_eq!(selected[0] & 0x01, 0x01);
}

#[test]
fn aac_test_capabilities_length() {
    assert_eq!(aac::capabilities().len(), 6);
}

#[test]
fn test_aac_lc_object_type() {
    let caps = aac::capabilities();
    assert_eq!(caps[0] & 0x80, 0x80);
}

#[test]
fn aptx_test_capabilities_length() {
    assert_eq!(aptx::capabilities().len(), 6);
}

#[test]
fn test_vendor_id_qualcomm() {
    let caps = aptx::capabilities();
    assert_eq!(caps[0], 0x4F);
    assert_eq!(caps[1], 0x00);
}

#[test]
fn aptx_hd_test_capabilities_length() {
    let caps = aptx_hd::capabilities();
    assert!(caps.len() >= 6);
}

#[test]
fn test_vendor_id() {
    let caps = aptx_hd::capabilities();
    assert_eq!(caps[0], 0xD7);
    assert_eq!(caps[1], 0x00);
}

#[test]
fn ldac_test_capabilities_length() {
    assert_eq!(ldac::capabilities().len(), 6);
}

#[test]
fn test_vendor_id_sony() {
    let caps = ldac::capabilities();
    assert_eq!(caps[0], 0x2D);
    assert_eq!(caps[1], 0x01);
}

#[test]
fn sbc_selection_exact_values() {
    // 48 kHz joint stereo, 8 blocks, 4 subbands, SNR, bitpool capped at 53.
    let selected = sbc::select_configuration(&[0x11, 0x4A, 10, 80]);
    assert_eq!(selected, vec![0x11, 0x40 | 0x08 | 0x02, 10, 53]);
    // Short capabilities fall back to ours.
    assert_eq!(sbc::select_configuration(&[0x3F]), sbc::capabilities());
}

#[test]
fn aac_selection_masks_remote() {
    let selected = aac::select_configuration(&[0xFF, 0x03, 0x0C, 0x83, 0xE8, 0x00]);
    assert_eq!(selected, vec![0x80, 0x01, 0x04, 0x83, 0xE8, 0x00]);
}

#[test]
fn ldac_prefers_96k() {
    let selected = ldac::select_configuration(&[0x2D, 0x01, 0xAA, 0x00, 0x3C, 0x07]);
    assert_eq!(selected, vec![0x2D, 0x01, 0xAA, 0x00, 0x04, 0x01]);
    let selected = ldac::select_configuration(&[0x2D, 0x01, 0xAA, 0x00, 0x30, 0x07]);
    assert_eq!(selected[4], 0x10);
}

#[test]
fn aptx_hd_pads_to_remote_length() {
    let remote = [0xD7, 0x00, 0x24, 0x00, 0x10, 0x02, 0, 0, 0, 0, 0];
    let selected = aptx_hd::select_configuration(&remote);
    assert_eq!(selected.len(), remote.len());
    assert_eq!(selected[4], 0x10);
    assert_eq!(selected[5], 0x02);
}

#[test]
fn aptx_prefers_44k() {
    let selected = aptx::select_configuration(&[0x4F, 0x00, 0x01, 0x00, 0x30, 0x02]);
    assert_eq!(selected, vec![0x4F, 0x00, 0x01, 0x00, 0x20, 0x02]);
}

#[test]
fn negotiation_refuses_empty_selection() {
    // SBC with no common frequency or block setting selects nothing useful
    // but still a non-empty blob: negotiation succeeds.
    assert!(negotiate_configuration(AudioCodec::Sbc, &[0x3F, 0xFF, 2, 53]).is_ok());
    let ok = negotiate_configuration(AudioCodec::Aac, &[0x80, 0x01, 0x04, 0x83, 0xE8, 0x00]).unwrap();
    assert_eq!(ok.len(), 6);
}
