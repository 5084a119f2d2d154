use soundsync::bluetooth::constants::{A2DP_SINK_UUID, A2DP_SOURCE_UUID};
use soundsync::bluetooth::device::{
    classify_device, has_a2dp_source_uuid, has_classic_uuid, is_a2dp_source_uuid, is_classic_uuid,
    DeviceInfo, DeviceKind, DeviceState,
};

#[test]
fn test_valid_transitions() {
    let mut state = DeviceState::Disconnected;
    assert!(state.transition(DeviceState::Discovered).is_ok());
    assert!(state.transition(DeviceState::Pairing).is_ok());
    assert!(state.transition(DeviceState::Paired).is_ok());
    assert!(state.transition(DeviceState::Connected).is_ok());
    assert!(state.transition(DeviceState::ProfileNegotiated).is_ok());
    assert!(state.transition(DeviceState::PipewireSourceReady).is_ok());
    assert!(state.transition(DeviceState::AudioActive).is_ok());
}

#[test]
fn test_invalid_transitions() {
    let mut state = DeviceState::Disconnected;
    assert!(state.transition(DeviceState::AudioActive).is_err());
    assert!(state.transition(DeviceState::Connected).is_err());
}

#[test]
fn test_disconnect_from_any_active() {
    let mut state = DeviceState::AudioActive;
    assert!(state.transition(DeviceState::Disconnected).is_ok());
    assert_eq!(state, DeviceState::Disconnected);
}

#[test]
fn test_discovered_to_connected_shortcut() {
    let mut state = DeviceState::Discovered;
    assert!(state.transition(DeviceState::Connected).is_ok());
}

#[test]
fn test_device_info_new() {
    let dev = DeviceInfo::new("AA:BB:CC:DD:EE:FF".into(), "TestPhone".into(), 1_700_000_000_000);
    assert_eq!(dev.state, DeviceState::Discovered);
    assert!(!dev.trusted);
    assert!(!dev.has_a2dp);
    assert!(dev.codec.is_none());
    assert_eq!(dev.device_type, DeviceKind::Classic);
    assert!(!dev.is_a2dp_source);
}

#[test]
fn test_classify_with_class_of_device() {
    let kind = classify_device(Some("random"), Some(0x240404), &[], true);
    assert_eq!(kind, DeviceKind::Classic);
}

#[test]
fn test_classify_with_classic_uuid() {
    let uuids = vec![A2DP_SINK_UUID.to_string()];
    let kind = classify_device(Some("public"), None, &uuids, false);
    assert_eq!(kind, DeviceKind::Classic);
}

#[test]
fn test_classify_random_address_is_ble() {
    let kind = classify_device(Some("random"), None, &[], false);
    assert_eq!(kind, DeviceKind::Ble);
}

#[test]
fn test_classify_appearance_is_ble() {
    let kind = classify_device(Some("public"), None, &[], true);
    assert_eq!(kind, DeviceKind::Ble);
}

#[test]
fn test_classify_unknown_defaults_to_classic() {
    let kind = classify_device(None, None, &[], false);
    assert_eq!(kind, DeviceKind::Classic);
}

#[test]
fn test_has_a2dp_source_uuid() {
    assert!(has_a2dp_source_uuid(&[A2DP_SOURCE_UUID.to_string()]));
    assert!(has_a2dp_source_uuid(&[A2DP_SOURCE_UUID.to_uppercase()]));
    assert!(!has_a2dp_source_uuid(&[A2DP_SINK_UUID.to_string()]));
    assert!(!has_a2dp_source_uuid(&[]));
}

#[test]
fn test_has_classic_uuid() {
    assert!(has_classic_uuid(&[A2DP_SINK_UUID.to_string()]));
    assert!(has_classic_uuid(&[A2DP_SOURCE_UUID.to_string()]));
    assert!(has_classic_uuid(&[
        "0000111e-0000-1000-8000-00805f9b34fb".to_string()
    ]));
    assert!(!has_classic_uuid(&[
        "0000180d-0000-1000-8000-00805f9b34fb".to_string()
    ]));
}

#[test]
fn uppercase_classic_uuid_still_classic() {
    // Lowercasing happens before the comparison.
    assert!(has_classic_uuid(&[A2DP_SINK_UUID.to_uppercase()]));
}

#[test]
fn transition_error_names_both_states() {
    let mut state = DeviceState::Disconnected;
    let err = state.transition(DeviceState::AudioActive).unwrap_err();
    assert_eq!(
        err,
        "Invalid device state transition: Disconnected → AudioActive"
    );
    assert_eq!(state, DeviceState::Disconnected);
}

#[test]
fn disconnect_allowed_from_every_state_but_disconnected() {
    for s in [
        DeviceState::Discovered,
        DeviceState::Pairing,
        DeviceState::Paired,
        DeviceState::Connected,
        DeviceState::ProfileNegotiated,
        DeviceState::PipewireSourceReady,
        DeviceState::AudioActive,
    ] {
        assert!(s.can_transition_to(&DeviceState::Disconnected));
    }
    assert!(!DeviceState::Disconnected.can_transition_to(&DeviceState::Disconnected));
}

#[test]
fn device_info_new_records_the_given_time() {
    let dev = DeviceInfo::new("AA:BB:CC:DD:EE:FF".into(), "TestPhone".into(), 42);
    assert_eq!(dev.last_seen, 42);
    assert_eq!(dev.address, "AA:BB:CC:DD:EE:FF");
    assert_eq!(dev.name, "TestPhone");
}

#[test]
fn lowercased_uuid_checks() {
    assert!(is_classic_uuid("0000110b-0000-1000-8000-00805f9b34fb"));
    assert!(is_classic_uuid("00001101-0000-1000-8000-00805f9b34fb"));
    // The check takes a UUID that is already lowercased.
    assert!(!is_classic_uuid("0000110B-0000-1000-8000-00805F9B34FB"));
    assert!(!is_classic_uuid("0000180f-0000-1000-8000-00805f9b34fb"));
    assert!(is_a2dp_source_uuid("0000110a-0000-1000-8000-00805f9b34fb"));
    assert!(!is_a2dp_source_uuid("0000110b-0000-1000-8000-00805f9b34fb"));
    assert!(!is_a2dp_source_uuid(""));
}
