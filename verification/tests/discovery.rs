use soundsync::bluetooth::codecs::AudioCodec;
use soundsync::bluetooth::constants::{A2DP_SINK_UUID, A2DP_SOURCE_UUID};
use soundsync::bluetooth::device::{DeviceKind, DeviceState};
use soundsync::bluetooth::discovery::{
    has_a2dp_uuid, is_a2dp_uuid, is_bluetooth_audio_node, is_mac_address, DeviceEvent,
    DeviceRegistry, DiscoverySignals,
};

#[test]
fn test_has_a2dp_uuid() {
    assert!(has_a2dp_uuid(&[A2DP_SINK_UUID.to_string()]));
    assert!(has_a2dp_uuid(&[A2DP_SOURCE_UUID.to_string()]));
    assert!(has_a2dp_uuid(&[A2DP_SINK_UUID.to_uppercase()]));
    assert!(!has_a2dp_uuid(&[
        "00001101-0000-1000-8000-00805f9b34fb".to_string()
    ]));
    assert!(!has_a2dp_uuid(&[]));
}

#[test]
fn test_is_mac_address() {
    assert!(is_mac_address("AA:BB:CC:DD:EE:FF"));
    assert!(is_mac_address("7C:24:37:AF:9E:DF"));
    assert!(is_mac_address("AA-BB-CC-DD-EE-FF"));
    assert!(is_mac_address("7C-24-37-AF-9E-DF"));
    assert!(!is_mac_address("iPhone"));
    assert!(!is_mac_address("Living Room Speaker"));
    assert!(!is_mac_address(""));
    assert!(!is_mac_address("ZZ:ZZ:ZZ:ZZ:ZZ:ZZ"));
}

#[test]
fn test_is_bluetooth_audio_node() {
    assert!(is_bluetooth_audio_node(
        "bluez_input.AA_BB_CC_DD_EE_FF.a2dp_sink"
    ));
    assert!(is_bluetooth_audio_node("bluez_source.something"));
    assert!(is_bluetooth_audio_node("api.bluez5.something"));
    assert!(!is_bluetooth_audio_node("alsa_input.something"));
    assert!(!is_bluetooth_audio_node(""));
}

fn discover(
    reg: &mut DeviceRegistry,
    address: &str,
    name: &str,
    rssi: Option<i16>,
    uuids: Vec<String>,
    signals: DiscoverySignals,
) -> DeviceEvent {
    reg.handle_device_discovered(
        address.to_string(),
        name.to_string(),
        rssi,
        &uuids,
        &signals,
        1_700_000_000_000,
    )
}

#[test]
fn test_handle_device_discovered() {
    let mut reg = DeviceRegistry::new();
    let event = discover(
        &mut reg,
        "AA:BB:CC:DD:EE:FF",
        "TestPhone",
        Some(-50),
        vec![A2DP_SINK_UUID.to_string()],
        DiscoverySignals::default(),
    );
    let dev = reg.get("AA:BB:CC:DD:EE:FF").unwrap();
    assert!(dev.has_a2dp);
    assert_eq!(dev.rssi, Some(-50));
    assert_eq!(dev.device_type, DeviceKind::Classic);
    assert!(matches!(event, DeviceEvent::Discovered { .. }));
}

#[test]
fn test_handle_device_discovered_ble() {
    let mut reg = DeviceRegistry::new();
    discover(
        &mut reg,
        "BB:BB:BB:BB:BB:BB",
        "FitnessTracker",
        Some(-70),
        vec![],
        DiscoverySignals {
            address_type: Some("random".into()),
            class_of_device: None,
            has_appearance: true,
        },
    );
    let dev = reg.get("BB:BB:BB:BB:BB:BB").unwrap();
    assert_eq!(dev.device_type, DeviceKind::Ble);
    assert!(!dev.is_a2dp_source);
}

#[test]
fn test_handle_device_discovered_a2dp_source_flag() {
    let mut reg = DeviceRegistry::new();
    discover(
        &mut reg,
        "CC:CC:CC:CC:CC:CC",
        "Phone",
        None,
        vec![A2DP_SOURCE_UUID.to_string()],
        DiscoverySignals::default(),
    );
    let dev = reg.get("CC:CC:CC:CC:CC:CC").unwrap();
    assert!(dev.is_a2dp_source);
    assert_eq!(dev.device_type, DeviceKind::Classic);
}

#[test]
fn test_ble_upgrades_to_classic_on_rescan() {
    let mut reg = DeviceRegistry::new();
    // First scan: empty — classified as BLE (default).
    discover(&mut reg, "EE:EE:EE:EE:EE:EE", "Phone", None, vec![], DiscoverySignals::default());
    assert_eq!(reg.get("EE:EE:EE:EE:EE:EE").unwrap().device_type, DeviceKind::Ble);
    // Second scan: UUIDs now resolved — upgrade to Classic.
    discover(
        &mut reg,
        "EE:EE:EE:EE:EE:EE",
        "Phone",
        None,
        vec![A2DP_SOURCE_UUID.to_string()],
        DiscoverySignals::default(),
    );
    let dev = reg.get("EE:EE:EE:EE:EE:EE").unwrap();
    assert_eq!(dev.device_type, DeviceKind::Classic);
    assert!(dev.is_a2dp_source);
}

#[test]
fn test_classification_does_not_downgrade_classic_to_ble() {
    let mut reg = DeviceRegistry::new();
    discover(
        &mut reg,
        "DD:DD:DD:DD:DD:DD",
        "Speaker",
        None,
        vec![A2DP_SINK_UUID.to_string()],
        DiscoverySignals::default(),
    );
    discover(
        &mut reg,
        "DD:DD:DD:DD:DD:DD",
        "Speaker",
        None,
        vec![],
        DiscoverySignals {
            address_type: Some("random".into()),
            class_of_device: None,
            has_appearance: false,
        },
    );
    assert_eq!(reg.get("DD:DD:DD:DD:DD:DD").unwrap().device_type, DeviceKind::Classic);
}

#[test]
fn test_update_device_state() {
    let mut reg = DeviceRegistry::new();
    discover(&mut reg, "AA:BB:CC:DD:EE:FF", "Test", None, vec![], DiscoverySignals::default());
    let event = reg.update_device_state("AA:BB:CC:DD:EE:FF", DeviceState::Connected);
    assert!(matches!(event, Some(DeviceEvent::StateChanged { .. })));
    assert_eq!(reg.get("AA:BB:CC:DD:EE:FF").unwrap().state, DeviceState::Connected);
}

#[test]
fn test_empty_name_does_not_overwrite_existing() {
    let mut reg = DeviceRegistry::new();
    discover(&mut reg, "AA:BB:CC:DD:EE:FF", "MyPhone", Some(-40), vec![], DiscoverySignals::default());
    discover(&mut reg, "AA:BB:CC:DD:EE:FF", "", Some(-50), vec![], DiscoverySignals::default());
    let dev = reg.get("AA:BB:CC:DD:EE:FF").unwrap();
    assert_eq!(dev.name, "MyPhone");
    assert_eq!(dev.rssi, Some(-50));
}

#[test]
fn test_discovered_event_sends_resolved_name() {
    let mut reg = DeviceRegistry::new();
    discover(&mut reg, "AA:BB:CC:DD:EE:FF", "Speaker", None, vec![], DiscoverySignals::default());
    let event = discover(&mut reg, "AA:BB:CC:DD:EE:FF", "", None, vec![], DiscoverySignals::default());
    match event {
        DeviceEvent::Discovered { name, .. } => assert_eq!(name, "Speaker"),
        _ => panic!("Expected a Discovered event"),
    }
}

#[test]
fn test_update_device_name() {
    let mut reg = DeviceRegistry::new();
    discover(&mut reg, "AA:BB:CC:DD:EE:FF", "", None, vec![], DiscoverySignals::default());
    let event = reg.update_device_name("AA:BB:CC:DD:EE:FF", "Living Room Speaker".into());
    assert_eq!(reg.get("AA:BB:CC:DD:EE:FF").unwrap().name, "Living Room Speaker");
    match event {
        Some(DeviceEvent::StateChanged { name, .. }) => assert_eq!(name, "Living Room Speaker"),
        _ => panic!("Expected a StateChanged event"),
    }
}

#[test]
fn test_update_device_name_rejects_empty_and_mac() {
    let mut reg = DeviceRegistry::new();
    discover(&mut reg, "AA:BB:CC:DD:EE:FF", "MyPhone", None, vec![], DiscoverySignals::default());
    assert!(reg.update_device_name("AA:BB:CC:DD:EE:FF", "".into()).is_none());
    assert!(reg.update_device_name("AA:BB:CC:DD:EE:FF", "AA-BB-CC-DD-EE-FF".into()).is_none());
    assert!(reg.update_device_name("AA:BB:CC:DD:EE:FF", "AA:BB:CC:DD:EE:FF".into()).is_none());
    assert_eq!(reg.get("AA:BB:CC:DD:EE:FF").unwrap().name, "MyPhone");
}

#[test]
fn registry_keeps_one_entry_per_address() {
    let mut reg = DeviceRegistry::new();
    discover(&mut reg, "AA:BB:CC:DD:EE:FF", "A", None, vec![], DiscoverySignals::default());
    discover(&mut reg, "AA:BB:CC:DD:EE:FF", "B", None, vec![], DiscoverySignals::default());
    discover(&mut reg, "11:22:33:44:55:66", "C", None, vec![], DiscoverySignals::default());
    assert_eq!(reg.len(), 2);
}

#[test]
fn stream_start_and_stop_track_active_device() {
    let mut reg = DeviceRegistry::new();
    discover(&mut reg, "AA:BB:CC:DD:EE:FF", "Phone", None, vec![], DiscoverySignals::default());
    reg.update_device_state("AA:BB:CC:DD:EE:FF", DeviceState::Connected);
    let ev = reg.stream_started("AA:BB:CC:DD:EE:FF", AudioCodec::Aac);
    assert!(matches!(ev, DeviceEvent::StreamStarted { .. }));
    assert_eq!(reg.active_device(), Some("AA:BB:CC:DD:EE:FF".to_string()));
    assert_eq!(reg.get("AA:BB:CC:DD:EE:FF").unwrap().state, DeviceState::AudioActive);
    assert_eq!(reg.get("AA:BB:CC:DD:EE:FF").unwrap().codec, Some(AudioCodec::Aac));
    assert!(reg.has_active_audio_stream());
    reg.stream_stopped("AA:BB:CC:DD:EE:FF");
    assert_eq!(reg.active_device(), None);
    assert_eq!(reg.get("AA:BB:CC:DD:EE:FF").unwrap().state, DeviceState::Connected);
    assert!(!reg.has_active_audio_stream());
}

#[test]
fn removing_active_device_clears_it() {
    let mut reg = DeviceRegistry::new();
    discover(&mut reg, "AA:BB:CC:DD:EE:FF", "Phone", None, vec![], DiscoverySignals::default());
    reg.update_device_state("AA:BB:CC:DD:EE:FF", DeviceState::AudioActive);
    assert_eq!(reg.active_device(), Some("AA:BB:CC:DD:EE:FF".to_string()));
    let ev = reg.remove_device("AA:BB:CC:DD:EE:FF");
    assert!(matches!(ev, Some(DeviceEvent::Removed { .. })));
    assert!(reg.get("AA:BB:CC:DD:EE:FF").is_none());
    assert_eq!(reg.active_device(), None);
    assert!(reg.remove_device("AA:BB:CC:DD:EE:FF").is_none());
}

#[test]
fn player_address_falls_back_to_connected_device() {
    let mut reg = DeviceRegistry::new();
    assert_eq!(reg.player_address(), None);
    discover(&mut reg, "AA:BB:CC:DD:EE:FF", "Phone", None, vec![], DiscoverySignals::default());
    discover(&mut reg, "11:22:33:44:55:66", "Tablet", None, vec![], DiscoverySignals::default());
    reg.update_device_state("11:22:33:44:55:66", DeviceState::Connected);
    assert_eq!(reg.player_address(), Some("11:22:33:44:55:66".to_string()));
    assert!(reg.has_connected_device());
}

#[test]
fn unresolved_addresses_lists_unnamed_devices() {
    let mut reg = DeviceRegistry::new();
    discover(&mut reg, "AA:BB:CC:DD:EE:FF", "", None, vec![], DiscoverySignals::default());
    discover(&mut reg, "11:22:33:44:55:66", "Tablet", None, vec![], DiscoverySignals::default());
    discover(&mut reg, "22:22:22:22:22:22", "22-22-22-22-22-22", None, vec![], DiscoverySignals::default());
    assert_eq!(
        reg.unresolved_addresses(),
        vec!["AA:BB:CC:DD:EE:FF".to_string(), "22:22:22:22:22:22".to_string()]
    );
}

#[test]
fn refresh_only_upgrades_classification() {
    let mut reg = DeviceRegistry::new();
    let random = DiscoverySignals {
        address_type: Some("random".into()),
        class_of_device: None,
        has_appearance: false,
    };
    discover(&mut reg, "AA:BB:CC:DD:EE:FF", "Band", None, vec![], random.clone());
    assert_eq!(reg.get("AA:BB:CC:DD:EE:FF").unwrap().device_type, DeviceKind::Ble);
    reg.refresh_classification("AA:BB:CC:DD:EE:FF", &[], &random);
    assert_eq!(reg.get("AA:BB:CC:DD:EE:FF").unwrap().device_type, DeviceKind::Ble);
    reg.refresh_classification(
        "AA:BB:CC:DD:EE:FF",
        &[A2DP_SOURCE_UUID.to_string()],
        &DiscoverySignals::default(),
    );
    let dev = reg.get("AA:BB:CC:DD:EE:FF").unwrap();
    assert_eq!(dev.device_type, DeviceKind::Classic);
    assert!(dev.is_a2dp_source);
    reg.refresh_classification("AA:BB:CC:DD:EE:FF", &[], &random);
    assert_eq!(reg.get("AA:BB:CC:DD:EE:FF").unwrap().device_type, DeviceKind::Classic);
}

#[test]
fn lowercased_a2dp_uuid_check() {
    assert!(is_a2dp_uuid(A2DP_SINK_UUID));
    assert!(is_a2dp_uuid(A2DP_SOURCE_UUID));
    assert!(!is_a2dp_uuid(&A2DP_SINK_UUID.to_uppercase()));
    assert!(!is_a2dp_uuid("00001101-0000-1000-8000-00805f9b34fb"));
}

#[test]
fn fresh_device_fields_and_time() {
    let mut reg = DeviceRegistry::new();
    let uuids = vec![A2DP_SINK_UUID.to_string()];
    reg.handle_device_discovered(
        "AA:BB:CC:DD:EE:FF".to_string(),
        "Speaker".to_string(),
        Some(-40),
        &uuids,
        &DiscoverySignals::default(),
        1000,
    );
    let dev = reg.get("AA:BB:CC:DD:EE:FF").unwrap();
    assert_eq!(dev.last_seen, 1000);
    assert!(!dev.trusted);
    assert!(dev.codec.is_none());
    assert!(dev.pipewire_node.is_none());
    assert_eq!(dev.state, DeviceState::Discovered);
    reg.handle_device_discovered(
        "AA:BB:CC:DD:EE:FF".to_string(),
        String::new(),
        None,
        &[],
        &DiscoverySignals::default(),
        2000,
    );
    let dev = reg.get("AA:BB:CC:DD:EE:FF").unwrap();
    assert_eq!(dev.last_seen, 2000);
    assert_eq!(dev.name, "Speaker");
    assert_eq!(dev.device_type, DeviceKind::Classic);
}

#[test]
fn class_of_device_makes_a_fresh_device_classic() {
    let mut reg = DeviceRegistry::new();
    discover(
        &mut reg,
        "AB:AB:AB:AB:AB:AB",
        "Headset",
        None,
        vec![],
        DiscoverySignals {
            address_type: Some("random".into()),
            class_of_device: Some(0x240404),
            has_appearance: true,
        },
    );
    assert_eq!(reg.get("AB:AB:AB:AB:AB:AB").unwrap().device_type, DeviceKind::Classic);
}
