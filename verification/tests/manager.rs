use soundsync::bluetooth::agent::SoundSyncAgent;
use soundsync::bluetooth::avrcp::{
    artwork_mime, parse_track_info, player_path, poll_interval_ms, track_changed, AvrcpCommand,
    PlayerTracker, TrackFields,
};
use soundsync::bluetooth::device::DeviceState;
use soundsync::bluetooth::manager::{
    alias_replaces_name, audio_source_update, discovered_name, extract_address_from_bt_source,
    poll_state_update, resolved_hcitool_name, BluetoothCommand, ManagerEvent, ScanControl,
};
use soundsync::state::{BluetoothStatus, PlaybackStatus};

#[test]
fn scan_starts_only_after_discovery_started() {
    let mut scan = ScanControl::new();
    let a = scan.step(ManagerEvent::Command(BluetoothCommand::StartScan));
    assert!(a.start_discovery);
    assert!(!scan.is_scanning());
    let a = scan.step(ManagerEvent::DiscoveryStarted);
    assert_eq!(a.status, Some(BluetoothStatus::Scanning));
    assert!(scan.is_scanning());
    // A second StartScan only refreshes the status.
    let a = scan.step(ManagerEvent::Command(BluetoothCommand::StartScan));
    assert!(!a.start_discovery);
    assert_eq!(a.status, Some(BluetoothStatus::Scanning));
}

#[test]
fn scan_failure_reports_error() {
    let mut scan = ScanControl::new();
    scan.step(ManagerEvent::Command(BluetoothCommand::StartScan));
    let a = scan.step(ManagerEvent::DiscoveryFailed { message: "Operation already in progress".into() });
    assert_eq!(
        a.status,
        Some(BluetoothStatus::Error("Discovery failed: Operation already in progress".into()))
    );
    assert!(!scan.is_scanning());
}

#[test]
fn audio_stream_stops_scan() {
    let mut scan = ScanControl::new();
    scan.step(ManagerEvent::DiscoveryStarted);
    let a = scan.step(ManagerEvent::Polled { audio_active: false });
    assert!(!a.stop_discovery && a.status.is_none());
    assert!(scan.is_scanning());
    let a = scan.step(ManagerEvent::Polled { audio_active: true });
    assert!(a.stop_discovery);
    assert_eq!(a.status, Some(BluetoothStatus::Ready));
    assert!(!scan.is_scanning());
}

#[test]
fn stop_scan_and_stream_end() {
    let mut scan = ScanControl::new();
    let a = scan.step(ManagerEvent::Command(BluetoothCommand::StopScan));
    assert!(!a.stop_discovery);
    assert_eq!(a.status, Some(BluetoothStatus::Ready));
    scan.step(ManagerEvent::DiscoveryStarted);
    let a = scan.step(ManagerEvent::Command(BluetoothCommand::StopScan));
    assert!(a.stop_discovery);
    scan.step(ManagerEvent::DiscoveryStarted);
    let a = scan.step(ManagerEvent::DiscoveryEnded);
    assert!(a.stop_discovery);
    assert!(!scan.is_scanning());
    let a = scan.step(ManagerEvent::Command(BluetoothCommand::Connect { address: "A".into() }));
    assert!(matches!(a.command, Some(BluetoothCommand::Connect { .. })));
    let a = scan.step(ManagerEvent::ChannelClosed);
    assert!(a.shutdown);
}

#[test]
fn poll_updates() {
    assert_eq!(poll_state_update(true, DeviceState::Discovered), Some(DeviceState::Connected));
    assert_eq!(poll_state_update(true, DeviceState::Connected), None);
    assert_eq!(poll_state_update(false, DeviceState::AudioActive), Some(DeviceState::Disconnected));
    assert_eq!(poll_state_update(false, DeviceState::Discovered), None);
    assert_eq!(poll_state_update(false, DeviceState::Disconnected), None);
    assert_eq!(audio_source_update(DeviceState::Connected), Some(DeviceState::AudioActive));
    assert_eq!(audio_source_update(DeviceState::Discovered), None);
}

#[test]
fn names_from_bluez_and_hcitool() {
    assert_eq!(discovered_name("AA-BB-CC-DD-EE-FF".into()), "");
    assert_eq!(discovered_name("Phone".into()), "Phone");
    assert!(alias_replaces_name("Phone", ""));
    assert!(!alias_replaces_name("Phone", "Phone"));
    assert!(!alias_replaces_name("", "Phone"));
    assert_eq!(resolved_hcitool_name("  JBL Flip 5\n"), Some("JBL Flip 5".to_string()));
    assert_eq!(resolved_hcitool_name("\n"), None);
    assert_eq!(resolved_hcitool_name("AA:BB:CC:DD:EE:FF"), None);
}

#[test]
fn address_from_bt_source() {
    assert_eq!(
        extract_address_from_bt_source("bluez_input.44_4A_DB_B4_E7_0D"),
        Some("44:4A:DB:B4:E7:0D".to_string())
    );
    assert_eq!(
        extract_address_from_bt_source("bluez_source.44_4A_DB_B4_E7_0D.a2dp_source"),
        Some("44:4A:DB:B4:E7:0D".to_string())
    );
    assert_eq!(extract_address_from_bt_source("bluez_input.44_4A"), None);
    assert_eq!(extract_address_from_bt_source("alsa_input.44_4A_DB_B4_E7_0D"), None);
}

#[test]
fn test_parse_track_info_empty() {
    let fields = TrackFields { title: None, artist: None, album: None, duration: None, track_number: None };
    assert!(parse_track_info(fields).is_none());
}

#[test]
fn track_info_defaults_and_changes() {
    let t = parse_track_info(TrackFields {
        title: Some("Song".into()),
        artist: None,
        album: Some("Album".into()),
        duration: Some(180000),
        track_number: Some(3),
    })
    .unwrap();
    assert_eq!(t.title, "Song");
    assert_eq!(t.artist, "");
    assert_eq!(t.album, "Album");
    assert_eq!(t.duration_ms, 180000);
    assert_eq!(t.position_ms, 0);
    assert_eq!(t.track_number, Some(3));
    assert!(t.artwork_url.is_none());
    let empty_title = TrackFields {
        title: Some(String::new()),
        artist: Some("A".into()),
        album: None,
        duration: None,
        track_number: None,
    };
    assert!(parse_track_info(empty_title).is_none());
    let mut other = t.clone();
    other.album = "Other".into();
    assert!(!track_changed(&Some(t.clone()), &Some(other)));
    let mut other = t.clone();
    other.artist = "B".into();
    assert!(track_changed(&Some(t.clone()), &Some(other)));
    assert!(track_changed(&None, &Some(t.clone())));
    assert!(!track_changed(&None, &None));
}

#[test]
fn player_tracker_announces_changes() {
    let mut tracker = PlayerTracker::new();
    assert!(tracker.observe_status(PlaybackStatus::Playing));
    assert!(!tracker.observe_status(PlaybackStatus::Playing));
    let t = parse_track_info(TrackFields {
        title: Some("Song".into()),
        artist: Some("Artist".into()),
        album: None,
        duration: None,
        track_number: None,
    });
    assert!(tracker.track_is_new(&t));
    let announced = tracker.announce(t.clone(), true).unwrap();
    assert_eq!(announced.artwork_url, Some("/api/artwork".to_string()));
    assert!(!tracker.track_is_new(&t));
}

#[test]
fn avrcp_details() {
    assert_eq!(AvrcpCommand::Previous.method(), "Previous");
    assert_eq!(AvrcpCommand::Play.method(), "Play");
    assert_eq!(poll_interval_ms(true), 250);
    assert_eq!(poll_interval_ms(false), 2000);
    assert_eq!(
        player_path("hci0", "AA:BB:CC:DD:EE:FF"),
        "/org/bluez/hci0/dev_AA_BB_CC_DD_EE_FF/player0"
    );
    assert_eq!(artwork_mime("/tmp/cover.png"), "image/png");
    assert_eq!(artwork_mime("/tmp/cover.jpg"), "image/jpeg");
    assert_eq!(artwork_mime("png"), "image/jpeg");
}

#[test]
fn agent_follows_auto_pair() {
    let on = SoundSyncAgent { auto_pair: true };
    let off = SoundSyncAgent { auto_pair: false };
    assert!(on.request_confirmation(123456).is_ok());
    assert_eq!(off.request_confirmation(123456), Err("Auto-pair disabled".to_string()));
    assert_eq!(off.request_authorization(), Err("Auto-pair disabled".to_string()));
    assert!(off.authorize_service("0000110b-0000-1000-8000-00805f9b34fb").is_ok());
    assert_eq!(on.request_pin_code(), "0000");
    assert_eq!(on.request_passkey(), 0);
}

#[test]
fn reported_status_is_scanning_exactly_while_discovery_runs() {
    let mut scan = ScanControl::new();
    let mut status = BluetoothStatus::Unavailable;
    let events = vec![
        ManagerEvent::Command(BluetoothCommand::StartScan),
        ManagerEvent::DiscoveryFailed { message: "busy".into() },
        ManagerEvent::Command(BluetoothCommand::StartScan),
        ManagerEvent::DiscoveryStarted,
        ManagerEvent::DiscoveryFailed { message: "stale".into() },
        ManagerEvent::Command(BluetoothCommand::StartScan),
        ManagerEvent::Polled { audio_active: false },
        ManagerEvent::Command(BluetoothCommand::ResolveNames),
        ManagerEvent::Polled { audio_active: true },
        ManagerEvent::Command(BluetoothCommand::StartScan),
        ManagerEvent::DiscoveryStarted,
        ManagerEvent::DiscoveryEnded,
        ManagerEvent::Command(BluetoothCommand::StartScan),
        ManagerEvent::DiscoveryStarted,
        ManagerEvent::Command(BluetoothCommand::StopScan),
    ];
    for event in events {
        let a = scan.step(event);
        if let Some(s) = a.status {
            status = s;
        }
        assert_eq!(status == BluetoothStatus::Scanning, scan.is_scanning());
    }
}

#[test]
fn failure_report_while_scanning_is_ignored() {
    let mut scan = ScanControl::new();
    scan.step(ManagerEvent::DiscoveryStarted);
    let a = scan.step(ManagerEvent::DiscoveryFailed { message: "late".into() });
    assert!(a.status.is_none());
    assert!(!a.start_discovery && !a.stop_discovery && a.command.is_none() && !a.shutdown);
    assert!(scan.is_scanning());
}
