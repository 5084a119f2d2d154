use soundsync::audio::webrtc_audio::{next_packet, rtp_header, skip_frames, RtpClock};
use soundsync::bluetooth::codecs::AudioCodec;
use soundsync::bluetooth::device::DeviceState;
use soundsync::bluetooth::discovery::DeviceEvent;
use soundsync::web::ws::{device_state_data, ws_route, EventKind, WsKind};

#[test]
fn test_line_in_activated_produces_ws_message() {
    let msg = ws_route(EventKind::LineInActivated, "", "test-session");
    assert_eq!(msg, Some(WsKind::LineInChanged { active: true }));
}

#[test]
fn test_line_in_deactivated_produces_ws_message() {
    let msg = ws_route(EventKind::LineInDeactivated, "", "test-session");
    assert_eq!(msg, Some(WsKind::LineInChanged { active: false }));
}

#[test]
fn test_bluetooth_scanning_status_produces_ws_message() {
    let msg = ws_route(EventKind::BluetoothStatusChanged, "", "test-session");
    assert_eq!(msg, Some(WsKind::BluetoothStatusChanged));
}

#[test]
fn test_device_discovered_produces_ws_message() {
    let msg = ws_route(EventKind::DeviceDiscovered, "", "test-session");
    assert_eq!(msg, Some(WsKind::DeviceStateChanged));
    let data = device_state_data(&DeviceEvent::Discovered {
        address: "AA:BB:CC:DD:EE:FF".to_string(),
        name: "TestPhone".to_string(),
        rssi: Some(-50),
    })
    .unwrap();
    assert_eq!(data.address, "AA:BB:CC:DD:EE:FF");
    assert_eq!(data.name, "TestPhone");
    assert_eq!(data.state, DeviceState::Discovered);
}

#[test]
fn device_state_payloads() {
    let data = device_state_data(&DeviceEvent::StateChanged {
        address: "11:22:33:44:55:66".to_string(),
        name: "Phone".to_string(),
        state: DeviceState::Connected,
    })
    .unwrap();
    assert_eq!((data.address.as_str(), data.name.as_str()), ("11:22:33:44:55:66", "Phone"));
    assert_eq!(data.state, DeviceState::Connected);
    let data = device_state_data(&DeviceEvent::StreamStarted {
        address: "11:22:33:44:55:66".to_string(),
        codec: AudioCodec::Aac,
    })
    .unwrap();
    assert_eq!(data.address, "11:22:33:44:55:66");
    assert_eq!(data.name, "");
    assert_eq!(data.state, DeviceState::AudioActive);
    assert!(device_state_data(&DeviceEvent::Removed { address: "x".to_string() }).is_none());
    assert!(device_state_data(&DeviceEvent::StreamStopped { address: "x".to_string() }).is_none());
}

#[test]
fn rtp_header_fields() {
    let h = rtp_header(RtpClock { timestamp: 123_456, sequence: 789 });
    assert_eq!(h.version, 2);
    assert_eq!(h.payload_type, 111);
    assert_eq!(h.sequence_number, 789);
    assert_eq!(h.timestamp, 123_456);
}

#[test]
fn webrtc_events_reach_only_their_session() {
    assert_eq!(ws_route(EventKind::WebRtcAnswer, "s1", "s1"), Some(WsKind::WebrtcAnswer));
    assert_eq!(ws_route(EventKind::WebRtcAnswer, "s1", "s2"), None);
    assert_eq!(
        ws_route(EventKind::WebRtcIceCandidate, "abc", "abc"),
        Some(WsKind::WebrtcIceCandidate)
    );
    assert_eq!(ws_route(EventKind::WebRtcIceCandidate, "abc", "abd"), None);
}

#[test]
fn unforwarded_events() {
    assert_eq!(ws_route(EventKind::DeviceRemoved, "", "s"), None);
    assert_eq!(ws_route(EventKind::StreamStopped, "", "s"), None);
    assert_eq!(ws_route(EventKind::Error, "", "s"), None);
    assert_eq!(ws_route(EventKind::ServiceStopping, "", "s"), None);
    assert_eq!(ws_route(EventKind::StateSnapshot, "", "s"), None);
    assert_eq!(ws_route(EventKind::StreamStarted, "", "s"), Some(WsKind::DeviceStateChanged));
    assert_eq!(ws_route(EventKind::CastError, "x", "s"), Some(WsKind::CastError));
}

#[test]
fn rtp_clock_advances_one_frame_per_packet() {
    let c = next_packet(RtpClock { timestamp: 0, sequence: 0 });
    assert_eq!(c, RtpClock { timestamp: 960, sequence: 1 });
    let c = next_packet(RtpClock { timestamp: u32::MAX - 100, sequence: u16::MAX });
    assert_eq!(c, RtpClock { timestamp: 859, sequence: 0 });
}

#[test]
fn rtp_clock_skips_dropped_frames() {
    let c = skip_frames(RtpClock { timestamp: 1000, sequence: 7 }, 5);
    assert_eq!(c, RtpClock { timestamp: 1000 + 5 * 960, sequence: 12 });
    let c = skip_frames(RtpClock { timestamp: 5, sequence: 9 }, 0);
    assert_eq!(c, RtpClock { timestamp: 5, sequence: 9 });
    // Wrapping: 70000 frames move the sequence number by 70000 mod 65536.
    let c = skip_frames(RtpClock { timestamp: 0, sequence: 0 }, 70_000);
    assert_eq!(c, RtpClock { timestamp: 67_200_000, sequence: 4464 });
    let c = skip_frames(RtpClock { timestamp: u32::MAX, sequence: 1 }, 4_500_000);
    assert_eq!(c.timestamp, ((u32::MAX as u64 + 4_500_000u64 * 960) % (1u64 << 32)) as u32);
    assert_eq!(c.sequence, ((1u64 + 4_500_000) % 65536) as u16);
}
