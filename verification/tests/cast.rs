use soundsync::audio::cast_stream::{
    aac_pipeline_command, choose_stream_device, first_address, mp3_pipeline_command,
};
use soundsync::audio::chromecast::{
    cast_device_from_service, has_default_receiver, stream_url, CastDeviceInfo, CastDirectory,
    HeartbeatMonitor,
};
use soundsync::audio::filter_chain::{
    default_runtime_dir, filter_chain_config_path, filter_chain_launcher,
};

#[test]
fn stream_device_priority() {
    assert_eq!(
        choose_stream_device("5\tsoundsync-capture\tPipeWire\n", ""),
        "soundsync-capture.monitor"
    );
    assert_eq!(
        choose_stream_device("", "1\talsa_input.x\tPipeWire\n2\tbluez_source.AA_BB\tPipeWire\n"),
        "bluez_source.AA_BB"
    );
    assert_eq!(choose_stream_device("", ""), "@DEFAULT_MONITOR@");
}

#[test]
fn stream_pipelines() {
    assert_eq!(
        aac_pipeline_command("dev"),
        "parec --device=dev --format=s16le --rate=48000 --channels=2 --latency-msec=50 | ffmpeg -hide_banner -loglevel quiet -fflags +nobuffer -f s16le -ar 48000 -ac 2 -i pipe:0 -c:a aac -b:a 256k -f adts -flush_packets 1 pipe:1"
    );
    assert!(mp3_pipeline_command("dev").contains("-c:a libmp3lame -b:a 192k -f mp3"));
    assert_eq!(first_address(" 192.168.1.5 fe80::1\n"), Some("192.168.1.5".to_string()));
    assert_eq!(first_address("\n"), None);
}

#[test]
fn cast_device_fallbacks() {
    let d = cast_device_from_service(
        Some("192.168.1.9".into()),
        8009,
        "Chromecast-abc._googlecast._tcp.local.",
        None,
        None,
        None,
    )
    .unwrap();
    assert_eq!(d.id, "192.168.1.9:8009");
    assert_eq!(d.name, "Chromecast-abc._googlecast._tcp.local.");
    assert_eq!(d.model, "Chromecast");
    let d = cast_device_from_service(
        Some("192.168.1.9".into()),
        8009,
        "x",
        Some("Living Room TV".into()),
        Some("Chromecast Ultra".into()),
        Some("abc123".into()),
    )
    .unwrap();
    assert_eq!(d.id, "abc123");
    assert_eq!(d.name, "Living Room TV");
    assert_eq!(d.model, "Chromecast Ultra");
    assert!(cast_device_from_service(None, 8009, "x", None, None, None).is_none());
}

#[test]
fn cast_stream_url_and_receiver() {
    assert_eq!(
        stream_url("192.168.1.5", 8080),
        "http://192.168.1.5:8080/api/stream/audio.mp3"
    );
    assert!(has_default_receiver(&["E8C28D3C".to_string(), "CC1AD845".to_string()]));
    assert!(!has_default_receiver(&["E8C28D3C".to_string()]));
}

#[test]
fn heartbeat_lost_after_three_failures() {
    let mut hb = HeartbeatMonitor::new();
    assert!(!hb.record(false));
    assert!(!hb.record(false));
    assert!(!hb.record(true));
    assert!(!hb.record(false));
    assert!(!hb.record(false));
    assert!(hb.record(false));
}

fn cast(id: &str, name: &str) -> CastDeviceInfo {
    CastDeviceInfo {
        id: id.to_string(),
        name: name.to_string(),
        address: "10.0.0.1".to_string(),
        port: 8009,
        model: "Chromecast".to_string(),
    }
}

#[test]
fn cast_directory_operations() {
    let mut dir = CastDirectory::new();
    dir.insert(cast("a1", "Kitchen"));
    dir.insert(cast("b2", "Den"));
    dir.insert(cast("a1", "Kitchen Speaker"));
    assert_eq!(dir.devices().len(), 2);
    assert_eq!(dir.get("a1").unwrap().name, "Kitchen Speaker");
    assert_eq!(dir.connect_target("zz").unwrap_err(), "Device not found: zz");
    assert_eq!(dir.remove_matching("Den._googlecast._tcp.local."), Some("b2".to_string()));
    assert_eq!(dir.remove_matching("Nothing._googlecast._tcp.local."), None);
    assert_eq!(dir.devices().len(), 1);
}

#[test]
fn filter_chain_program_choice() {
    assert_eq!(
        filter_chain_launcher(true, true),
        Ok(("pipewire-filter-chain", "--config"))
    );
    assert_eq!(filter_chain_launcher(false, true), Ok(("pipewire", "-c")));
    assert_eq!(
        filter_chain_launcher(false, false),
        Err("Neither pipewire-filter-chain nor pipewire found in PATH".to_string())
    );
    assert_eq!(default_runtime_dir(1000), "/run/user/1000");
    assert_eq!(
        filter_chain_config_path("/run/user/1000"),
        "/run/user/1000/soundsync/filter-chain.conf"
    );
}
