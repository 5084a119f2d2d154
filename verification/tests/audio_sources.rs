use soundsync::audio::capture::{
    build_capture_command, choose_capture_source, extract_json_string_value,
    find_bt_name_in_listing, find_bt_source_in_dump, is_bt_source_name, CaptureSource,
};
use soundsync::audio::line_in::{
    activation_source, line_in_status, loopback_args, loopback_outcome, parse_line_in_source,
};

#[test]
fn test_parse_line_in_source_found() {
    let output = "1\talsa_input.pci-0000_00_1f.3.analog-stereo\tPipeWire\tfloat32le 2ch 48000Hz\tIDLE\n\
                   2\talsa_output.pci-0000_00_1f.3.analog-stereo.monitor\tPipeWire\tfloat32le 2ch 48000Hz\tRUNNING\n";
    let source = parse_line_in_source(output);
    assert_eq!(
        source,
        Some("alsa_input.pci-0000_00_1f.3.analog-stereo".to_string())
    );
}

#[test]
fn test_parse_line_in_source_not_found() {
    let output = "1\tsoundsync-capture.monitor\tPipeWire\tfloat32le 2ch 48000Hz\tIDLE\n";
    assert!(parse_line_in_source(output).is_none());
}

#[test]
fn test_parse_line_in_empty() {
    assert!(parse_line_in_source("").is_none());
}

#[test]
fn test_parse_line_in_usb() {
    let output = "3\talsa_input.usb-Generic_USB_Audio-00.analog-stereo\tPipeWire\tfloat32le 2ch 48000Hz\tIDLE\n";
    let source = parse_line_in_source(output);
    assert!(source.is_some());
    assert!(source.unwrap().contains("usb"));
}

#[test]
fn line_in_loopback_and_status() {
    assert_eq!(
        loopback_args("alsa_input.usb", "soundsync-capture"),
        vec![
            "load-module",
            "module-loopback",
            "source=alsa_input.usb",
            "sink=soundsync-capture",
            "latency_msec=20",
            "source_dont_move=true",
            "sink_dont_move=true",
        ]
    );
    assert_eq!(loopback_outcome(true, " 536870913\n", ""), Ok(536870913));
    assert_eq!(
        loopback_outcome(true, "oops", ""),
        Err("Failed to parse module ID".to_string())
    );
    assert_eq!(
        loopback_outcome(false, "", "Failure: No such entity"),
        Err("Failed to load loopback module: Failure: No such entity".to_string())
    );
    assert_eq!(
        activation_source(None),
        Err("No line-in source available".to_string())
    );
    assert_eq!(activation_source(Some("x".to_string())), Ok("x".to_string()));
    let status = line_in_status(&Some("alsa_input.usb".to_string()), false);
    assert!(status.available);
    assert!(!status.active);
    assert_eq!(status.source_name, Some("alsa_input.usb".to_string()));
    let status = line_in_status(&None, true);
    assert!(!status.available);
    assert!(status.active);
}

#[test]
fn capture_source_priority() {
    match choose_capture_source("soundsync-capture", true, Some("bluez_input.X".into())) {
        CaptureSource::NullSink(n) => assert_eq!(n, "soundsync-capture"),
        other => panic!("unexpected {:?}", other),
    }
    match choose_capture_source("soundsync-capture", false, Some("bluez_input.X".into())) {
        CaptureSource::BluetoothDirect(n) => assert_eq!(n, "bluez_input.X"),
        other => panic!("unexpected {:?}", other),
    }
    assert!(matches!(
        choose_capture_source("soundsync-capture", false, None),
        CaptureSource::Default
    ));
}

#[test]
fn capture_command_lines() {
    let sink = CaptureSource::NullSink("soundsync-capture".into());
    let (cmd, args) = build_capture_command(&sink, true, true).unwrap();
    assert_eq!(cmd, "parec");
    assert_eq!(
        args,
        vec![
            "--raw",
            "--format=float32",
            "--channels=2",
            "--rate=48000",
            "--device=soundsync-capture.monitor",
            "--latency-msec=50",
        ]
    );
    let (cmd, args) = build_capture_command(&CaptureSource::Default, false, true).unwrap();
    assert_eq!(cmd, "pw-cat");
    assert_eq!(
        args,
        vec!["--format", "f32", "--channels", "2", "--rate", "48000", "-r", "-"]
    );
    let bt = CaptureSource::BluetoothDirect("bluez_input.A".into());
    let (_, args) = build_capture_command(&bt, false, true).unwrap();
    assert_eq!(&args[7..], &["--target".to_string(), "bluez_input.A".to_string(), "-".to_string()]);
    let (_, args) = build_capture_command(&CaptureSource::Default, true, false).unwrap();
    assert_eq!(args[4], "--device=@DEFAULT_MONITOR@");
    assert_eq!(
        build_capture_command(&CaptureSource::Default, false, false).unwrap_err(),
        "Neither parec nor pw-cat found"
    );
}

#[test]
fn bluetooth_source_search() {
    assert!(is_bt_source_name("bluez_input.44_4A"));
    assert!(is_bt_source_name("bluez_source.44_4A"));
    assert!(!is_bt_source_name("alsa_input.x"));
    let listing = "1\talsa_input.x\tPipeWire\n2\tbluez_input.44_4A_DB_B4_E7_0D.a2dp\tPipeWire\n";
    assert_eq!(
        find_bt_name_in_listing(listing),
        Some("bluez_input.44_4A_DB_B4_E7_0D.a2dp".to_string())
    );
    assert_eq!(find_bt_name_in_listing("nothing here\n"), None);
}

#[test]
fn json_value_and_dump_search() {
    assert_eq!(
        extract_json_string_value("  \"node.name\": \"bluez_input.AA\","),
        Some("bluez_input.AA".to_string())
    );
    assert_eq!(extract_json_string_value("\"key\": \"\","), None);
    assert_eq!(extract_json_string_value("no colon"), None);
    let dump = "[\n  {\n    \"id\": 40,\n    \"info\": {\n      \"props\": {\n        \"node.name\": \"bluez_source.11_22\",\n      }\n    }\n  }\n]\n";
    assert_eq!(find_bt_source_in_dump(dump), Some("bluez_source.11_22".to_string()));
    assert_eq!(find_bt_source_in_dump("[]"), None);
}
