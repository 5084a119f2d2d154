use soundsync::audio::pipeline::{
    default_sink, find_wpctl_node_id, null_sink_load_args, parse_null_sink_module_id, LoadStep,
    NullSinkSetup, EQ_SINK_NAME, NULL_SINK_NAME,
};

#[test]
fn test_find_wpctl_node_id() {
    let output = r#"
Audio
 ├─ Devices:
 │      40. soundsync-capture        [Audio/Sink]
 │      42. Built-in Audio           [Audio/Sink]
 ├─ Sinks:
 │  *   42. Built-in Audio Analog Stereo [vol: 1.00]
 │      40. soundsync-capture            [vol: 1.00]
"#;
    assert_eq!(find_wpctl_node_id(output, "soundsync-capture"), Some(40));
}

#[test]
fn test_find_wpctl_node_id_with_star() {
    let output = " │  *   40. soundsync-capture [vol: 0.50]\n";
    assert_eq!(find_wpctl_node_id(output, "soundsync-capture"), Some(40));
}

#[test]
fn test_find_wpctl_node_id_not_found() {
    let output = " │      42. Built-in Audio [vol: 1.00]\n";
    assert_eq!(find_wpctl_node_id(output, "soundsync-capture"), None);
}

#[test]
fn test_parse_null_sink_module_id_found() {
    let output = "\
Module #10
\tName: module-null-sink
\tArgument: sink_name=soundsync-capture sink_properties=device.description=SoundSync-Capture
Module #20
\tName: module-loopback
\tArgument: source=alsa_input sink=soundsync-capture
";
    assert_eq!(
        parse_null_sink_module_id(output, "soundsync-capture"),
        Some(10)
    );
}

#[test]
fn test_parse_null_sink_module_id_not_found() {
    let output = "\
Module #10
\tName: module-null-sink
\tArgument: sink_name=other-sink
Module #20
\tName: module-loopback
\tArgument: source=alsa_input sink=soundsync-capture
";
    assert_eq!(parse_null_sink_module_id(output, "soundsync-capture"), None);
}

#[test]
fn test_parse_null_sink_module_id_empty() {
    assert_eq!(parse_null_sink_module_id("", "soundsync-capture"), None);
}

#[test]
fn null_sink_id_unparsable_module_number() {
    let output = "Module #x\n\tName: module-null-sink\n\tArgument: sink_name=soundsync-capture\n";
    assert_eq!(parse_null_sink_module_id(output, "soundsync-capture"), None);
}

#[test]
fn default_sink_follows_eq() {
    assert_eq!(default_sink(true), EQ_SINK_NAME);
    assert_eq!(default_sink(false), NULL_SINK_NAME);
    assert_eq!(
        null_sink_load_args(),
        vec![
            "load-module",
            "module-null-sink",
            "sink_name=soundsync-capture",
            "sink_properties=device.description=SoundSync-Capture",
        ]
    );
}

#[test]
fn null_sink_retries_with_capped_backoff() {
    let mut setup = NullSinkSetup::new();
    let mut delays = Vec::new();
    loop {
        match setup.on_failed("  Connection refused \n") {
            LoadStep::Retry { delay_secs } => delays.push(delay_secs),
            LoadStep::Verify => break,
        }
    }
    assert_eq!(delays, vec![1, 2, 3, 4, 5, 5, 5, 5, 5]);
    assert_eq!(
        setup.finish(false).unwrap_err(),
        "Null sink soundsync-capture not found after 10 attempts. Last error: Connection refused"
    );
    assert!(setup.finish(true).is_ok());
}

#[test]
fn null_sink_success_records_module_id() {
    let mut setup = NullSinkSetup::new();
    assert_eq!(setup.on_loaded("536870914\n"), LoadStep::Verify);
    assert_eq!(setup.module_id(), Some(536870914));
    let mut setup = NullSinkSetup::new();
    assert_eq!(setup.on_loaded("not a number"), LoadStep::Verify);
    assert_eq!(setup.module_id(), None);
}
