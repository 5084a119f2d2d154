use soundsync::dsp::equalizer::{default_filter_type, filter_label, FilterType};
use soundsync::dsp::presets::{
    all_preset_names, builtin_preset_names, file_char_of, preset_file_name, sanitize_filename,
};
use soundsync::state::config::{Config, PartialConfig};
use soundsync::state::{BluetoothStatus, PlaybackStatus};

#[test]
fn test_playback_status_from_bluez() {
    assert_eq!(PlaybackStatus::from_bluez("playing"), PlaybackStatus::Playing);
    assert_eq!(PlaybackStatus::from_bluez("paused"), PlaybackStatus::Paused);
    assert_eq!(PlaybackStatus::from_bluez("stopped"), PlaybackStatus::Stopped);
    assert_eq!(PlaybackStatus::from_bluez("Playing"), PlaybackStatus::Playing);
    assert_eq!(PlaybackStatus::from_bluez("unknown"), PlaybackStatus::Unknown);
    assert_eq!(PlaybackStatus::from_bluez("garbage"), PlaybackStatus::Unknown);
}

#[test]
fn test_bluetooth_status_default() {
    assert_eq!(BluetoothStatus::default(), BluetoothStatus::Unavailable);
}

#[test]
fn status_labels() {
    assert_eq!(BluetoothStatus::Ready.label(), "ready");
    assert_eq!(BluetoothStatus::Scanning.label(), "scanning");
    assert_eq!(BluetoothStatus::Unavailable.label(), "unavailable");
    assert_eq!(BluetoothStatus::Error("x".into()).label(), "unavailable");
    assert_eq!(PlaybackStatus::from_lowercase("PAUSED"), PlaybackStatus::Unknown);
    assert_eq!(PlaybackStatus::from_bluez("PAUSED"), PlaybackStatus::Paused);
}

#[test]
fn test_default_config() {
    let config = Config::default();
    assert_eq!(config.port, 8080);
    assert_eq!(config.adapter, "hci0");
    assert_eq!(config.device_name, "SoundSync");
    assert!(config.auto_pair);
    assert_eq!(config.max_devices, 1);
}

fn partial() -> PartialConfig {
    PartialConfig { port: None, adapter: None, device_name: None, auto_pair: None, max_devices: None }
}

#[test]
fn test_config_deserialize_full() {
    let p = PartialConfig {
        port: Some(9090),
        adapter: Some("hci1".into()),
        device_name: Some("MySync".into()),
        auto_pair: Some(false),
        max_devices: Some(3),
    };
    let mut config = Config::default();
    p.merge_into(&mut config);
    assert_eq!(config.port, 9090);
    assert_eq!(config.adapter, "hci1");
    assert_eq!(config.device_name, "MySync");
    assert!(!config.auto_pair);
    assert_eq!(config.max_devices, 3);
}

#[test]
fn test_config_partial_merge_preserves_defaults() {
    let p = PartialConfig { port: Some(3000), ..partial() };
    let mut config = Config::default();
    p.merge_into(&mut config);
    assert_eq!(config.port, 3000);
    assert_eq!(config.adapter, "hci0");
    assert_eq!(config.device_name, "SoundSync");
    assert!(config.auto_pair);
    assert_eq!(config.max_devices, 1);
}

#[test]
fn test_layered_merge_across_files() {
    let mut config = Config::default();
    PartialConfig { port: Some(9090), adapter: Some("hci1".into()), ..partial() }.merge_into(&mut config);
    PartialConfig { device_name: Some("Living Room Speaker".into()), ..partial() }.merge_into(&mut config);
    assert_eq!(config.port, 9090);
    assert_eq!(config.adapter, "hci1");
    assert_eq!(config.device_name, "Living Room Speaker");
    assert!(config.auto_pair);
    assert_eq!(config.max_devices, 1);
}

#[test]
fn test_filter_label() {
    assert_eq!(filter_label(FilterType::LowShelf), "bq_lowshelf");
    assert_eq!(filter_label(FilterType::Peaking), "bq_peaking");
    assert_eq!(filter_label(FilterType::HighShelf), "bq_highshelf");
}

#[test]
fn default_band_filter_types() {
    assert_eq!(default_filter_type(0), FilterType::LowShelf);
    for i in 1..9 {
        assert_eq!(default_filter_type(i), FilterType::Peaking);
    }
    assert_eq!(default_filter_type(9), FilterType::HighShelf);
}

#[test]
fn test_sanitize_filename() {
    assert_eq!(sanitize_filename("My Preset"), "My_Preset");
    assert_eq!(sanitize_filename("rock-n-roll"), "rock-n-roll");
    assert_eq!(sanitize_filename("test/bad"), "test_bad");
}

#[test]
fn sanitize_is_idempotent_and_names_files() {
    let once = sanitize_filename("Über Bass/2.0 ");
    assert_eq!(once, "Über_Bass_2_0_");
    assert_eq!(sanitize_filename(&once), once);
    assert_eq!(preset_file_name("My Preset"), "My_Preset.toml");
}

#[test]
fn preset_names_sorted() {
    assert_eq!(builtin_preset_names().len(), 7);
    let names = all_preset_names(&["Zen".to_string(), "Acoustic".to_string()]);
    assert_eq!(
        names,
        vec![
            "Acoustic", "Bass Boost", "Classical", "Electronic", "Flat", "Podcast", "Rock",
            "Vocal", "Zen",
        ]
    );
    let mut sorted = names.clone();
    sorted.sort();
    assert_eq!(names, sorted);
}

#[test]
fn file_char_from_alphanumeric_verdict() {
    assert_eq!(file_char_of('a', true), 'a');
    assert_eq!(file_char_of('-', false), '-');
    assert_eq!(file_char_of('_', false), '_');
    assert_eq!(file_char_of('/', false), '_');
    assert_eq!(file_char_of(' ', false), '_');
    assert_eq!(file_char_of('é', true), 'é');
}
