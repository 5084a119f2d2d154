use soundsync::audio::airplay::{
    decode_avahi_escapes, extract_pw_property, extract_raop_friendly_name, extract_txt_field,
    find_raop_sink_in_listing, link_already_exists, link_id, link_ports, module_already_loaded,
    parse_avahi_browse_output, parse_pw_cli_raop_sinks, pw_link_ports, raop_sink_args,
    raop_sink_name, sink_matches, AirPlayDeviceInfo, AirPlayDirectory,
};

#[test]
fn test_decode_avahi_escapes_space() {
    assert_eq!(decode_avahi_escapes("Hello\\032World"), "Hello World");
}

#[test]
fn test_decode_avahi_escapes_at_and_hash() {
    assert_eq!(
        decode_avahi_escapes("CCCCAC98497B\\064Lounge\\032Room\\032Stereo\\043"),
        "CCCCAC98497B@Lounge Room Stereo#"
    );
}

#[test]
fn test_decode_avahi_escapes_no_escapes() {
    assert_eq!(decode_avahi_escapes("Plain Name"), "Plain Name");
}

#[test]
fn test_decode_avahi_escapes_trailing_backslash() {
    assert_eq!(decode_avahi_escapes("test\\"), "test\\");
}

#[test]
fn test_decode_avahi_escapes_partial_digits() {
    assert_eq!(decode_avahi_escapes("test\\12x"), "test\\12x");
}

#[test]
fn test_extract_raop_friendly_name_with_mac() {
    assert_eq!(
        extract_raop_friendly_name("CCCCAC98497B@Lounge Room Stereo#"),
        "Lounge Room Stereo"
    );
}

#[test]
fn test_extract_raop_friendly_name_no_mac() {
    assert_eq!(
        extract_raop_friendly_name("Living Room Speaker"),
        "Living Room Speaker"
    );
}

#[test]
fn test_extract_raop_friendly_name_no_hash() {
    assert_eq!(extract_raop_friendly_name("AABBCCDDEEFF@Kitchen"), "Kitchen");
}

#[test]
fn test_full_pipeline() {
    let raw = "CCCCAC98497B\\064Lounge\\032Room\\032Stereo\\043";
    let decoded = decode_avahi_escapes(raw);
    assert_eq!(decoded, "CCCCAC98497B@Lounge Room Stereo#");
    let friendly = extract_raop_friendly_name(&decoded);
    assert_eq!(friendly, "Lounge Room Stereo");
}

#[test]
fn decode_out_of_range_code_is_literal() {
    assert_eq!(decode_avahi_escapes("a\\300b"), "a\\300b");
    assert_eq!(decode_avahi_escapes("\\255"), "\u{ff}");
    // A backslash consumed as the non-digit ends the escape and is kept.
    assert_eq!(decode_avahi_escapes("\\\\032"), "\\\\032");
}

#[test]
fn txt_field_extraction() {
    let txt = "\"cn=0,1\" \"am=AppleTV3,2\" \"vs=220.68\"";
    assert_eq!(extract_txt_field(txt, "am"), Some("AppleTV3,2".to_string()));
    assert_eq!(extract_txt_field(txt, "md"), None);
    assert_eq!(extract_txt_field("\"am=unterminated", "am"), None);
}

#[test]
fn pw_property_extraction() {
    assert_eq!(
        extract_pw_property("  node.description = \"Kitchen Speaker\""),
        Some("Kitchen Speaker".to_string())
    );
    assert_eq!(extract_pw_property("node.name = \"\""), None);
    assert_eq!(extract_pw_property("no equals sign"), None);
}

#[test]
fn avahi_output_parsing() {
    let out = "+;eth0;IPv4;CCCCAC98497B\\064Lounge;_raop._tcp;local\n\
=;eth0;IPv4;CCCCAC98497B\\064Lounge\\032Room;_raop._tcp;local;lounge.local;192.168.1.20;7000;\"am=AudioAccessory5\\0441\"\n\
=;wlan0;IPv4;CCCCAC98497B\\064Lounge\\032Room;_raop._tcp;local;lounge.local;192.168.1.21;7000;\n\
=;eth0;IPv6;AABBCCDDEEFF\\064Kitchen;_raop._tcp;local;kitchen.local;fe80::1;7000;\n\
=;eth0;IPv4;AABBCCDDEEFF\\064Kitchen;_raop._tcp;local;kitchen.local;192.168.1.30;abc;\n\
=;eth0;IPv4;112233445566\\064Den;_raop._tcp;local;den.local;192.168.1.40;5000\n";
    let devices = parse_avahi_browse_output(out);
    assert_eq!(devices.len(), 2);
    assert_eq!(devices[0].name, "Lounge Room");
    assert_eq!(devices[0].address, "192.168.1.20");
    assert_eq!(devices[0].port, 7000);
    assert_eq!(devices[0].model, "AudioAccessory5,1");
    // The IPv6 record claimed the name "Kitchen", so the IPv4 one is skipped.
    assert_eq!(devices[1].name, "Den");
    assert_eq!(devices[1].port, 5000);
    assert_eq!(devices[1].model, "AirPlay");
}

#[test]
fn avahi_bad_port_falls_back() {
    let out = "=;eth0;IPv4;X\\064Office;_raop._tcp;local;office.local;10.0.0.2;notaport;\n";
    let devices = parse_avahi_browse_output(out);
    assert_eq!(devices.len(), 1);
    assert_eq!(devices[0].port, 7000);
}

#[test]
fn pw_cli_parsing() {
    let out = "\tid 40, type PipeWire:Interface:Node/3\n\
\t\tnode.description = \"RAOP Kitchen\" raop\n\
\t\tnode.name = \"raop_sink.kitchen\"\n\
\t\tnode.name = \"alsa_output\"\n\
\t\tnode.nick = \"Den\" raop\n\
\t\tnode.name = \"raop_sink.den\"\n";
    let devices = parse_pw_cli_raop_sinks(out);
    assert_eq!(devices.len(), 2);
    assert_eq!(devices[0].name, "RAOP Kitchen\" raop");
    assert_eq!(devices[0].port, 7000);
    assert_eq!(devices[0].address, "");
    assert_eq!(devices[1].name, "Den\" raop");
}

fn device(name: &str, address: &str) -> AirPlayDeviceInfo {
    AirPlayDeviceInfo {
        name: name.to_string(),
        address: address.to_string(),
        port: 7000,
        model: "AirPlay".to_string(),
    }
}

#[test]
fn raop_sink_matching() {
    let listing = "1\talsa_output.pci\tPipeWire\ts16le\tIDLE\n\
2\traop_sink.Living_Room\tPipeWire\ts16le\tIDLE\n\
3\traop_sink.192_168_1_20\tPipeWire\ts16le\tIDLE\n";
    assert_eq!(
        find_raop_sink_in_listing(listing, &device("Lounge", "192.168.1.20")),
        Some("raop_sink.192_168_1_20".to_string())
    );
    assert_eq!(
        find_raop_sink_in_listing(listing, &device("LIVING ROOM", "")),
        Some("raop_sink.Living_Room".to_string())
    );
    assert_eq!(find_raop_sink_in_listing(listing, &device("Garage", "10.0.0.9")), None);
    assert!(sink_matches("raop_sink.livingroom", "raop_sink.livingroom", "", "living room"));
    assert!(!sink_matches("alsa.livingroom", "alsa.livingroom", "", "living room"));
}

#[test]
fn raop_sink_load_arguments() {
    assert_eq!(raop_sink_name("192.168.1.20"), "raop_sink.192_168_1_20");
    let d = AirPlayDeviceInfo {
        name: "Lounge".to_string(),
        address: "192.168.1.20".to_string(),
        port: 7001,
        model: "AirPlay".to_string(),
    };
    assert_eq!(
        raop_sink_args(&d),
        vec![
            "load-module".to_string(),
            "module-raop-sink".to_string(),
            "server=[192.168.1.20]:7001".to_string(),
            "sink_name=raop_sink.192_168_1_20".to_string(),
            "sink_properties=device.description=\"Lounge\"".to_string(),
        ]
    );
}

#[test]
fn pw_links_and_ids() {
    let ports = pw_link_ports("soundsync-capture", "raop_sink.x");
    assert_eq!(
        ports,
        vec![
            (
                "soundsync-capture:monitor_FL".to_string(),
                "raop_sink.x:playback_FL".to_string()
            ),
            (
                "soundsync-capture:monitor_FR".to_string(),
                "raop_sink.x:playback_FR".to_string()
            ),
        ]
    );
    let id = link_id(&ports[0].0, &ports[0].1);
    assert_eq!(id, "soundsync-capture:monitor_FL|raop_sink.x:playback_FL");
    assert_eq!(link_ports(&id), Some((ports[0].0.clone(), ports[0].1.clone())));
    assert_eq!(link_ports("a|b|c"), None);
    assert!(link_already_exists("failed to link ports: File exists"));
    assert!(!link_already_exists("no such port"));
    assert!(module_already_loaded("Module already loaded"));
    assert!(!module_already_loaded("Failure: No such entity"));
}

#[test]
fn directory_insert_replaces_by_name() {
    let mut dir = AirPlayDirectory::new();
    assert!(dir.is_empty());
    dir.insert(device("Lounge", "192.168.1.20"));
    dir.insert(device("Den", "192.168.1.40"));
    dir.insert(device("Lounge", "192.168.1.21"));
    let all = dir.devices();
    assert_eq!(all.len(), 2);
    assert_eq!(dir.get("Lounge").unwrap().address, "192.168.1.21");
    assert!(dir.get("Garage").is_none());
    assert_eq!(
        dir.connect_target("Garage").unwrap_err(),
        "Device not found: Garage"
    );
    assert_eq!(dir.connect_target("Den").unwrap().address, "192.168.1.40");
}
