use soundsync::bluetooth::constants::{address_from_path, path_from_address};
use soundsync::bluetooth::endpoint::transport_address;

#[test]
fn test_address_from_path() {
    assert_eq!(
        address_from_path("/org/bluez/hci0/dev_AA_BB_CC_DD_EE_FF"),
        Some("AA:BB:CC:DD:EE:FF".to_string())
    );
    assert_eq!(
        address_from_path("/org/bluez/hci0/dev_11_22_33_44_55_66"),
        Some("11:22:33:44:55:66".to_string())
    );
}

#[test]
fn test_address_from_transport_path() {
    assert_eq!(
        address_from_path("/org/bluez/hci0/dev_AA_BB_CC_DD_EE_FF/sep1/fd0"),
        Some("AA:BB:CC:DD:EE:FF".to_string())
    );
    assert_eq!(
        address_from_path("/org/bluez/hci0/dev_11_22_33_44_55_66/sep2/fd1"),
        Some("11:22:33:44:55:66".to_string())
    );
}

#[test]
fn test_address_from_path_invalid() {
    assert_eq!(address_from_path("/org/bluez/hci0"), None);
    assert_eq!(address_from_path("/org/bluez/hci0/player0"), None);
}

#[test]
fn test_path_from_address() {
    assert_eq!(
        path_from_address("/org/bluez/hci0", "AA:BB:CC:DD:EE:FF"),
        "/org/bluez/hci0/dev_AA_BB_CC_DD_EE_FF"
    );
}

#[test]
fn test_roundtrip() {
    let addr = "12:34:56:78:9A:BC";
    let path = path_from_address("/org/bluez/hci0", addr);
    let recovered = address_from_path(&path).unwrap();
    assert_eq!(recovered, addr);
}

#[test]
fn transport_address_defaults_to_unknown() {
    assert_eq!(
        transport_address("/org/bluez/hci0/dev_AA_BB_CC_DD_EE_FF/sep1/fd0"),
        "AA:BB:CC:DD:EE:FF"
    );
    assert_eq!(transport_address("/org/bluez/hci0"), "unknown");
}
