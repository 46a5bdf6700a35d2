use linkview::bluetooth::{contains, DeviceBle, ScanStep};

#[test]
fn contains_finds_a_part_anywhere() {
    assert!(contains("sensor-42", "sensor"));
    assert!(contains("my sensor", "sensor"));
    assert!(contains("a sensor b", "sensor"));
    assert!(contains("sensor", "sensor"));
    assert!(contains("sensor", ""));
    assert!(contains("", ""));
    assert!(!contains("", "s"));
    assert!(!contains("senso", "sensor"));
    assert!(!contains("sen sor", "sensor"));
    assert!(contains("aab", "ab"));
    assert!(contains("grüße", "üß"));
}

#[test]
fn device_keeps_its_address_and_name() {
    let device = DeviceBle::new("AA:BB:CC:DD:EE:FF".to_string(), "probe".to_string());
    assert_eq!(device.mac_address, "AA:BB:CC:DD:EE:FF");
    assert_eq!(device.name_device, "probe");
}

#[test]
fn step_connects_to_a_matching_name_only() {
    let device = DeviceBle::new(String::new(), "probe".to_string());
    assert_eq!(device.step(Some("lab probe 3")), ScanStep::Connect);
    assert_eq!(device.step(Some("lamp")), ScanStep::Skip);
    assert_eq!(device.step(None), ScanStep::Skip);
    let unknown = DeviceBle::new(String::new(), "name unknown".to_string());
    assert_eq!(unknown.step(None), ScanStep::Connect);
}
