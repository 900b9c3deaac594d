use sdrapp_core::DeviceInfo;

#[test]
fn test_device_info_fields() {
    // DeviceInfo muss Clone und Debug implementieren
    let info = DeviceInfo {
        label: "Test Device".to_string(),
        args: "driver=test".to_string(),
        driver: "test".to_string(),
    };
    let cloned = info.clone();
    assert_eq!(info.label, cloned.label);
    let debug_str = format!("{:?}", info);
    assert!(debug_str.contains("Test Device"));
}

#[test]
fn lookup_keeps_present_values() {
    let info = DeviceInfo::from_lookup(
        Some("HackRF One"),
        "driver=hackrf, label=HackRF One".to_string(),
        Some("hackrf"),
    );
    assert_eq!(info.label, "HackRF One");
    assert_eq!(info.args, "driver=hackrf, label=HackRF One");
    assert_eq!(info.driver, "hackrf");
}

#[test]
fn lookup_fills_missing_label_and_driver() {
    let info = DeviceInfo::from_lookup(None, "serial=1234".to_string(), None);
    assert_eq!(info.label, "Unknown");
    assert_eq!(info.args, "serial=1234");
    assert_eq!(info.driver, "unknown");
    assert!(!info.label.is_empty());
    assert!(!info.driver.is_empty());
}

#[test]
fn lookup_treats_empty_values_as_missing() {
    let info = DeviceInfo::from_lookup(Some(""), "driver=".to_string(), Some(""));
    assert_eq!(info.label, "Unknown");
    assert_eq!(info.args, "driver=");
    assert_eq!(info.driver, "unknown");
    assert!(!info.label.is_empty());
    assert!(!info.driver.is_empty());
}
