use emulaunch::emulators::DeviceState;
use emulaunch::ios::{list_ios_simulators, open_ios_simulator, sims_from_raw, RawSimDevice,
    RawSimGroup};

fn raw(name: Option<&str>, udid: Option<&str>, state: Option<&str>) -> RawSimDevice {
    RawSimDevice {
        name: name.map(|s| s.to_string()),
        udid: udid.map(|s| s.to_string()),
        state: state.map(|s| s.to_string()),
    }
}

#[test]
fn flatten_keeps_recognized_states_in_group_order() {
    let groups = vec![
        RawSimGroup {
            runtime: "iOS 17.0".to_string(),
            devices: vec![
                raw(Some("iPhone 15"), Some("AAA"), Some("Booted")),
                raw(Some("iPhone 15 Pro"), Some("BBB"), Some("Creating")),
                raw(Some("iPad"), Some("CCC"), Some("Shutdown")),
            ],
        },
        RawSimGroup {
            runtime: "iOS 16.4".to_string(),
            devices: vec![raw(Some("iPhone 14"), Some("DDD"), Some("Available"))],
        },
    ];
    let sims = sims_from_raw(&groups);
    assert_eq!(sims.len(), 3);
    assert_eq!(sims[0].name, "iPhone 15");
    assert_eq!(sims[0].udid, "AAA");
    assert!(matches!(sims[0].state, DeviceState::Booted));
    assert_eq!(sims[0].runtime, "iOS 17.0");
    assert_eq!(sims[1].name, "iPad");
    assert!(matches!(sims[1].state, DeviceState::Shutdown));
    assert_eq!(sims[2].name, "iPhone 14");
    assert!(matches!(sims[2].state, DeviceState::Available));
    assert_eq!(sims[2].runtime, "iOS 16.4");
}

#[test]
fn flatten_skips_incomplete_devices() {
    let groups = vec![RawSimGroup {
        runtime: "iOS 17.0".to_string(),
        devices: vec![
            raw(None, Some("AAA"), Some("Booted")),
            raw(Some("iPhone"), None, Some("Booted")),
            raw(Some("iPhone"), Some("BBB"), None),
        ],
    }];
    assert!(sims_from_raw(&groups).is_empty());
}

#[test]
fn simctl_json_is_parsed_and_flattened() {
    let json = r#"{
        "devices": {
            "com.apple.CoreSimulator.SimRuntime.iOS-17-0": [
                {"name": "iPhone 15", "udid": "AAA-111", "state": "Booted"},
                {"name": "iPhone 15 Pro", "udid": "BBB-222", "state": "Creating"},
                {"udid": "CCC-333", "state": "Shutdown"}
            ],
            "com.apple.CoreSimulator.SimRuntime.iOS-16-4": [
                {"name": "iPhone 14", "udid": "DDD-444", "state": "Shutdown"}
            ]
        }
    }"#;
    let sims = list_ios_simulators(json).expect("valid document");
    assert_eq!(sims.len(), 2);
    // serde_json object entries come back in key order.
    assert_eq!(sims[0].name, "iPhone 14");
    assert_eq!(sims[0].udid, "DDD-444");
    assert!(matches!(sims[0].state, DeviceState::Shutdown));
    assert_eq!(sims[0].runtime, "com.apple.CoreSimulator.SimRuntime.iOS-16-4");
    assert_eq!(sims[1].name, "iPhone 15");
    assert!(matches!(sims[1].state, DeviceState::Booted));
}

#[test]
fn malformed_json_is_a_parse_error() {
    let err = list_ios_simulators("{not json").unwrap_err();
    assert!(err.starts_with("Failed to parse simctl JSON: "));
}

#[test]
fn document_without_devices_field_is_an_error() {
    let err = list_ios_simulators("{}").unwrap_err();
    assert!(err.starts_with("Failed to parse simctl JSON: "));
}

#[test]
fn non_object_devices_value_lists_nothing() {
    let sims = list_ios_simulators(r#"{"devices": 3}"#).unwrap();
    assert!(sims.is_empty());
}

#[test]
fn boot_success_opens_simulator() {
    assert_eq!(
        open_ios_simulator("AAA-111", true, ""),
        Ok("Opening iOS simulator: AAA-111".to_string())
    );
}

#[test]
fn already_booted_counts_as_success() {
    let stderr = "An error was encountered processing the command: Unable to boot device in current state: Booted";
    assert_eq!(
        open_ios_simulator("AAA-111", false, stderr),
        Ok("Opening iOS simulator: AAA-111".to_string())
    );
}

#[test]
fn other_boot_failures_carry_the_stderr() {
    assert_eq!(
        open_ios_simulator("AAA-111", false, "Invalid device"),
        Err("Failed to boot simulator: Invalid device".to_string())
    );
}
