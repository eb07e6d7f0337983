use emulaunch::emulators::{
    AndroidDeviceKind, AndroidEmulator, DeviceState, EmulatorEntry, IOSSimulator,
};
use emulaunch::ios::list_ios_simulators;
use emulaunch::select::App;

fn android_device(name: &str) -> EmulatorEntry {
    EmulatorEntry::Android(AndroidEmulator {
        name: name.to_string(),
        id: name.to_string(),
        device_type: AndroidDeviceKind::Image,
        state: DeviceState::Shutdown,
    })
}

fn ios_device(name: &str) -> EmulatorEntry {
    EmulatorEntry::IOS(IOSSimulator {
        name: name.to_string(),
        udid: name.to_string(),
        state: DeviceState::Shutdown,
        runtime: "iOS 17.0".to_string(),
    })
}

fn header(label: &str) -> EmulatorEntry {
    EmulatorEntry::SectionHeader(label.to_string())
}

#[test]
fn unicode_names_filter_case_insensitively() {
    let entries = vec![header("Android"), android_device("Äpfel Gerät"), android_device("Pixel")];
    let mut app = App::new(entries);
    app.append_filter_char('ä');
    app.append_filter_char('p');
    assert_eq!(app.filtered_indices, vec![0, 1]);
    assert_eq!(
        app.selected_entry().map(|e| e.display_name().to_string()),
        Some("Äpfel Gerät".to_string())
    );
}

#[test]
fn filter_crossing_both_platforms_keeps_both_headers() {
    let entries = vec![
        header("Android Emulators"),
        android_device("Pixel 6"),
        header("iOS Simulators"),
        ios_device("Pixel Tab"),
        ios_device("iPhone 15"),
    ];
    let mut app = App::new(entries);
    for c in "pixel".chars() {
        app.append_filter_char(c);
    }
    assert_eq!(app.filtered_indices, vec![0, 1, 2, 3]);
}

#[test]
fn filter_matching_only_one_section_drops_the_other_header() {
    let entries = vec![
        header("Android Emulators"),
        android_device("Pixel 6"),
        header("iOS Simulators"),
        ios_device("iPhone 15"),
    ];
    let mut app = App::new(entries);
    for c in "iphone".chars() {
        app.append_filter_char(c);
    }
    assert_eq!(app.filtered_indices, vec![2, 3]);
    assert_eq!(
        app.selected_entry().map(|e| e.display_name().to_string()),
        Some("iPhone 15".to_string())
    );
}

#[test]
fn devices_that_are_not_objects_are_skipped() {
    let json = r#"{
        "devices": {
            "iOS 17.0": [
                "not an object",
                {"name": "iPhone 15", "udid": "AAA", "state": "Booted"},
                {"name": 3, "udid": "BBB", "state": "Booted"}
            ]
        }
    }"#;
    let sims = list_ios_simulators(json).unwrap();
    assert_eq!(sims.len(), 1);
    assert_eq!(sims[0].name, "iPhone 15");
}

#[test]
fn runtime_group_that_is_not_an_array_is_skipped() {
    let json = r#"{
        "devices": {
            "iOS 17.0": {"name": "iPhone 15"},
            "iOS 16.4": [{"name": "iPhone 14", "udid": "DDD", "state": "Shutdown"}]
        }
    }"#;
    let sims = list_ios_simulators(json).unwrap();
    assert_eq!(sims.len(), 1);
    assert_eq!(sims[0].name, "iPhone 14");
}

#[test]
fn empty_device_map_lists_nothing() {
    let sims = list_ios_simulators(r#"{"devices": {}}"#).unwrap();
    assert!(sims.is_empty());
}
