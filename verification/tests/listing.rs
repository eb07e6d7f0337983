use emulaunch::emulators::{
    collect_all_entries, find_emulator, format_emulator_list, open_entry, AndroidDeviceKind,
    AndroidEmulator, DeviceState, EmulatorEntry, EmulatorType, IOSSimulator,
};

fn android(name: &str, id: &str, state: DeviceState) -> AndroidEmulator {
    AndroidEmulator {
        name: name.to_string(),
        id: id.to_string(),
        device_type: AndroidDeviceKind::Image,
        state,
    }
}

fn ios(name: &str, udid: &str, state: DeviceState) -> IOSSimulator {
    IOSSimulator {
        name: name.to_string(),
        udid: udid.to_string(),
        state,
        runtime: "iOS 17.0".to_string(),
    }
}

#[test]
fn aggregation_emits_one_header_per_nonempty_platform() {
    let a = vec![android("Pixel 6", "Pixel_6", DeviceState::Booted)];
    let i = vec![ios("iPhone 15", "AAA", DeviceState::Shutdown)];
    let entries = collect_all_entries(&a, &i);
    assert_eq!(entries.len(), 4);
    assert!(entries[0].is_header());
    assert_eq!(entries[0].display_name(), "Android Emulators");
    assert!(!entries[1].is_header());
    assert_eq!(entries[1].display_name(), "Pixel 6");
    assert!(entries[2].is_header());
    assert_eq!(entries[2].display_name(), "iOS Simulators");
    assert_eq!(entries[3].display_name(), "iPhone 15");
}

#[test]
fn aggregation_of_empty_platform_emits_nothing() {
    let i = vec![ios("iPhone 15", "AAA", DeviceState::Shutdown)];
    let entries = collect_all_entries(&Vec::new(), &i);
    assert_eq!(entries.len(), 2);
    assert_eq!(entries[0].display_name(), "iOS Simulators");
    assert!(collect_all_entries(&Vec::new(), &Vec::new()).is_empty());
    let a = vec![android("Pixel 6", "Pixel_6", DeviceState::Booted)];
    let entries = collect_all_entries(&a, &Vec::new());
    assert_eq!(entries.len(), 2);
    assert_eq!(entries[0].display_name(), "Android Emulators");
}

#[test]
fn headers_always_precede_their_devices() {
    let a = vec![
        android("Pixel 6", "Pixel_6", DeviceState::Booted),
        android("Nexus 5", "Nexus_5", DeviceState::Shutdown),
    ];
    let i = vec![ios("iPhone 15", "AAA", DeviceState::Booted)];
    let entries = collect_all_entries(&a, &i);
    for (k, e) in entries.iter().enumerate() {
        if e.is_header() {
            assert!(k + 1 < entries.len());
            assert!(!entries[k + 1].is_header());
        }
    }
}

#[test]
fn find_prefers_android_and_matches_name_or_id() {
    let a = vec![android("Pixel 6", "Pixel_6", DeviceState::Shutdown)];
    let i = vec![ios("Pixel 6", "AAA", DeviceState::Shutdown)];
    match find_emulator("Pixel 6", &a, &i) {
        Ok(EmulatorType::Android(id)) => assert_eq!(id, "Pixel_6"),
        other => panic!("expected the Android device, got {:?}", other),
    }
    match find_emulator("Pixel_6", &a, &i) {
        Ok(EmulatorType::Android(id)) => assert_eq!(id, "Pixel_6"),
        other => panic!("expected a match by identifier, got {:?}", other),
    }
    match find_emulator("AAA", &a, &i) {
        Ok(EmulatorType::IOS(udid)) => assert_eq!(udid, "AAA"),
        other => panic!("expected the iOS device, got {:?}", other),
    }
}

#[test]
fn missing_device_is_reported_not_found() {
    // `open "Pixel 6"` with no such device in either platform list: the
    // lookup fails with a message naming the device.
    let err = find_emulator("Pixel 6", &Vec::new(), &Vec::new()).unwrap_err();
    assert_eq!(err, "Emulator 'Pixel 6' not found");
}

#[test]
fn open_entry_dispatches_by_platform_and_refuses_headers() {
    let a = android("Pixel 6", "Pixel_6", DeviceState::Shutdown);
    match open_entry(&EmulatorEntry::Android(a)) {
        Ok(EmulatorType::Android(id)) => assert_eq!(id, "Pixel_6"),
        other => panic!("expected an Android launch, got {:?}", other),
    }
    let s = ios("iPhone 15", "AAA", DeviceState::Shutdown);
    match open_entry(&EmulatorEntry::IOS(s)) {
        Ok(EmulatorType::IOS(udid)) => assert_eq!(udid, "AAA"),
        other => panic!("expected an iOS launch, got {:?}", other),
    }
    let err = open_entry(&EmulatorEntry::SectionHeader("Android Emulators".to_string()))
        .unwrap_err();
    assert_eq!(err, "Cannot open a section header");
}

#[test]
fn plain_listing_groups_devices_under_headings() {
    let a = vec![
        android("Pixel 6", "Pixel_6", DeviceState::Booted),
        android("Nexus 5", "Nexus_5", DeviceState::Shutdown),
    ];
    let i = vec![ios("iPhone 15", "AAA", DeviceState::Available)];
    let out = format_emulator_list(&Ok(a), &Ok(i));
    assert_eq!(
        out,
        "Android Emulators:\n  Pixel 6 [Booted] (AVD)\n  Nexus 5 [Shutdown] (AVD)\n\niOS Simulators:\n  iPhone 15 [Available] (iOS 17.0)\n"
    );
}

#[test]
fn plain_listing_reports_empty_and_failed_platforms() {
    let out = format_emulator_list(&Ok(Vec::new()), &Err("boom".to_string()));
    assert_eq!(out, "No Android emulators found\n\niOS simulators error: boom\n");
    let out = format_emulator_list(&Err("gone".to_string()), &Ok(Vec::new()));
    assert_eq!(out, "Android emulators error: gone\n\nNo iOS simulators found\n");
}

#[test]
fn running_device_lines_show_their_kind() {
    let a = vec![AndroidEmulator {
        name: "Pixel_7".to_string(),
        id: "0a1b2c3d".to_string(),
        device_type: AndroidDeviceKind::RunningDevice,
        state: DeviceState::Booted,
    }];
    let out = format_emulator_list(&Ok(a), &Ok(Vec::new()));
    assert_eq!(
        out,
        "Android Emulators:\n  Pixel_7 [Booted] (Running Device)\n\nNo iOS simulators found\n"
    );
}
