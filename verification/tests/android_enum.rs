use emulaunch::android::{
    assemble_android, avd_stems_from_listing, make_android_emulators, parse_adb_devices_l,
    parse_adb_serials, parse_avd_display_name, parse_avd_list, parse_avd_name_output,
    running_device_serials,
};
use emulaunch::emulators::{sort_booted_first, AndroidDeviceKind, AndroidEmulator, DeviceState};

fn avd(name: &str, id: &str, state: DeviceState) -> AndroidEmulator {
    AndroidEmulator {
        name: name.to_string(),
        id: id.to_string(),
        device_type: AndroidDeviceKind::Image,
        state,
    }
}

#[test]
fn avd_list_keeps_nonempty_lines_trimmed() {
    let out = "Pixel_6\n\n  Nexus_5 \n";
    let ids = parse_avd_list(out);
    assert_eq!(ids, vec!["Pixel_6".to_string(), "Nexus_5".to_string()]);
    assert!(parse_avd_list("").is_empty());
}

#[test]
fn display_name_read_from_descriptor() {
    let ini = "hw.lcd.density=440\navd.ini.displayname=Pixel 6 \nimage.sysdir.1=x\n";
    assert_eq!(parse_avd_display_name(ini), Some("Pixel 6".to_string()));
    assert_eq!(parse_avd_display_name("hw.lcd.density=440\n"), None);
}

#[test]
fn adb_serials_take_ready_emulator_lines_after_heading() {
    let out = "List of devices attached\nemulator-5554\tdevice\nemulator-5556\toffline\n0a1b2c3d\tdevice\n\n";
    assert_eq!(parse_adb_serials(out), vec!["emulator-5554".to_string()]);
    assert!(parse_adb_serials("").is_empty());
    // The heading line itself is never taken, even if it looks like a device.
    assert!(parse_adb_serials("emulator-5554\tdevice\n").is_empty());
}

#[test]
fn avd_name_output_takes_first_line_trimmed() {
    assert_eq!(parse_avd_name_output("Pixel_6\r\nOK\n"), Some("Pixel_6".to_string()));
    assert_eq!(parse_avd_name_output(""), None);
}

#[test]
fn adb_detailed_listing_builds_running_devices() {
    let out = "List of devices attached\nemulator-5554 device product:sdk model:Pixel_6_API_33 device:emu64a\n0a1b2c3d device usb:1-1 model:Pixel_7\nbroken line\n";
    let devs = parse_adb_devices_l(out);
    assert_eq!(devs.len(), 2);
    assert_eq!(devs[0].id, "emulator-5554");
    assert_eq!(devs[0].name, "Pixel_6_API_33");
    assert!(matches!(devs[0].device_type, AndroidDeviceKind::RunningDevice));
    assert!(matches!(devs[0].state, DeviceState::Booted));
    assert_eq!(devs[1].id, "0a1b2c3d");
    assert_eq!(devs[1].name, "Pixel_7");
}

#[test]
fn adb_detailed_line_without_model_uses_serial() {
    let out = "List of devices attached\n0a1b2c3d device\n";
    let devs = parse_adb_devices_l(out);
    assert_eq!(devs.len(), 1);
    assert_eq!(devs[0].name, "0a1b2c3d");
}

#[test]
fn make_emulators_names_states_and_kinds() {
    let ids = vec!["Pixel_6".to_string(), "Nexus_5".to_string()];
    let names = vec![Some("Pixel 6".to_string()), None];
    let running = vec!["Nexus_5".to_string()];
    let devs = make_android_emulators(ids, names, &running);
    assert_eq!(devs.len(), 2);
    assert_eq!(devs[0].name, "Pixel 6");
    assert_eq!(devs[0].id, "Pixel_6");
    assert!(matches!(devs[0].state, DeviceState::Shutdown));
    assert!(matches!(devs[0].device_type, AndroidDeviceKind::Image));
    assert_eq!(devs[1].name, "Nexus_5");
    assert!(matches!(devs[1].state, DeviceState::Booted));
}

#[test]
fn directory_scan_pairs_descriptor_with_image_directory() {
    let files = vec!["Pixel_6.ini".to_string(), "stray.txt".to_string(), "Lone.ini".to_string()];
    let dirs = vec!["Pixel_6.avd".to_string()];
    assert_eq!(avd_stems_from_listing(&files, &dirs), vec!["Pixel_6".to_string()]);
}

#[test]
fn fallback_scan_builds_shutdown_image_entry() {
    // The listing tool's invocation failed; the directory scan found one
    // descriptor whose display name reads "Pixel 6".
    let stems = avd_stems_from_listing(
        &vec!["Pixel_6.ini".to_string()],
        &vec!["Pixel_6.avd".to_string()],
    );
    assert_eq!(stems, vec!["Pixel_6".to_string()]);
    let display = parse_avd_display_name("avd.ini.displayname=Pixel 6\n");
    let devs = make_android_emulators(stems, vec![display], &Vec::new());
    let listed = assemble_android(None, Some(devs), Err("adb devices failed: ".to_string()))
        .expect("directory scan should succeed");
    assert_eq!(listed.len(), 1);
    assert_eq!(listed[0].name, "Pixel 6");
    assert_eq!(listed[0].id, "Pixel_6");
    assert!(matches!(listed[0].device_type, AndroidDeviceKind::Image));
    assert!(matches!(listed[0].state, DeviceState::Shutdown));
}

#[test]
fn booted_devices_come_first_keeping_discovery_order() {
    let devs = vec![
        avd("a", "a", DeviceState::Shutdown),
        avd("b", "b", DeviceState::Booted),
        avd("c", "c", DeviceState::Shutdown),
        avd("d", "d", DeviceState::Booted),
    ];
    let sorted = sort_booted_first(devs);
    let order: Vec<&str> = sorted.iter().map(|e| e.name.as_str()).collect();
    assert_eq!(order, vec!["b", "d", "a", "c"]);
}

#[test]
fn tier_one_wins_and_is_sorted() {
    let tier1 = vec![avd("a", "a", DeviceState::Shutdown), avd("b", "b", DeviceState::Booted)];
    let listed = assemble_android(Some(tier1), None, Err("unused".to_string())).unwrap();
    let order: Vec<&str> = listed.iter().map(|e| e.name.as_str()).collect();
    assert_eq!(order, vec!["b", "a"]);
}

#[test]
fn empty_directory_scan_falls_through_to_adb() {
    let adb = vec![AndroidEmulator {
        name: "Pixel_7".to_string(),
        id: "0a1b2c3d".to_string(),
        device_type: AndroidDeviceKind::RunningDevice,
        state: DeviceState::Booted,
    }];
    let listed = assemble_android(None, Some(Vec::new()), Ok(adb)).unwrap();
    assert_eq!(listed.len(), 1);
    assert_eq!(listed[0].id, "0a1b2c3d");
}

#[test]
fn total_failure_surfaces_adb_error() {
    let err = assemble_android(None, None, Err("adb devices failed: boom".to_string()))
        .unwrap_err();
    assert_eq!(err, "adb devices failed: boom");
}

#[test]
fn failed_bridge_query_means_no_running_devices() {
    let table = "List of devices attached\nemulator-5554\tdevice\n";
    assert_eq!(
        running_device_serials(true, table),
        vec!["emulator-5554".to_string()]
    );
    assert!(running_device_serials(false, table).is_empty());
}
