use emulaunch::emulators::{AndroidDeviceKind, AndroidEmulator, DeviceState, EmulatorEntry};
use emulaunch::select::App;

fn device(name: &str) -> EmulatorEntry {
    EmulatorEntry::Android(AndroidEmulator {
        name: name.to_string(),
        id: name.to_string(),
        device_type: AndroidDeviceKind::Image,
        state: DeviceState::Shutdown,
    })
}

fn header(label: &str) -> EmulatorEntry {
    EmulatorEntry::SectionHeader(label.to_string())
}

fn sample() -> Vec<EmulatorEntry> {
    vec![header("Android"), device("Pixel 6"), device("Nexus 5")]
}

fn selected_name(app: &App) -> Option<String> {
    app.selected_entry().map(|e| e.display_name().to_string())
}

#[test]
fn new_state_shows_everything_and_selects_first_device() {
    let app = App::new(sample());
    assert_eq!(app.filtered_indices, vec![0, 1, 2]);
    assert_eq!(app.cursor, Some(1));
    assert_eq!(selected_name(&app), Some("Pixel 6".to_string()));
}

#[test]
fn filter_pix_keeps_header_and_matching_device() {
    // Filter text "pix" with entries [Header("Android"), Device("Pixel 6"),
    // Device("Nexus 5")]: the visible sequence keeps the header and
    // "Pixel 6", and the cursor lands on "Pixel 6".
    let mut app = App::new(sample());
    app.append_filter_char('p');
    app.append_filter_char('i');
    app.append_filter_char('x');
    assert_eq!(app.filter, "pix");
    assert_eq!(app.filtered_indices, vec![0, 1]);
    assert_eq!(selected_name(&app), Some("Pixel 6".to_string()));
}

#[test]
fn filtering_is_case_insensitive_both_ways() {
    let mut app = App::new(sample());
    app.append_filter_char('P');
    app.append_filter_char('I');
    app.append_filter_char('X');
    assert_eq!(app.filtered_indices, vec![0, 1]);
    assert_eq!(selected_name(&app), Some("Pixel 6".to_string()));
}

#[test]
fn header_disappears_when_no_device_in_its_section_matches() {
    let mut app = App::new(sample());
    for c in "zzz".chars() {
        app.append_filter_char(c);
    }
    assert!(app.filtered_indices.is_empty());
    assert_eq!(app.cursor, None);
    assert_eq!(selected_name(&app), None);
}

#[test]
fn append_then_remove_restores_filter_and_visible_indices() {
    let mut app = App::new(sample());
    app.append_filter_char('n');
    app.append_filter_char('e');
    let filter_before = app.filter.clone();
    let visible_before = app.filtered_indices.clone();
    app.append_filter_char('x');
    app.remove_filter_char();
    assert_eq!(app.filter, filter_before);
    assert_eq!(app.filtered_indices, visible_before);
}

#[test]
fn remove_on_empty_filter_is_a_no_op() {
    let mut app = App::new(sample());
    app.remove_filter_char();
    assert_eq!(app.filter, "");
    assert_eq!(app.filtered_indices, vec![0, 1, 2]);
}

#[test]
fn cursor_moves_without_wrapping() {
    let mut app = App::new(sample());
    assert_eq!(app.cursor, Some(1));
    app.move_selection(1);
    assert_eq!(app.cursor, Some(2));
    app.move_selection(1);
    assert_eq!(app.cursor, Some(2));
    app.move_selection(-1);
    assert_eq!(app.cursor, Some(1));
    app.move_selection(-1);
    assert_eq!(app.cursor, Some(1));
}

#[test]
fn cursor_never_rests_on_a_header() {
    let entries = vec![
        header("Android"),
        device("Pixel 6"),
        header("iOS"),
        device("iPhone 15"),
    ];
    let mut app = App::new(entries);
    let mut check = |app: &App| {
        if let Some(c) = app.cursor {
            let idx = app.filtered_indices[c];
            assert!(!app.entries[idx].is_header());
        }
    };
    check(&app);
    for c in "i1".chars() {
        app.append_filter_char(c);
        check(&app);
    }
    app.remove_filter_char();
    check(&app);
    app.remove_filter_char();
    check(&app);
    for delta in [1, 1, -1, 1, -1, -1] {
        app.move_selection(delta);
        check(&app);
    }
}

#[test]
fn moving_with_nothing_selectable_keeps_cursor_undefined() {
    let mut app = App::new(sample());
    for c in "qq".chars() {
        app.append_filter_char(c);
    }
    assert_eq!(app.cursor, None);
    app.move_selection(1);
    assert_eq!(app.cursor, None);
}

#[test]
fn selection_skips_headers_between_sections() {
    let entries = vec![
        header("Android"),
        device("Pixel 6"),
        header("iOS"),
        device("iPhone 15"),
    ];
    let mut app = App::new(entries);
    assert_eq!(app.cursor, Some(1));
    app.move_selection(1);
    assert_eq!(app.cursor, Some(3));
    assert_eq!(selected_name(&app), Some("iPhone 15".to_string()));
}
