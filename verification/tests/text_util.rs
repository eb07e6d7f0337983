use emulaunch::text::{
    contains_str, ends_with_str, lowercase, split_lines, split_whitespace_str, starts_with_str,
    str_eq, strip_prefix_str, trim_str, vec_contains_str,
};

#[test]
fn string_equality_is_by_characters() {
    assert!(str_eq("Pixel 6", "Pixel 6"));
    assert!(!str_eq("Pixel 6", "Pixel_6"));
    assert!(!str_eq("Pixel", "Pixel 6"));
    assert!(str_eq("", ""));
}

#[test]
fn substring_containment() {
    assert!(contains_str("pixel 6", "pix"));
    assert!(contains_str("pixel 6", ""));
    assert!(!contains_str("nexus 5", "pix"));
    assert!(!contains_str("pi", "pix"));
}

#[test]
fn prefix_and_suffix_checks() {
    assert!(starts_with_str("emulator-5554", "emulator-"));
    assert!(!starts_with_str("emu", "emulator-"));
    assert!(ends_with_str("Pixel_6.ini", ".ini"));
    assert!(!ends_with_str("Pixel_6.avd", ".ini"));
    assert_eq!(strip_prefix_str("model:Pixel_7", "model:"), Some("Pixel_7"));
    assert_eq!(strip_prefix_str("device", "model:"), None);
}

#[test]
fn trimming_strips_surrounding_whitespace() {
    assert_eq!(trim_str("  Pixel 6 \t"), "Pixel 6");
    assert_eq!(trim_str("Pixel"), "Pixel");
    assert_eq!(trim_str(" \t "), "");
    assert_eq!(trim_str(""), "");
}

#[test]
fn line_splitting_matches_the_standard_rules() {
    assert_eq!(split_lines("a\nb\nc"), vec!["a", "b", "c"]);
    assert_eq!(split_lines("a\r\nb\n"), vec!["a", "b"]);
    assert_eq!(split_lines("a\n\nb"), vec!["a", "", "b"]);
    assert!(split_lines("").is_empty());
}

#[test]
fn whitespace_tokenizing() {
    assert_eq!(
        split_whitespace_str("  emulator-5554 \t device  "),
        vec!["emulator-5554", "device"]
    );
    assert!(split_whitespace_str("   ").is_empty());
}

#[test]
fn lowercasing_goes_through_the_real_conversion() {
    assert_eq!(lowercase("Pixel 6"), "pixel 6");
    assert_eq!(lowercase("ÄPFEL"), "äpfel");
    assert_eq!(lowercase(""), "");
}

#[test]
fn membership_among_strings() {
    let v = vec!["Pixel_6".to_string(), "Nexus_5".to_string()];
    assert!(vec_contains_str(&v, "Nexus_5"));
    assert!(!vec_contains_str(&v, "Pixel"));
}
