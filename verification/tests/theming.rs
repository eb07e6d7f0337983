use emulaunch::config::ThemeOverrides;
use emulaunch::theme::{base_theme, parse_hex_color, resolve_theme, Rgb, ThemeName};

fn no_overrides() -> ThemeOverrides {
    ThemeOverrides {
        header_fg: None,
        name_fg: None,
        state_booted_fg: None,
        state_shutdown_fg: None,
        state_unknown_fg: None,
        meta_fg: None,
        filter_placeholder_fg: None,
        filter_active_fg: None,
        selection_bg: None,
        help_key_fg: None,
        help_text_fg: None,
    }
}

#[test]
fn theme_names_are_matched_case_insensitively() {
    assert!(matches!(ThemeName::from_str("Catppuccin Mocha"), ThemeName::CatppuccinMocha));
    assert!(matches!(ThemeName::from_str("catppuccin-latte"), ThemeName::CatppuccinLatte));
    assert!(matches!(ThemeName::from_str("DRACULA"), ThemeName::Dracula));
    assert!(matches!(ThemeName::from_str("TokyoNight"), ThemeName::TokyoNight));
    assert!(matches!(ThemeName::from_str("tokyo-night"), ThemeName::TokyoNight));
    assert!(matches!(ThemeName::from_str("gruvbox"), ThemeName::GruvboxDark));
    assert!(matches!(ThemeName::from_str("Nord"), ThemeName::Nord));
    assert!(matches!(ThemeName::from_str("no-such-theme"), ThemeName::Default));
}

#[test]
fn hex_colors_parse_exactly_six_digits_after_hash() {
    assert_eq!(parse_hex_color("#1e66f5"), Some(Rgb { r: 30, g: 102, b: 245 }));
    assert_eq!(parse_hex_color("#FFFFFF"), Some(Rgb { r: 255, g: 255, b: 255 }));
    assert_eq!(parse_hex_color("#000000"), Some(Rgb { r: 0, g: 0, b: 0 }));
    assert_eq!(parse_hex_color("1e66f5"), None);
    assert_eq!(parse_hex_color("#1e66f"), None);
    assert_eq!(parse_hex_color("#1e66f5a"), None);
    assert_eq!(parse_hex_color("#1e66g5"), None);
    assert_eq!(parse_hex_color(""), None);
}

#[test]
fn base_palettes_have_their_documented_colors() {
    let default = base_theme(ThemeName::Default);
    assert_eq!(default.header_fg, Rgb { r: 0, g: 205, b: 205 });
    assert_eq!(default.selection_bg, Rgb { r: 68, g: 68, b: 68 });
    let mocha = base_theme(ThemeName::CatppuccinMocha);
    assert_eq!(mocha.header_fg, Rgb { r: 137, g: 180, b: 250 });
    let nord = base_theme(ThemeName::Nord);
    assert_eq!(nord.help_text_fg, Rgb { r: 229, g: 233, b: 240 });
}

#[test]
fn resolution_defaults_without_name_or_overrides() {
    let colors = resolve_theme(None, None);
    assert_eq!(colors, base_theme(ThemeName::Default));
}

#[test]
fn overrides_replace_only_their_slot() {
    let mut ov = no_overrides();
    ov.header_fg = Some("#102030".to_string());
    let colors = resolve_theme(Some("nord"), Some(&ov));
    assert_eq!(colors.header_fg, Rgb { r: 16, g: 32, b: 48 });
    assert_eq!(colors.name_fg, base_theme(ThemeName::Nord).name_fg);
}

#[test]
fn unparseable_override_keeps_the_base_color() {
    let mut ov = no_overrides();
    ov.header_fg = Some("not-a-color".to_string());
    let colors = resolve_theme(Some("nord"), Some(&ov));
    assert_eq!(colors.header_fg, base_theme(ThemeName::Nord).header_fg);
}
