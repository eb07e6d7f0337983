//! Color themes: the named base palettes, hex color parsing, theme name
//! lookup, and resolution of the final palette with per-slot overrides.

use vstd::prelude::*;

use crate::config::{opt_str_view, ThemeOverrides};
use crate::text::{lower_of, lowercase, push_char, str_eq};

verus! {

broadcast use vstd::seq_lib::group_seq_lib_default, vstd::seq::group_seq_axioms;

/// One terminal color as a red/green/blue triple.
#[derive(Clone, Copy, Debug, PartialEq, Eq, Structural)]
pub struct Rgb {
    pub r: u8,
    pub g: u8,
    pub b: u8,
}

/// All color slots the list view uses.
#[derive(Clone, Copy, Debug, PartialEq, Eq, Structural)]
pub struct ThemeColors {
    pub header_fg: Rgb,
    pub name_fg: Rgb,
    pub state_booted_fg: Rgb,
    pub state_shutdown_fg: Rgb,
    pub state_unknown_fg: Rgb,
    pub meta_fg: Rgb,
    pub filter_placeholder_fg: Rgb,
    pub filter_active_fg: Rgb,
    pub selection_bg: Rgb,
    pub help_key_fg: Rgb,
    pub help_text_fg: Rgb,
}

/// The named base palettes.
#[derive(Clone, Copy, Debug, PartialEq, Eq, Structural)]
pub enum ThemeName {
    Default,
    CatppuccinMocha,
    CatppuccinLatte,
    Dracula,
    TokyoNight,
    GruvboxDark,
    Nord,
}

/// Every character of `s` with `from` replaced by `to`.
pub open spec fn replace_char_spec(s: Seq<char>, from: char, to: char) -> Seq<char> {
    s.map_values(
        |c: char|
            if c == from {
                to
            } else {
                c
            },
    )
}

pub fn replace_char(s: &str, from: char, to: char) -> (r: String)
    ensures
        r@ == replace_char_spec(s@, from, to),
{
    let n = s.unicode_len();
    let mut out = String::new();
    let mut i: usize = 0;
    while i < n
        invariant
            n == s@.len(),
            0 <= i <= n,
            out@.len() == i,
            forall|k: int|
                0 <= k < i ==> out@[k] == (if s@[k] == from {
                    to
                } else {
                    s@[k]
                }),
        decreases n - i,
    {
        let c = s.get_char(i);
        if c == from {
            push_char(&mut out, to);
        } else {
            push_char(&mut out, c);
        }
        i = i + 1;
    }
    proof {
        assert(out@ =~= replace_char_spec(s@, from, to));
    }
    out
}

/// The palette a normalized theme key names; an unknown key falls back to
/// the default palette.
pub open spec fn theme_name_spec(key: Seq<char>) -> ThemeName {
    if key == "catppuccin-mocha"@ {
        ThemeName::CatppuccinMocha
    } else if key == "catppuccin-latte"@ {
        ThemeName::CatppuccinLatte
    } else if key == "dracula"@ {
        ThemeName::Dracula
    } else if key == "tokyo-night"@ || key == "tokyonight"@ {
        ThemeName::TokyoNight
    } else if key == "gruvbox-dark"@ || key == "gruvbox"@ {
        ThemeName::GruvboxDark
    } else if key == "nord"@ {
        ThemeName::Nord
    } else {
        ThemeName::Default
    }
}

impl ThemeName {
    /// Look a theme up by name, case-insensitively and with spaces as
    /// hyphens; unknown names give the default palette.
    pub fn from_str(s: &str) -> (r: ThemeName)
        ensures
            r == theme_name_spec(replace_char_spec(lower_of(s@), ' ', '-')),
    {
        let lowered = lowercase(s);
        let key = replace_char(lowered.as_str(), ' ', '-');
        if str_eq(key.as_str(), "catppuccin-mocha") {
            ThemeName::CatppuccinMocha
        } else if str_eq(key.as_str(), "catppuccin-latte") {
            ThemeName::CatppuccinLatte
        } else if str_eq(key.as_str(), "dracula") {
            ThemeName::Dracula
        } else if str_eq(key.as_str(), "tokyo-night") || str_eq(key.as_str(), "tokyonight") {
            ThemeName::TokyoNight
        } else if str_eq(key.as_str(), "gruvbox-dark") || str_eq(key.as_str(), "gruvbox") {
            ThemeName::GruvboxDark
        } else if str_eq(key.as_str(), "nord") {
            ThemeName::Nord
        } else {
            ThemeName::Default
        }
    }
}

/// The value of a hexadecimal digit, when the character is one.
pub open spec fn hex_val(c: char) -> Option<int> {
    if c == '0' {
        Some(0)
    } else if c == '1' {
        Some(1)
    } else if c == '2' {
        Some(2)
    } else if c == '3' {
        Some(3)
    } else if c == '4' {
        Some(4)
    } else if c == '5' {
        Some(5)
    } else if c == '6' {
        Some(6)
    } else if c == '7' {
        Some(7)
    } else if c == '8' {
        Some(8)
    } else if c == '9' {
        Some(9)
    } else if c == 'a' {
        Some(10)
    } else if c == 'b' {
        Some(11)
    } else if c == 'c' {
        Some(12)
    } else if c == 'd' {
        Some(13)
    } else if c == 'e' {
        Some(14)
    } else if c == 'f' {
        Some(15)
    } else if c == 'A' {
        Some(10)
    } else if c == 'B' {
        Some(11)
    } else if c == 'C' {
        Some(12)
    } else if c == 'D' {
        Some(13)
    } else if c == 'E' {
        Some(14)
    } else if c == 'F' {
        Some(15)
    } else {
        None
    }
}

pub fn hex_digit(c: char) -> (r: Option<u8>)
    ensures
        r is Some <==> hex_val(c) is Some,
        r matches Some(v) ==> hex_val(c) == Some(v as int) && v < 16,
{
    if c == '0' {
        Some(0)
    } else if c == '1' {
        Some(1)
    } else if c == '2' {
        Some(2)
    } else if c == '3' {
        Some(3)
    } else if c == '4' {
        Some(4)
    } else if c == '5' {
        Some(5)
    } else if c == '6' {
        Some(6)
    } else if c == '7' {
        Some(7)
    } else if c == '8' {
        Some(8)
    } else if c == '9' {
        Some(9)
    } else if c == 'a' {
        Some(10)
    } else if c == 'b' {
        Some(11)
    } else if c == 'c' {
        Some(12)
    } else if c == 'd' {
        Some(13)
    } else if c == 'e' {
        Some(14)
    } else if c == 'f' {
        Some(15)
    } else if c == 'A' {
        Some(10)
    } else if c == 'B' {
        Some(11)
    } else if c == 'C' {
        Some(12)
    } else if c == 'D' {
        Some(13)
    } else if c == 'E' {
        Some(14)
    } else if c == 'F' {
        Some(15)
    } else {
        None
    }
}

/// The color six hexadecimal digits after a hash sign denote; anything
/// else is rejected.
pub open spec fn parse_hex_color_spec(s: Seq<char>) -> Option<Rgb> {
    if s.len() != 7 || s[0] != '#' {
        None
    } else if hex_val(s[1]) is Some && hex_val(s[2]) is Some && hex_val(s[3]) is Some && hex_val(
        s[4],
    ) is Some && hex_val(s[5]) is Some && hex_val(s[6]) is Some {
        Some(
            Rgb {
                r: (hex_val(s[1]).unwrap() * 16 + hex_val(s[2]).unwrap()) as u8,
                g: (hex_val(s[3]).unwrap() * 16 + hex_val(s[4]).unwrap()) as u8,
                b: (hex_val(s[5]).unwrap() * 16 + hex_val(s[6]).unwrap()) as u8,
            },
        )
    } else {
        None
    }
}

/// Parse a hex color string: a hash sign and six hexadecimal digits.
pub fn parse_hex_color(s: &str) -> (r: Option<Rgb>)
    ensures
        r == parse_hex_color_spec(s@),
{
    let n = s.unicode_len();
    if n != 7 {
        return None;
    }
    if s.get_char(0) != '#' {
        return None;
    }
    let d1 = hex_digit(s.get_char(1));
    let d2 = hex_digit(s.get_char(2));
    let d3 = hex_digit(s.get_char(3));
    let d4 = hex_digit(s.get_char(4));
    let d5 = hex_digit(s.get_char(5));
    let d6 = hex_digit(s.get_char(6));
    match (d1, d2, d3, d4, d5, d6) {
        (Some(h1), Some(h2), Some(h3), Some(h4), Some(h5), Some(h6)) => Some(
            Rgb { r: h1 * 16 + h2, g: h3 * 16 + h4, b: h5 * 16 + h6 },
        ),
        _ => None,
    }
}

/// The fixed color values of each named palette.
pub open spec fn base_theme_spec(name: ThemeName) -> ThemeColors {
    match name {
        ThemeName::Default => ThemeColors {
            header_fg: Rgb { r: 0, g: 205, b: 205 },
            name_fg: Rgb { r: 0, g: 205, b: 0 },
            state_booted_fg: Rgb { r: 0, g: 205, b: 0 },
            state_shutdown_fg: Rgb { r: 205, g: 0, b: 0 },
            state_unknown_fg: Rgb { r: 205, g: 205, b: 0 },
            meta_fg: Rgb { r: 128, g: 128, b: 128 },
            filter_placeholder_fg: Rgb { r: 128, g: 128, b: 128 },
            filter_active_fg: Rgb { r: 229, g: 229, b: 229 },
            selection_bg: Rgb { r: 68, g: 68, b: 68 },
            help_key_fg: Rgb { r: 205, g: 205, b: 0 },
            help_text_fg: Rgb { r: 229, g: 229, b: 229 },
        },
        ThemeName::CatppuccinMocha => ThemeColors {
            header_fg: Rgb { r: 137, g: 180, b: 250 },
            name_fg: Rgb { r: 166, g: 227, b: 161 },
            state_booted_fg: Rgb { r: 166, g: 227, b: 161 },
            state_shutdown_fg: Rgb { r: 243, g: 139, b: 168 },
            state_unknown_fg: Rgb { r: 249, g: 226, b: 175 },
            meta_fg: Rgb { r: 147, g: 153, b: 178 },
            filter_placeholder_fg: Rgb { r: 147, g: 153, b: 178 },
            filter_active_fg: Rgb { r: 205, g: 214, b: 244 },
            selection_bg: Rgb { r: 69, g: 71, b: 90 },
            help_key_fg: Rgb { r: 245, g: 194, b: 231 },
            help_text_fg: Rgb { r: 186, g: 194, b: 222 },
        },
        ThemeName::CatppuccinLatte => ThemeColors {
            header_fg: Rgb { r: 30, g: 102, b: 245 },
            name_fg: Rgb { r: 64, g: 160, b: 43 },
            state_booted_fg: Rgb { r: 64, g: 160, b: 43 },
            state_shutdown_fg: Rgb { r: 210, g: 15, b: 57 },
            state_unknown_fg: Rgb { r: 223, g: 142, b: 29 },
            meta_fg: Rgb { r: 140, g: 143, b: 161 },
            filter_placeholder_fg: Rgb { r: 140, g: 143, b: 161 },
            filter_active_fg: Rgb { r: 76, g: 79, b: 105 },
            selection_bg: Rgb { r: 188, g: 192, b: 204 },
            help_key_fg: Rgb { r: 234, g: 118, b: 203 },
            help_text_fg: Rgb { r: 108, g: 111, b: 133 },
        },
        ThemeName::Dracula => ThemeColors {
            header_fg: Rgb { r: 139, g: 233, b: 253 },
            name_fg: Rgb { r: 80, g: 250, b: 123 },
            state_booted_fg: Rgb { r: 80, g: 250, b: 123 },
            state_shutdown_fg: Rgb { r: 255, g: 85, b: 85 },
            state_unknown_fg: Rgb { r: 241, g: 250, b: 140 },
            meta_fg: Rgb { r: 98, g: 114, b: 164 },
            filter_placeholder_fg: Rgb { r: 98, g: 114, b: 164 },
            filter_active_fg: Rgb { r: 248, g: 248, b: 242 },
            selection_bg: Rgb { r: 68, g: 71, b: 90 },
            help_key_fg: Rgb { r: 255, g: 121, b: 198 },
            help_text_fg: Rgb { r: 248, g: 248, b: 242 },
        },
        ThemeName::TokyoNight => ThemeColors {
            header_fg: Rgb { r: 125, g: 207, b: 255 },
            name_fg: Rgb { r: 158, g: 206, b: 106 },
            state_booted_fg: Rgb { r: 158, g: 206, b: 106 },
            state_shutdown_fg: Rgb { r: 247, g: 118, b: 142 },
            state_unknown_fg: Rgb { r: 224, g: 175, b: 104 },
            meta_fg: Rgb { r: 86, g: 95, b: 137 },
            filter_placeholder_fg: Rgb { r: 86, g: 95, b: 137 },
            filter_active_fg: Rgb { r: 169, g: 177, b: 214 },
            selection_bg: Rgb { r: 41, g: 46, b: 66 },
            help_key_fg: Rgb { r: 187, g: 154, b: 247 },
            help_text_fg: Rgb { r: 169, g: 177, b: 214 },
        },
        ThemeName::GruvboxDark => ThemeColors {
            header_fg: Rgb { r: 131, g: 165, b: 152 },
            name_fg: Rgb { r: 184, g: 187, b: 38 },
            state_booted_fg: Rgb { r: 184, g: 187, b: 38 },
            state_shutdown_fg: Rgb { r: 251, g: 73, b: 52 },
            state_unknown_fg: Rgb { r: 250, g: 189, b: 47 },
            meta_fg: Rgb { r: 146, g: 131, b: 116 },
            filter_placeholder_fg: Rgb { r: 146, g: 131, b: 116 },
            filter_active_fg: Rgb { r: 235, g: 219, b: 178 },
            selection_bg: Rgb { r: 80, g: 73, b: 69 },
            help_key_fg: Rgb { r: 211, g: 134, b: 155 },
            help_text_fg: Rgb { r: 213, g: 196, b: 161 },
        },
        ThemeName::Nord => ThemeColors {
            header_fg: Rgb { r: 136, g: 192, b: 208 },
            name_fg: Rgb { r: 163, g: 190, b: 140 },
            state_booted_fg: Rgb { r: 163, g: 190, b: 140 },
            state_shutdown_fg: Rgb { r: 191, g: 97, b: 106 },
            state_unknown_fg: Rgb { r: 235, g: 203, b: 139 },
            meta_fg: Rgb { r: 76, g: 86, b: 106 },
            filter_placeholder_fg: Rgb { r: 76, g: 86, b: 106 },
            filter_active_fg: Rgb { r: 216, g: 222, b: 233 },
            selection_bg: Rgb { r: 67, g: 76, b: 94 },
            help_key_fg: Rgb { r: 180, g: 142, b: 173 },
            help_text_fg: Rgb { r: 229, g: 233, b: 240 },
        },
    }
}

/// The base palette for a theme name.
pub fn base_theme(name: ThemeName) -> (r: ThemeColors)
    ensures
        r == base_theme_spec(name),
{
    match name {
        ThemeName::Default => ThemeColors {
            header_fg: Rgb { r: 0, g: 205, b: 205 },
            name_fg: Rgb { r: 0, g: 205, b: 0 },
            state_booted_fg: Rgb { r: 0, g: 205, b: 0 },
            state_shutdown_fg: Rgb { r: 205, g: 0, b: 0 },
            state_unknown_fg: Rgb { r: 205, g: 205, b: 0 },
            meta_fg: Rgb { r: 128, g: 128, b: 128 },
            filter_placeholder_fg: Rgb { r: 128, g: 128, b: 128 },
            filter_active_fg: Rgb { r: 229, g: 229, b: 229 },
            selection_bg: Rgb { r: 68, g: 68, b: 68 },
            help_key_fg: Rgb { r: 205, g: 205, b: 0 },
            help_text_fg: Rgb { r: 229, g: 229, b: 229 },
        },
        ThemeName::CatppuccinMocha => ThemeColors {
            header_fg: Rgb { r: 137, g: 180, b: 250 },
            name_fg: Rgb { r: 166, g: 227, b: 161 },
            state_booted_fg: Rgb { r: 166, g: 227, b: 161 },
            state_shutdown_fg: Rgb { r: 243, g: 139, b: 168 },
            state_unknown_fg: Rgb { r: 249, g: 226, b: 175 },
            meta_fg: Rgb { r: 147, g: 153, b: 178 },
            filter_placeholder_fg: Rgb { r: 147, g: 153, b: 178 },
            filter_active_fg: Rgb { r: 205, g: 214, b: 244 },
            selection_bg: Rgb { r: 69, g: 71, b: 90 },
            help_key_fg: Rgb { r: 245, g: 194, b: 231 },
            help_text_fg: Rgb { r: 186, g: 194, b: 222 },
        },
        ThemeName::CatppuccinLatte => ThemeColors {
            header_fg: Rgb { r: 30, g: 102, b: 245 },
            name_fg: Rgb { r: 64, g: 160, b: 43 },
            state_booted_fg: Rgb { r: 64, g: 160, b: 43 },
            state_shutdown_fg: Rgb { r: 210, g: 15, b: 57 },
            state_unknown_fg: Rgb { r: 223, g: 142, b: 29 },
            meta_fg: Rgb { r: 140, g: 143, b: 161 },
            filter_placeholder_fg: Rgb { r: 140, g: 143, b: 161 },
            filter_active_fg: Rgb { r: 76, g: 79, b: 105 },
            selection_bg: Rgb { r: 188, g: 192, b: 204 },
            help_key_fg: Rgb { r: 234, g: 118, b: 203 },
            help_text_fg: Rgb { r: 108, g: 111, b: 133 },
        },
        ThemeName::Dracula => ThemeColors {
            header_fg: Rgb { r: 139, g: 233, b: 253 },
            name_fg: Rgb { r: 80, g: 250, b: 123 },
            state_booted_fg: Rgb { r: 80, g: 250, b: 123 },
            state_shutdown_fg: Rgb { r: 255, g: 85, b: 85 },
            state_unknown_fg: Rgb { r: 241, g: 250, b: 140 },
            meta_fg: Rgb { r: 98, g: 114, b: 164 },
            filter_placeholder_fg: Rgb { r: 98, g: 114, b: 164 },
            filter_active_fg: Rgb { r: 248, g: 248, b: 242 },
            selection_bg: Rgb { r: 68, g: 71, b: 90 },
            help_key_fg: Rgb { r: 255, g: 121, b: 198 },
            help_text_fg: Rgb { r: 248, g: 248, b: 242 },
        },
        ThemeName::TokyoNight => ThemeColors {
            header_fg: Rgb { r: 125, g: 207, b: 255 },
            name_fg: Rgb { r: 158, g: 206, b: 106 },
            state_booted_fg: Rgb { r: 158, g: 206, b: 106 },
            state_shutdown_fg: Rgb { r: 247, g: 118, b: 142 },
            state_unknown_fg: Rgb { r: 224, g: 175, b: 104 },
            meta_fg: Rgb { r: 86, g: 95, b: 137 },
            filter_placeholder_fg: Rgb { r: 86, g: 95, b: 137 },
            filter_active_fg: Rgb { r: 169, g: 177, b: 214 },
            selection_bg: Rgb { r: 41, g: 46, b: 66 },
            help_key_fg: Rgb { r: 187, g: 154, b: 247 },
            help_text_fg: Rgb { r: 169, g: 177, b: 214 },
        },
        ThemeName::GruvboxDark => ThemeColors {
            header_fg: Rgb { r: 131, g: 165, b: 152 },
            name_fg: Rgb { r: 184, g: 187, b: 38 },
            state_booted_fg: Rgb { r: 184, g: 187, b: 38 },
            state_shutdown_fg: Rgb { r: 251, g: 73, b: 52 },
            state_unknown_fg: Rgb { r: 250, g: 189, b: 47 },
            meta_fg: Rgb { r: 146, g: 131, b: 116 },
            filter_placeholder_fg: Rgb { r: 146, g: 131, b: 116 },
            filter_active_fg: Rgb { r: 235, g: 219, b: 178 },
            selection_bg: Rgb { r: 80, g: 73, b: 69 },
            help_key_fg: Rgb { r: 211, g: 134, b: 155 },
            help_text_fg: Rgb { r: 213, g: 196, b: 161 },
        },
        ThemeName::Nord => ThemeColors {
            header_fg: Rgb { r: 136, g: 192, b: 208 },
            name_fg: Rgb { r: 163, g: 190, b: 140 },
            state_booted_fg: Rgb { r: 163, g: 190, b: 140 },
            state_shutdown_fg: Rgb { r: 191, g: 97, b: 106 },
            state_unknown_fg: Rgb { r: 235, g: 203, b: 139 },
            meta_fg: Rgb { r: 76, g: 86, b: 106 },
            filter_placeholder_fg: Rgb { r: 76, g: 86, b: 106 },
            filter_active_fg: Rgb { r: 216, g: 222, b: 233 },
            selection_bg: Rgb { r: 67, g: 76, b: 94 },
            help_key_fg: Rgb { r: 180, g: 142, b: 173 },
            help_text_fg: Rgb { r: 229, g: 233, b: 240 },
        },
    }
}

/// A slot's final color: the override when it parses as a hex color, the
/// base color otherwise.
pub open spec fn override_slot(base: Rgb, ov: Option<String>) -> Rgb {
    match ov {
        Some(h) => match parse_hex_color_spec(h@) {
            Some(c) => c,
            None => base,
        },
        None => base,
    }
}

/// The resolved palette: the named base theme (default when unnamed),
/// with each slot overridden by its parseable hex override.
pub open spec fn resolve_theme_spec(name: Option<Seq<char>>, ov: Option<ThemeOverrides>) -> ThemeColors {
    let base = base_theme_spec(
        match name {
            Some(s) => theme_name_spec(replace_char_spec(lower_of(s), ' ', '-')),
            None => ThemeName::Default,
        },
    );
    match ov {
        None => base,
        Some(o) => ThemeColors {
            header_fg: override_slot(base.header_fg, o.header_fg),
            name_fg: override_slot(base.name_fg, o.name_fg),
            state_booted_fg: override_slot(base.state_booted_fg, o.state_booted_fg),
            state_shutdown_fg: override_slot(base.state_shutdown_fg, o.state_shutdown_fg),
            state_unknown_fg: override_slot(base.state_unknown_fg, o.state_unknown_fg),
            meta_fg: override_slot(base.meta_fg, o.meta_fg),
            filter_placeholder_fg: override_slot(base.filter_placeholder_fg, o.filter_placeholder_fg),
            filter_active_fg: override_slot(base.filter_active_fg, o.filter_active_fg),
            selection_bg: override_slot(base.selection_bg, o.selection_bg),
            help_key_fg: override_slot(base.help_key_fg, o.help_key_fg),
            help_text_fg: override_slot(base.help_text_fg, o.help_text_fg),
        },
    }
}

/// A slot's final color, executably.
pub fn override_slot_exec(base: Rgb, ov: &Option<String>) -> (r: Rgb)
    ensures
        r == override_slot(base, *ov),
{
    match ov {
        Some(h) => match parse_hex_color(h.as_str()) {
            Some(c) => c,
            None => base,
        },
        None => base,
    }
}

/// Resolve the final theme: base palette plus optional per-slot
/// overrides.
pub fn resolve_theme(theme_name: Option<&str>, overrides: Option<&ThemeOverrides>) -> (r: ThemeColors)
    ensures
        r == resolve_theme_spec(
            opt_str_view(theme_name),
            match overrides {
                Some(o) => Some(*o),
                None => None,
            },
        ),
{
    let name = match theme_name {
        Some(s) => ThemeName::from_str(s),
        None => ThemeName::Default,
    };
    let base = base_theme(name);
    match overrides {
        None => base,
        Some(o) => ThemeColors {
                header_fg: override_slot_exec(base.header_fg, &o.header_fg),
                name_fg: override_slot_exec(base.name_fg, &o.name_fg),
                state_booted_fg: override_slot_exec(base.state_booted_fg, &o.state_booted_fg),
                state_shutdown_fg: override_slot_exec(base.state_shutdown_fg, &o.state_shutdown_fg),
                state_unknown_fg: override_slot_exec(base.state_unknown_fg, &o.state_unknown_fg),
                meta_fg: override_slot_exec(base.meta_fg, &o.meta_fg),
                filter_placeholder_fg: override_slot_exec(base.filter_placeholder_fg, &o.filter_placeholder_fg),
                filter_active_fg: override_slot_exec(base.filter_active_fg, &o.filter_active_fg),
                selection_bg: override_slot_exec(base.selection_bg, &o.selection_bg),
                help_key_fg: override_slot_exec(base.help_key_fg, &o.help_key_fg),
                help_text_fg: override_slot_exec(base.help_text_fg, &o.help_text_fg),
        },
    }
}

/// The color slot a device state is drawn with: booted and shutdown have
/// their own slots, any other state takes the unknown slot.
pub open spec fn state_color_spec(state: crate::emulators::DeviceState, theme: ThemeColors) -> Rgb {
    match state {
        crate::emulators::DeviceState::Booted => theme.state_booted_fg,
        crate::emulators::DeviceState::Shutdown => theme.state_shutdown_fg,
        crate::emulators::DeviceState::Available => theme.state_unknown_fg,
    }
}

pub fn state_color(state: crate::emulators::DeviceState, theme: &ThemeColors) -> (r: Rgb)
    ensures
        r == state_color_spec(state, *theme),
{
    match state {
        crate::emulators::DeviceState::Booted => theme.state_booted_fg,
        crate::emulators::DeviceState::Shutdown => theme.state_shutdown_fg,
        crate::emulators::DeviceState::Available => theme.state_unknown_fg,
    }
}

} // verus!
