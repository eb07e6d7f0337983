//! Configuration data and the tool locator: the four-tier precedence chain
//! that resolves each external tool command from a configured override, an
//! environment override, conventional install paths, and the bare tool
//! name.
//!
//! Whether a candidate is discoverable on the search path or exists as a
//! file is probed outside this crate; the probe outcomes are handed in as
//! plain values, and resolution is a pure choice over them.

use vstd::prelude::*;

use crate::text::str_eq;

verus! {

broadcast use vstd::seq_lib::group_seq_lib_default, vstd::seq::group_seq_axioms;

/// The user configuration, as the external configuration collaborator
/// hands it in.
#[derive(Clone, Debug)]
pub struct Config {
    pub android_emulator_cmd: Option<String>,
    pub adb_cmd: Option<String>,
    pub xcrun_cmd: Option<String>,
    pub theme: Option<String>,
    pub theme_overrides: Option<ThemeOverrides>,
}

/// Optional per-slot color overrides, each a hex color string.
#[derive(Clone, Debug)]
pub struct ThemeOverrides {
    pub header_fg: Option<String>,
    pub name_fg: Option<String>,
    pub state_booted_fg: Option<String>,
    pub state_shutdown_fg: Option<String>,
    pub state_unknown_fg: Option<String>,
    pub meta_fg: Option<String>,
    pub filter_placeholder_fg: Option<String>,
    pub filter_active_fg: Option<String>,
    pub selection_bg: Option<String>,
    pub help_key_fg: Option<String>,
    pub help_text_fg: Option<String>,
}

/// A tool that could not be located by any tier, with a remediation
/// suggestion.
#[derive(Clone, Debug)]
pub enum CommandNotFoundError {
    AndroidEmulator { suggestion: String },
    Adb { suggestion: String },
    Xcrun { suggestion: String },
}

/// The probe outcomes for one candidate command: whether it is
/// discoverable on the search path, and whether it exists as a file path.
#[derive(Clone, Debug)]
pub struct CandidateProbe {
    pub cmd: String,
    pub on_path: bool,
    pub is_file: bool,
}

/// All candidates of the locator chain for one tool, in tier order, each
/// with its probe outcomes.
#[derive(Clone, Debug)]
pub struct ResolutionProbes {
    pub config_cmd: Option<CandidateProbe>,
    pub env_cmd: Option<CandidateProbe>,
    pub platform_paths: Vec<CandidateProbe>,
    pub default_cmd: CandidateProbe,
}

/// A configured or environment override is accepted when it is on the
/// search path or exists as a file.
pub open spec fn override_accepted(p: CandidateProbe) -> bool {
    p.on_path || p.is_file
}

/// The first conventional install path that exists on disk.
pub open spec fn first_existing(paths: Seq<CandidateProbe>) -> Option<CandidateProbe>
    decreases paths.len(),
{
    if paths.len() == 0 {
        None
    } else if paths[0].is_file {
        Some(paths[0])
    } else {
        first_existing(paths.drop_first())
    }
}

/// The locator's choice: the first accepted tier wins — the configured
/// override, then the environment override, then the first existing
/// conventional path, then the bare name when it is on the search path.
pub open spec fn resolve_spec(pr: ResolutionProbes) -> Option<Seq<char>> {
    if pr.config_cmd is Some && override_accepted(pr.config_cmd.unwrap()) {
        Some(pr.config_cmd.unwrap().cmd@)
    } else if pr.env_cmd is Some && override_accepted(pr.env_cmd.unwrap()) {
        Some(pr.env_cmd.unwrap().cmd@)
    } else if first_existing(pr.platform_paths@) is Some {
        Some(first_existing(pr.platform_paths@).unwrap().cmd@)
    } else if pr.default_cmd.on_path {
        Some(pr.default_cmd.cmd@)
    } else {
        None
    }
}

/// Resolve one tool through the four-tier precedence chain; `None` means
/// every tier failed.
pub fn resolve_command(pr: &ResolutionProbes) -> (r: Option<String>)
    ensures
        match r {
            Some(s) => resolve_spec(*pr) == Some(s@),
            None => resolve_spec(*pr) is None,
        },
{
    if let Some(p) = &pr.config_cmd {
        if p.on_path || p.is_file {
            return Some(p.cmd.clone());
        }
    }
    if let Some(p) = &pr.env_cmd {
        if p.on_path || p.is_file {
            return Some(p.cmd.clone());
        }
    }
    let n = pr.platform_paths.len();
    let mut i: usize = 0;
    proof {
        assert(pr.platform_paths@.subrange(0, n as int) =~= pr.platform_paths@);
    }
    while i < n
        invariant
            n == pr.platform_paths@.len(),
            0 <= i <= n,
            !(pr.config_cmd is Some && override_accepted(pr.config_cmd.unwrap())),
            !(pr.env_cmd is Some && override_accepted(pr.env_cmd.unwrap())),
            first_existing(pr.platform_paths@) == first_existing(
                pr.platform_paths@.subrange(i as int, n as int),
            ),
        decreases n - i,
    {
        let ghost t = pr.platform_paths@.subrange(i as int, n as int);
        proof {
            assert(t[0] == pr.platform_paths@[i as int]);
            assert(t.drop_first() =~= pr.platform_paths@.subrange(i as int + 1, n as int));
        }
        if pr.platform_paths[i].is_file {
            return Some(pr.platform_paths[i].cmd.clone());
        }
        i = i + 1;
    }
    proof {
        assert(pr.platform_paths@.subrange(n as int, n as int) =~= Seq::<CandidateProbe>::empty());
    }
    if pr.default_cmd.on_path {
        return Some(pr.default_cmd.cmd.clone());
    }
    None
}

/// The failure text common to every tool, followed by the tool's own
/// installation advice.
pub open spec fn android_suggestion_spec() -> Seq<char> {
    "Command not found in PATH or common locations"@ + "\n\n"@
        + "Install Android SDK or add it to PATH.\nCommon locations:\n  macOS: ~/Library/Android/sdk/emulator/emulator\n  Linux: ~/Android/Sdk/emulator/emulator\n  Windows: %LOCALAPPDATA%\\Android\\Sdk\\emulator\\emulator.exe"@
}

pub open spec fn adb_suggestion_spec() -> Seq<char> {
    "Command not found in PATH or common locations"@ + "\n\n"@
        + "Install Android SDK Platform-Tools or add it to PATH.\nCommon locations:\n  macOS: ~/Library/Android/sdk/platform-tools/adb\n  Linux: ~/Android/Sdk/platform-tools/adb\n  Windows: %LOCALAPPDATA%\\Android\\Sdk\\platform-tools\\adb.exe"@
}

pub open spec fn xcrun_suggestion_spec() -> Seq<char> {
    "Command not found in PATH or common locations"@ + "\n\n"@
        + "Install Xcode Command Line Tools: xcode-select --install"@
}

/// Resolve the emulator-listing tool; when every tier fails, the error
/// carries the Android SDK remediation suggestion.
pub fn get_android_emulator_cmd(pr: &ResolutionProbes) -> (r: Result<String, CommandNotFoundError>)
    ensures
        match r {
            Ok(s) => resolve_spec(*pr) == Some(s@),
            Err(e) => resolve_spec(*pr) is None && (e matches CommandNotFoundError::AndroidEmulator {
                suggestion,
            } && suggestion@ == android_suggestion_spec()),
        },
{
    match resolve_command(pr) {
        Some(s) => Ok(s),
        None => {
            let mut m = String::new();
            m.append("Command not found in PATH or common locations");
            m.append("\n\n");
            m.append(
                "Install Android SDK or add it to PATH.\nCommon locations:\n  macOS: ~/Library/Android/sdk/emulator/emulator\n  Linux: ~/Android/Sdk/emulator/emulator\n  Windows: %LOCALAPPDATA%\\Android\\Sdk\\emulator\\emulator.exe",
            );
            proof {
                assert(m@ =~= android_suggestion_spec());
            }
            Err(CommandNotFoundError::AndroidEmulator { suggestion: m })
        },
    }
}

/// Resolve the device bridge tool; when every tier fails, the error
/// carries the platform-tools remediation suggestion.
pub fn get_adb_cmd(pr: &ResolutionProbes) -> (r: Result<String, CommandNotFoundError>)
    ensures
        match r {
            Ok(s) => resolve_spec(*pr) == Some(s@),
            Err(e) => resolve_spec(*pr) is None && (e matches CommandNotFoundError::Adb {
                suggestion,
            } && suggestion@ == adb_suggestion_spec()),
        },
{
    match resolve_command(pr) {
        Some(s) => Ok(s),
        None => {
            let mut m = String::new();
            m.append("Command not found in PATH or common locations");
            m.append("\n\n");
            m.append(
                "Install Android SDK Platform-Tools or add it to PATH.\nCommon locations:\n  macOS: ~/Library/Android/sdk/platform-tools/adb\n  Linux: ~/Android/Sdk/platform-tools/adb\n  Windows: %LOCALAPPDATA%\\Android\\Sdk\\platform-tools\\adb.exe",
            );
            proof {
                assert(m@ =~= adb_suggestion_spec());
            }
            Err(CommandNotFoundError::Adb { suggestion: m })
        },
    }
}

/// Resolve the platform simulator controller; when every tier fails, the
/// error carries the command-line-tools remediation suggestion.
pub fn get_xcrun_cmd(pr: &ResolutionProbes) -> (r: Result<String, CommandNotFoundError>)
    ensures
        match r {
            Ok(s) => resolve_spec(*pr) == Some(s@),
            Err(e) => resolve_spec(*pr) is None && (e matches CommandNotFoundError::Xcrun {
                suggestion,
            } && suggestion@ == xcrun_suggestion_spec()),
        },
{
    match resolve_command(pr) {
        Some(s) => Ok(s),
        None => {
            let mut m = String::new();
            m.append("Command not found in PATH or common locations");
            m.append("\n\n");
            m.append("Install Xcode Command Line Tools: xcode-select --install");
            proof {
                assert(m@ =~= xcrun_suggestion_spec());
            }
            Err(CommandNotFoundError::Xcrun { suggestion: m })
        },
    }
}

/// What the error's full message says: the tool, the suggestion, the
/// config locations, and the environment override to set.
pub open spec fn message_spec(e: CommandNotFoundError, paths: Seq<char>) -> Seq<char> {
    match e {
        CommandNotFoundError::AndroidEmulator { suggestion } => "Android emulator command not found. "@
            + suggestion@ + "\n\nPlease configure it in your config file:\n"@ + paths
            + "\n\nOr set the ANDROID_EMULATOR_CMD environment variable."@,
        CommandNotFoundError::Adb { suggestion } => "ADB command not found. "@ + suggestion@
            + "\n\nPlease configure it in your config file:\n"@ + paths
            + "\n\nOr set the ADB_CMD environment variable."@,
        CommandNotFoundError::Xcrun { suggestion } => "xcrun command not found. "@ + suggestion@
            + "\n\nPlease configure it in your config file:\n"@ + paths
            + "\n\nOr set the XCRUN_CMD environment variable."@,
    }
}

impl CommandNotFoundError {
    /// The full user-facing message, given the display of the config file
    /// locations.
    pub fn message(&self, paths_display: &str) -> (out: String)
        ensures
            out@ == message_spec(*self, paths_display@),
    {
        let mut out = String::new();
        match self {
            CommandNotFoundError::AndroidEmulator { suggestion } => {
                out.append("Android emulator command not found. ");
                out.append(suggestion.as_str());
                out.append("\n\nPlease configure it in your config file:\n");
                out.append(paths_display);
                out.append("\n\nOr set the ANDROID_EMULATOR_CMD environment variable.");
            },
            CommandNotFoundError::Adb { suggestion } => {
                out.append("ADB command not found. ");
                out.append(suggestion.as_str());
                out.append("\n\nPlease configure it in your config file:\n");
                out.append(paths_display);
                out.append("\n\nOr set the ADB_CMD environment variable.");
            },
            CommandNotFoundError::Xcrun { suggestion } => {
                out.append("xcrun command not found. ");
                out.append(suggestion.as_str());
                out.append("\n\nPlease configure it in your config file:\n");
                out.append(paths_display);
                out.append("\n\nOr set the XCRUN_CMD environment variable.");
            },
        }
        proof {
            assert(out@ =~= message_spec(*self, paths_display@));
        }
        out
    }
}

/// The host platform, as it decides the conventional install paths.
#[derive(Clone, Copy, Debug, PartialEq, Eq, Structural)]
pub enum Platform {
    MacOs,
    Linux,
    Windows,
    Other,
}

pub open spec fn opt_str_view(o: Option<&str>) -> Option<Seq<char>> {
    match o {
        Some(s) => Some(s@),
        None => None,
    }
}

/// The conventional emulator-tool install path for the platform, under the
/// home directory.
pub open spec fn android_emulator_paths_spec(home: Option<Seq<char>>, p: Platform) -> Seq<
    Seq<char>,
> {
    match home {
        None => seq![],
        Some(h) => match p {
            Platform::MacOs => seq![h + "/Library/Android/sdk/emulator/emulator"@],
            Platform::Linux => seq![h + "/Android/Sdk/emulator/emulator"@],
            Platform::Windows => seq![h + "/AppData/Local/Android/Sdk/emulator/emulator.exe"@],
            Platform::Other => seq![],
        },
    }
}

pub fn get_android_emulator_paths(home: Option<&str>, p: Platform) -> (r: Vec<String>)
    ensures
        r.deep_view() == android_emulator_paths_spec(opt_str_view(home), p),
{
    let mut r: Vec<String> = Vec::new();
    if let Some(h) = home {
        let mut s = String::new();
        s.append(h);
        match p {
            Platform::MacOs => s.append("/Library/Android/sdk/emulator/emulator"),
            Platform::Linux => s.append("/Android/Sdk/emulator/emulator"),
            Platform::Windows => s.append("/AppData/Local/Android/Sdk/emulator/emulator.exe"),
            Platform::Other => {
                proof {
                    assert(r.deep_view() =~= Seq::<Seq<char>>::empty());
                }
                return r;
            },
        }
        r.push(s);
        proof {
            assert(r.deep_view() =~= seq![r@[0]@]);
        }
    } else {
        proof {
            assert(r.deep_view() =~= Seq::<Seq<char>>::empty());
        }
    }
    r
}

/// The conventional bridge-tool install path for the platform, under the
/// home directory.
pub open spec fn adb_paths_spec(home: Option<Seq<char>>, p: Platform) -> Seq<Seq<char>> {
    match home {
        None => seq![],
        Some(h) => match p {
            Platform::MacOs => seq![h + "/Library/Android/sdk/platform-tools/adb"@],
            Platform::Linux => seq![h + "/Android/Sdk/platform-tools/adb"@],
            Platform::Windows => seq![h + "/AppData/Local/Android/Sdk/platform-tools/adb.exe"@],
            Platform::Other => seq![],
        },
    }
}

pub fn get_adb_paths(home: Option<&str>, p: Platform) -> (r: Vec<String>)
    ensures
        r.deep_view() == adb_paths_spec(opt_str_view(home), p),
{
    let mut r: Vec<String> = Vec::new();
    if let Some(h) = home {
        let mut s = String::new();
        s.append(h);
        match p {
            Platform::MacOs => s.append("/Library/Android/sdk/platform-tools/adb"),
            Platform::Linux => s.append("/Android/Sdk/platform-tools/adb"),
            Platform::Windows => s.append("/AppData/Local/Android/Sdk/platform-tools/adb.exe"),
            Platform::Other => {
                proof {
                    assert(r.deep_view() =~= Seq::<Seq<char>>::empty());
                }
                return r;
            },
        }
        r.push(s);
        proof {
            assert(r.deep_view() =~= seq![r@[0]@]);
        }
    } else {
        proof {
            assert(r.deep_view() =~= Seq::<Seq<char>>::empty());
        }
    }
    r
}

/// The ordered config file locations: the dot-config path, the platform
/// config directory's path when it differs, and the legacy dot-file path.
pub open spec fn config_paths_spec(home: Option<Seq<char>>, cfg: Option<Seq<char>>) -> Seq<
    Seq<char>,
> {
    match home {
        None => seq![],
        Some(h) => {
            let first = h + "/.config/emulaunch/config.toml"@;
            let legacy = h + "/.emulaunch/config.toml"@;
            match cfg {
                Some(c) => {
                    let plat = c + "/emulaunch/config.toml"@;
                    if plat == first {
                        seq![first, legacy]
                    } else {
                        seq![first, plat, legacy]
                    }
                },
                None => seq![first, legacy],
            }
        },
    }
}

pub fn get_config_paths(home: Option<&str>, config_dir: Option<&str>) -> (r: Vec<String>)
    ensures
        r.deep_view() == config_paths_spec(opt_str_view(home), opt_str_view(config_dir)),
{
    let mut r: Vec<String> = Vec::new();
    if let Some(h) = home {
        let mut first = String::new();
        first.append(h);
        first.append("/.config/emulaunch/config.toml");
        let mut legacy = String::new();
        legacy.append(h);
        legacy.append("/.emulaunch/config.toml");
        if let Some(c) = config_dir {
            let mut plat = String::new();
            plat.append(c);
            plat.append("/emulaunch/config.toml");
            if str_eq(plat.as_str(), first.as_str()) {
                r.push(first);
                r.push(legacy);
                proof {
                    assert(r.deep_view() =~= seq![r@[0]@, r@[1]@]);
                }
            } else {
                r.push(first);
                r.push(plat);
                r.push(legacy);
                proof {
                    assert(r.deep_view() =~= seq![r@[0]@, r@[1]@, r@[2]@]);
                }
            }
        } else {
            r.push(first);
            r.push(legacy);
            proof {
                assert(r.deep_view() =~= seq![r@[0]@, r@[1]@]);
            }
        }
    } else {
        proof {
            assert(r.deep_view() =~= Seq::<Seq<char>>::empty());
        }
    }
    r
}

/// The indented tail entries of the config locations display.
pub open spec fn paths_display_rest(ps: Seq<Seq<char>>) -> Seq<char>
    decreases ps.len(),
{
    if ps.len() == 0 {
        Seq::empty()
    } else {
        "\n"@ + "  "@ + ps[0] + paths_display_rest(ps.drop_first())
    }
}

/// The config locations, one per line, each indented by two spaces.
pub open spec fn paths_display_spec(ps: Seq<Seq<char>>) -> Seq<char> {
    if ps.len() == 0 {
        Seq::empty()
    } else {
        "  "@ + ps[0] + paths_display_rest(ps.drop_first())
    }
}

pub fn get_config_paths_display(paths: &Vec<String>) -> (out: String)
    ensures
        out@ == paths_display_spec(paths.deep_view()),
{
    let ghost all = paths.deep_view();
    let n = paths.len();
    let mut out = String::new();
    if n == 0 {
        proof {
            assert(out@ =~= paths_display_spec(all));
        }
        return out;
    }
    out.append("  ");
    out.append(paths[0].as_str());
    proof {
        assert(all[0] == paths@[0]@);
        assert(out@ =~= "  "@ + all[0]);
        assert(all.subrange(1, n as int) =~= all.drop_first());
    }
    let mut i: usize = 1;
    while i < n
        invariant
            all == paths.deep_view(),
            n == paths@.len(),
            n > 0,
            1 <= i <= n,
            paths_display_spec(all) == out@ + paths_display_rest(
                all.subrange(i as int, n as int),
            ),
        decreases n - i,
    {
        let ghost t = all.subrange(i as int, n as int);
        proof {
            assert(t[0] == all[i as int]);
            assert(all[i as int] == paths@[i as int]@);
            assert(t.drop_first() =~= all.subrange(i as int + 1, n as int));
        }
        let ghost before = out@;
        out.append("\n");
        out.append("  ");
        out.append(paths[i].as_str());
        proof {
            assert(out@ =~= before + ("\n"@ + "  "@ + t[0]));
            assert(before + paths_display_rest(t) =~= out@ + paths_display_rest(t.drop_first()));
        }
        i = i + 1;
    }
    proof {
        assert(all.subrange(n as int, n as int) =~= Seq::<Seq<char>>::empty());
        assert(out@ + paths_display_rest(all.subrange(n as int, n as int)) =~= out@);
    }
    out
}

} // verus!
