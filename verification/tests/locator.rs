use emulaunch::config::{
    get_adb_cmd, get_adb_paths, get_android_emulator_cmd, get_android_emulator_paths,
    get_config_paths, get_config_paths_display, get_xcrun_cmd, resolve_command, CandidateProbe,
    CommandNotFoundError, Platform, ResolutionProbes,
};

fn probe(cmd: &str, on_path: bool, is_file: bool) -> CandidateProbe {
    CandidateProbe { cmd: cmd.to_string(), on_path, is_file }
}

#[test]
fn config_tier_wins_when_accepted() {
    let pr = ResolutionProbes {
        config_cmd: Some(probe("/opt/custom/emulator", false, true)),
        env_cmd: Some(probe("env-emulator", true, false)),
        platform_paths: vec![probe("/home/u/Android/Sdk/emulator/emulator", false, true)],
        default_cmd: probe("emulator", true, false),
    };
    assert_eq!(resolve_command(&pr), Some("/opt/custom/emulator".to_string()));
}

#[test]
fn rejected_config_path_falls_through_to_env() {
    // The configured path neither exists as a file nor is on the search
    // path, so resolution proceeds to the environment override without
    // raising.
    let pr = ResolutionProbes {
        config_cmd: Some(probe("/opt/sdk/emulator", false, false)),
        env_cmd: Some(probe("env-emulator", true, false)),
        platform_paths: vec![],
        default_cmd: probe("emulator", false, false),
    };
    assert_eq!(resolve_command(&pr), Some("env-emulator".to_string()));
}

#[test]
fn platform_path_tier_takes_first_existing() {
    let pr = ResolutionProbes {
        config_cmd: None,
        env_cmd: None,
        platform_paths: vec![
            probe("/a/emulator", false, false),
            probe("/b/emulator", false, true),
            probe("/c/emulator", false, true),
        ],
        default_cmd: probe("emulator", true, false),
    };
    assert_eq!(resolve_command(&pr), Some("/b/emulator".to_string()));
}

#[test]
fn bare_name_is_last_resort() {
    let pr = ResolutionProbes {
        config_cmd: None,
        env_cmd: Some(probe("env-emulator", false, false)),
        platform_paths: vec![probe("/a/emulator", false, false)],
        default_cmd: probe("emulator", true, false),
    };
    assert_eq!(resolve_command(&pr), Some("emulator".to_string()));
}

#[test]
fn all_tiers_failing_resolves_nothing() {
    let pr = ResolutionProbes {
        config_cmd: Some(probe("/opt/sdk/emulator", false, false)),
        env_cmd: None,
        platform_paths: vec![probe("/a/emulator", false, false)],
        default_cmd: probe("emulator", false, false),
    };
    assert_eq!(resolve_command(&pr), None);
}

#[test]
fn android_error_carries_sdk_suggestion() {
    let pr = ResolutionProbes {
        config_cmd: None,
        env_cmd: None,
        platform_paths: vec![],
        default_cmd: probe("emulator", false, false),
    };
    match get_android_emulator_cmd(&pr) {
        Err(CommandNotFoundError::AndroidEmulator { suggestion }) => {
            assert!(suggestion.starts_with("Command not found in PATH or common locations"));
            assert!(suggestion.contains("Install Android SDK or add it to PATH."));
        }
        other => panic!("expected the Android emulator error, got {:?}", other),
    }
}

#[test]
fn adb_and_xcrun_errors_carry_their_suggestions() {
    let pr = ResolutionProbes {
        config_cmd: None,
        env_cmd: None,
        platform_paths: vec![],
        default_cmd: probe("adb", false, false),
    };
    match get_adb_cmd(&pr) {
        Err(CommandNotFoundError::Adb { suggestion }) => {
            assert!(suggestion.contains("Install Android SDK Platform-Tools or add it to PATH."));
        }
        other => panic!("expected the adb error, got {:?}", other),
    }
    match get_xcrun_cmd(&pr) {
        Err(CommandNotFoundError::Xcrun { suggestion }) => {
            assert!(suggestion.contains("Install Xcode Command Line Tools: xcode-select --install"));
        }
        other => panic!("expected the xcrun error, got {:?}", other),
    }
}

#[test]
fn ok_resolution_comes_back_through_each_tool() {
    let pr = ResolutionProbes {
        config_cmd: None,
        env_cmd: None,
        platform_paths: vec![],
        default_cmd: probe("adb", true, false),
    };
    assert_eq!(get_adb_cmd(&pr).unwrap(), "adb");
}

#[test]
fn error_message_names_tool_paths_and_variable() {
    let pr = ResolutionProbes {
        config_cmd: None,
        env_cmd: None,
        platform_paths: vec![],
        default_cmd: probe("emulator", false, false),
    };
    let err = get_android_emulator_cmd(&pr).unwrap_err();
    let msg = err.message("  /home/u/.config/emulaunch/config.toml");
    assert!(msg.starts_with("Android emulator command not found. "));
    assert!(msg.contains("Please configure it in your config file:\n  /home/u/.config/emulaunch/config.toml"));
    assert!(msg.ends_with("Or set the ANDROID_EMULATOR_CMD environment variable."));
}

#[test]
fn platform_paths_per_os() {
    assert_eq!(
        get_android_emulator_paths(Some("/home/u"), Platform::Linux),
        vec!["/home/u/Android/Sdk/emulator/emulator".to_string()]
    );
    assert_eq!(
        get_android_emulator_paths(Some("/Users/u"), Platform::MacOs),
        vec!["/Users/u/Library/Android/sdk/emulator/emulator".to_string()]
    );
    assert!(get_android_emulator_paths(None, Platform::Linux).is_empty());
    assert!(get_android_emulator_paths(Some("/home/u"), Platform::Other).is_empty());
    assert_eq!(
        get_adb_paths(Some("/home/u"), Platform::Linux),
        vec!["/home/u/Android/Sdk/platform-tools/adb".to_string()]
    );
}

#[test]
fn config_paths_dedup_platform_dir() {
    let paths = get_config_paths(Some("/home/u"), Some("/home/u/.config"));
    assert_eq!(
        paths,
        vec![
            "/home/u/.config/emulaunch/config.toml".to_string(),
            "/home/u/.emulaunch/config.toml".to_string(),
        ]
    );
    let paths = get_config_paths(Some("/Users/u"), Some("/Users/u/Library/Application Support"));
    assert_eq!(
        paths,
        vec![
            "/Users/u/.config/emulaunch/config.toml".to_string(),
            "/Users/u/Library/Application Support/emulaunch/config.toml".to_string(),
            "/Users/u/.emulaunch/config.toml".to_string(),
        ]
    );
    assert!(get_config_paths(None, Some("/etc")).is_empty());
}

#[test]
fn config_paths_display_is_indented_lines() {
    let paths = vec!["/a/config.toml".to_string(), "/b/config.toml".to_string()];
    assert_eq!(get_config_paths_display(&paths), "  /a/config.toml\n  /b/config.toml");
    assert_eq!(get_config_paths_display(&Vec::new()), "");
}
