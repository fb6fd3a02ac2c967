use dsh_desktop::config::{EnvLookup, LauncherConfig, PlatformTarget};
use dsh_desktop::content_view::rectangles_overlap;
use dsh_desktop::discovery::{
    dsh_candidates, nvm_windows_version_dirs, resolve_dsh, windows_common_candidates,
    windows_extensions, ResolveAction, Surroundings,
};
use dsh_desktop::environment::{
    environment_key_eq, environment_value, extract_after_marker, first_non_empty_line,
    merge_environment, parse_env_output, should_overlay_shell_environment_key,
};
use dsh_desktop::login_shell::{
    default_login_shell_path, login_shell_attempt_plan, login_shell_base_environment,
    login_shell_candidates, LOGIN_SHELL_MARKER,
};
use dsh_desktop::opener::{
    english_launch_action_error, open_default, open_program_candidates, Opener, OpenerOutcome,
};
use dsh_desktop::path::{child, name_of};
use dsh_desktop::process::{dsh_command_matches, host_authority, parse_custom_args, service_url};
use dsh_desktop::profile::{
    discover_profiles, parse_dsh_theme_preference, validate_plugin_name,
};
use dsh_desktop::service::{extract_authenticated_url, ServiceManager, ServiceStatus};
use dsh_desktop::version::{
    extract_semver_token, parse_dsh_version, parse_semver_at, version_parse_error,
};

fn bytes(pairs: &[(&str, &str)]) -> Vec<(Vec<u8>, Vec<u8>)> {
    pairs
        .iter()
        .map(|(k, v)| (k.as_bytes().to_vec(), v.as_bytes().to_vec()))
        .collect()
}

fn strings(items: &[&str]) -> Vec<String> {
    items.iter().map(|item| item.to_string()).collect()
}

fn lookup_for(pairs: &[(&str, &str)]) -> EnvLookup {
    EnvLookup {
        pairs: pairs.iter().map(|(k, v)| (k.to_string(), v.to_string())).collect(),
    }
}

#[test]
fn default_status_is_stopped() {
    assert_eq!(ServiceStatus::default().phase, "stopped");
}

#[test]
fn extract_authenticated_url_parses_dsh_web_line() {
    let line = "dsh web: http://127.0.0.1:3080/?token=abc_-123 (LAN: http://192.168.50.197:3080/?token=abc_-123)";
    assert_eq!(
        extract_authenticated_url(line).as_deref(),
        Some("http://127.0.0.1:3080/?token=abc_-123")
    );
}

#[test]
fn extract_authenticated_url_rejects_non_token_lines() {
    assert_eq!(extract_authenticated_url("dsh web: http://127.0.0.1:3080"), None);
    assert_eq!(extract_authenticated_url("Health check passed"), None);
    assert_eq!(extract_authenticated_url(""), None);
}

#[test]
fn dsh_command_matches_plugin_restart_argv() {
    let config = LauncherConfig {
        profile: "web".into(),
        host: "127.0.0.1".into(),
        port: 3080,
        custom_args: "--no-open".into(),
        ..Default::default()
    };
    assert!(dsh_command_matches(
        "/Users/jockiller/.nvm/versions/node/v22.19.0/bin/node /Users/jockiller/.nvm/versions/node/v22.19.0/bin/dsh --profile web --host 127.0.0.1 --port 3080 --no-open",
        &config
    ));
    assert!(!dsh_command_matches(
        "node /usr/local/bin/dsh --profile other --host 127.0.0.1 --port 3080 --no-open",
        &config
    ));
    assert!(!dsh_command_matches(
        "node /usr/local/bin/dsh --profile web --host 127.0.0.1 --port 3081 --no-open",
        &config
    ));
    assert!(!dsh_command_matches(
        "node /usr/local/bin/dsh --profile web --host 127.0.0.1 --port 3080",
        &config
    ));
}

#[test]
fn profile_discovery_always_includes_web() {
    assert!(discover_profiles(None).iter().any(|profile| profile == "web"));
    let listed = vec![("zeta".to_string(), true), ("alpha".to_string(), true)];
    assert!(discover_profiles(Some(&listed)).iter().any(|profile| profile == "web"));
}

#[test]
fn plugin_name_validation_blocks_traversal_and_metacharacters() {
    assert!(validate_plugin_name("dsh-sound").is_ok());
    assert!(validate_plugin_name("@dickpy/dsh-cloud-sync").is_ok());
    assert!(validate_plugin_name("dsh-plugin-gptpro.v2_beta").is_ok());
    assert!(validate_plugin_name("").is_err());
    assert!(validate_plugin_name("../escape").is_err());
    assert!(validate_plugin_name("pkg/..").is_err());
    assert!(validate_plugin_name("pkg; rm -rf").is_err());
    assert!(validate_plugin_name("pkg name").is_err());
    assert!(validate_plugin_name("@scope/").is_err());
    assert!(validate_plugin_name("/pkg").is_err());
}

#[test]
fn dsh_theme_preference_parsing_matches_settings() {
    assert_eq!(
        parse_dsh_theme_preference("ui-theme:\n  preference: system"),
        "system"
    );
    assert_eq!(
        parse_dsh_theme_preference("ui-theme:\n  preference: dark"),
        "dark"
    );
    assert_eq!(
        parse_dsh_theme_preference("ui-theme:\n  preference: 'light'"),
        "light"
    );
    assert_eq!(
        parse_dsh_theme_preference("other:\n  preference: dark"),
        "system"
    );
    assert_eq!(parse_dsh_theme_preference(""), "system");
}

#[test]
fn custom_dsh_args_preserve_quoted_values() {
    assert_eq!(
        parse_custom_args("--no-open --trusted-host 'host name'").unwrap(),
        vec!["--no-open", "--trusted-host", "host name"]
    );
}

#[test]
fn custom_dsh_args_reject_unclosed_quotes() {
    assert!(parse_custom_args("--trusted-host 'broken").is_err());
}

#[test]
fn launcher_log_errors_are_english() {
    assert_eq!(
        english_launch_action_error("打开内置 WebView 失败：window error"),
        "Failed to open embedded WebView: window error"
    );
    assert_eq!(
        english_launch_action_error("未知错误"),
        "Post-launch action failed"
    );
}

#[test]
fn host_authority_supports_names_and_ipv6() {
    assert_eq!(host_authority("localhost", 3080), "localhost:3080");
    assert_eq!(host_authority("::1", 3080), "[::1]:3080");
    assert_eq!(host_authority("[::1]", 3080), "[::1]:3080");
    assert_eq!(service_url("::1", 3080), "http://[::1]:3080");
}

#[test]
fn saved_window_must_remain_visibly_on_screen() {
    assert!(rectangles_overlap(100, 100, 1180, 780, 0, 0, 1920, 1080));
    assert!(rectangles_overlap(-1100, 100, 1180, 780, 0, 0, 1920, 1080));
    assert!(!rectangles_overlap(-2000, 100, 1180, 780, 0, 0, 1920, 1080));
    assert!(!rectangles_overlap(2000, 100, 1180, 780, 0, 0, 1920, 1080));
}

#[test]
fn login_shell_candidates_prefer_env_shell_then_defaults() {
    let present = strings(&["/usr/bin/zsh", "/bin/bash"]);
    let candidates = login_shell_candidates(Some("/usr/bin/zsh"), &present);
    assert_eq!(candidates, vec!["/usr/bin/zsh", "/bin/bash"]);
}

#[test]
fn login_shell_candidates_skip_missing_and_blank_shell() {
    let present = strings(&["/bin/sh"]);
    assert_eq!(
        login_shell_candidates(Some("/does/not/exist"), &present),
        vec!["/bin/sh"]
    );
    assert_eq!(login_shell_candidates(Some("   "), &present), vec!["/bin/sh"]);
}

#[test]
fn login_shell_candidates_dedup_when_shell_matches_fallback() {
    let present = strings(&["/bin/bash"]);
    let candidates = login_shell_candidates(Some("/bin/bash"), &present);
    assert_eq!(candidates, vec!["/bin/bash"]);
}

#[test]
fn login_shell_attempt_plan_is_shell_major_with_fallback_args() {
    let shells = strings(&["/bin/zsh", "/bin/bash"]);
    let plan = login_shell_attempt_plan(&shells);
    assert_eq!(plan.len(), shells.len() * 2);
    assert_eq!(plan[0].shell, "/bin/zsh");
    assert_eq!(plan[0].login_args(), vec!["-li", "-c"]);
    assert_eq!(plan[1].shell, "/bin/zsh");
    assert_eq!(plan[1].login_args(), vec!["-c"], "同一 Shell 的第二参数组为裸 -c 兜底");
    assert_eq!(plan[2].shell, "/bin/bash");
    assert_eq!(plan[3].shell, "/bin/bash");
    assert!(plan
        .iter()
        .all(|attempt| attempt.login_args().last().map(String::as_str) == Some("-c")));
}

#[test]
fn env_output_parses_nul_separated_entries() {
    let raw = b"A=1\0PATH=/usr/bin:/bin\0EMPTY=\0BROKEN\0=NO_KEY\0";
    let entries = parse_env_output(raw);
    assert_eq!(entries.len(), 3, "无键或缺失 = 的片段应被丢弃");
    assert_eq!(entries[0], (b"A".to_vec(), b"1".to_vec()));
    assert_eq!(entries[1], (b"PATH".to_vec(), b"/usr/bin:/bin".to_vec()));
    assert_eq!(entries[2], (b"EMPTY".to_vec(), Vec::new()));
}

#[test]
fn env_output_keeps_equals_and_newlines_in_nul_mode() {
    let entries = parse_env_output(b"PATH=/a=b\0MULTI=line1\nline2\0");
    assert_eq!(entries[0], (b"PATH".to_vec(), b"/a=b".to_vec()));
    assert_eq!(entries[1], (b"MULTI".to_vec(), b"line1\nline2".to_vec()));
}

#[test]
fn env_output_falls_back_to_newline_separation_with_crlf() {
    let entries = parse_env_output(b"A=1\nPATH=/bin\r\nC=3\n");
    assert_eq!(entries, bytes(&[("A", "1"), ("PATH", "/bin"), ("C", "3")]));
}

#[test]
fn env_output_empty_input_yields_no_entries() {
    assert!(parse_env_output(b"").is_empty());
}

#[test]
fn clean_shell_environment_keeps_user_variables_and_uses_default_path() {
    let host = PlatformTarget::Unix;
    let original = bytes(&[
        ("HOME", "/home/demo"),
        ("PATH", "/gui/bin"),
        ("SHELL", "/bin/zsh"),
        ("LANG", "C.UTF-8"),
    ]);
    let environment =
        login_shell_base_environment(host, &original, "/bin/sh", "/tmp/dsh-launcher-test-env");
    for (key, value) in &original {
        if !environment_key_eq(host, key, b"PATH")
            && !environment_key_eq(host, key, b"SHELL")
            && !environment_key_eq(host, key, b"DSH_LAUNCHER_ENV_FILE")
        {
            assert_eq!(environment_value(host, &environment, key).as_ref(), Some(value));
        }
    }
    assert_eq!(
        environment_value(host, &environment, b"SHELL"),
        Some(b"/bin/sh".to_vec())
    );
    assert_eq!(
        environment_value(host, &environment, b"DSH_LAUNCHER_ENV_FILE"),
        Some(b"/tmp/dsh-launcher-test-env".to_vec())
    );
    assert_eq!(
        environment_value(host, &environment, b"PATH"),
        Some(default_login_shell_path(host).as_bytes().to_vec())
    );
}

#[test]
fn overlay_keys_cover_toolchain_not_launcher_secrets() {
    assert!(should_overlay_shell_environment_key(b"PATH"));
    assert!(should_overlay_shell_environment_key(b"PNPM_HOME"));
    assert!(should_overlay_shell_environment_key(b"NVM_DIR"));
    assert!(!should_overlay_shell_environment_key(b"HOME"));
    assert!(!should_overlay_shell_environment_key(b"DSH_HOME"));
    assert!(!should_overlay_shell_environment_key(b"DSH_LAUNCHER_ENV_FILE"));
}

#[test]
fn shell_environment_overlays_base_without_dropping_launcher_variables() {
    let mut base = bytes(&[
        ("PATH", "/gui/bin"),
        ("DSH_HOME", "/dsh"),
        ("LAUNCHER_ONLY", "kept"),
    ]);
    merge_environment(
        PlatformTarget::Unix,
        &mut base,
        &bytes(&[("PATH", "/shell/bin"), ("SHELL_ONLY", "added")]),
    );
    assert_eq!(
        base,
        bytes(&[
            ("PATH", "/shell/bin"),
            ("DSH_HOME", "/dsh"),
            ("LAUNCHER_ONLY", "kept"),
            ("SHELL_ONLY", "added"),
        ])
    );
}

#[test]
fn environment_key_matching_follows_platform_case_rules() {
    assert!(environment_key_eq(PlatformTarget::Unix, b"PATH", b"PATH"));
    assert!(environment_key_eq(PlatformTarget::Windows, b"Path", b"PATH"));
    assert!(!environment_key_eq(PlatformTarget::Unix, b"Path", b"PATH"));
}

#[test]
fn marker_extraction_skips_startup_noise() {
    let raw = b"neofetch banner\n__DSH_LAUNCHER_ENV__\nPATH=/bin\n";
    assert_eq!(
        extract_after_marker(raw, LOGIN_SHELL_MARKER),
        Some(b"PATH=/bin\n".to_vec())
    );
}

#[test]
fn marker_extraction_handles_crlf_and_missing_marker() {
    assert_eq!(
        extract_after_marker(b"noise\n__DSH_LAUNCHER_ENV__\r\nA=1", LOGIN_SHELL_MARKER),
        Some(b"A=1".to_vec())
    );
    assert_eq!(
        extract_after_marker(b"__DSH_LAUNCHER_ENV__A=x", LOGIN_SHELL_MARKER),
        Some(b"A=x".to_vec())
    );
    assert_eq!(extract_after_marker(b"no marker", LOGIN_SHELL_MARKER), None);
}

#[test]
fn first_non_empty_line_skips_blank_lines() {
    assert_eq!(
        first_non_empty_line(b"\n\n /usr/bin/dsh \n"),
        Some("/usr/bin/dsh".to_string())
    );
    assert_eq!(first_non_empty_line(b"  \n\t"), None);
    assert_eq!(first_non_empty_line(b""), None);
}

#[test]
fn open_candidates_add_gio_fallback_only_on_linux() {
    let linux = open_program_candidates(true);
    assert_eq!(linux.len(), 2);
    assert_eq!(linux[0], ("xdg-open", Vec::new()));
    assert_eq!(linux[1].0, "gio");
    assert_eq!(linux[1].1, vec!["open"]);

    let not_linux = open_program_candidates(false);
    assert_eq!(not_linux, vec![("xdg-open", Vec::new())]);
}

#[test]
fn opener_fallback_tries_next_only_on_definite_failure() {
    assert!(!OpenerOutcome::Opened.should_try_next());
    assert!(OpenerOutcome::Failed.should_try_next());
    assert!(!OpenerOutcome::TimedOut.should_try_next());
}

#[test]
fn opener_helpers_remain_well_typed_on_every_unix_target() {
    let _ = open_default as fn(PlatformTarget, bool, &str) -> Opener;
    assert_eq!(open_program_candidates(false).len(), 1);
}

#[test]
fn windows_extensions_prefer_exe_then_pathext_scripts() {
    assert_eq!(windows_extensions(None), vec![".exe", ".cmd", ".bat"]);
    assert_eq!(
        windows_extensions(Some(".COM;.EXE;.BAT;.CMD")),
        vec![".exe", ".bat", ".cmd"]
    );
    assert_eq!(
        windows_extensions(Some(".py;.CMD")),
        vec![".exe", ".cmd", ".bat"]
    );
    assert_eq!(windows_extensions(Some("CMD")), vec![".exe", ".cmd", ".bat"]);
}

#[test]
fn path_candidates_switch_between_platforms() {
    let dir = b"/tools";
    assert_eq!(
        dsh_candidates(PlatformTarget::Unix, dir, false, None),
        vec![b"/tools/dsh".to_vec()]
    );
    assert_eq!(
        dsh_candidates(PlatformTarget::Unix, dir, true, Some(".EXE;.CMD;.BAT")),
        vec![
            b"/tools/dsh.exe".to_vec(),
            b"/tools/dsh.cmd".to_vec(),
            b"/tools/dsh.bat".to_vec(),
        ]
    );
    assert_eq!(
        dsh_candidates(PlatformTarget::Windows, dir, true, Some(".EXE;.CMD;.BAT")),
        vec![
            b"/tools\\dsh.exe".to_vec(),
            b"/tools\\dsh.cmd".to_vec(),
            b"/tools\\dsh.bat".to_vec(),
        ]
    );
}

#[test]
fn manual_resolution_rejects_missing_paths() {
    let around = Surroundings {
        platform: PlatformTarget::Unix,
        path: None,
        home: None,
        pathext: None,
        vars: lookup_for(&[]),
    };
    for manual in ["   ", "/definitely/not/a/dsh/binary"] {
        let mut resolution = resolve_dsh(manual, &around);
        let found = loop {
            match resolution.action() {
                ResolveAction::IsFile(_) => resolution.checked(false),
                ResolveAction::AskShell => resolution.find_via_login_shell(None),
                ResolveAction::List(_) => resolution.versions_listed(&Vec::new()),
                ResolveAction::Finished(found) => break found,
            }
        };
        assert!(found.is_none());
    }
}

#[test]
fn windows_common_candidates_cover_npm_nvm_nodejs_and_scoop() {
    fn joined(host: PlatformTarget, base: &str, parts: &[&str]) -> Vec<u8> {
        let mut path = base.to_string();
        for part in parts {
            path = child(host, &path, part);
        }
        path.into_bytes()
    }
    let lookup = lookup_for(&[
        ("APPDATA", "C:\\Users\\demo\\AppData\\Roaming"),
        ("NVM_SYMLINK", "C:\\Program Files\\nodejs"),
        ("ProgramFiles", "C:\\Program Files"),
        ("USERPROFILE", "C:\\Users\\demo"),
    ]);
    let fallback = lookup_for(&[("USERPROFILE", "C:\\Users\\demo")]);
    for host in [PlatformTarget::Windows, PlatformTarget::MacOS, PlatformTarget::Unix] {
        let candidates = windows_common_candidates(host, &lookup, Some(".COM;.EXE;.CMD;.BAT"));
        for (base, parts) in [
            ("C:\\Users\\demo\\AppData\\Roaming", vec!["npm", "dsh.exe"]),
            ("C:\\Users\\demo\\AppData\\Roaming", vec!["npm", "dsh.cmd"]),
            ("C:\\Users\\demo\\AppData\\Roaming", vec!["npm", "dsh.bat"]),
            ("C:\\Program Files\\nodejs", vec!["dsh.exe"]),
            ("C:\\Program Files\\nodejs", vec!["dsh.cmd"]),
            ("C:\\Users\\demo", vec!["scoop", "shims", "dsh.exe"]),
            ("C:\\Users\\demo", vec![".npm-global", "dsh.cmd"]),
        ] {
            let expected = joined(host, base, &parts);
            assert!(
                candidates.contains(&expected),
                "缺少候选 {expected:?}，实际：{candidates:?}"
            );
        }
        let candidates = windows_common_candidates(host, &fallback, None);
        assert!(candidates.contains(&joined(
            host,
            "C:\\Users\\demo",
            &["AppData", "Roaming", "npm", "dsh.cmd"][..]
        )));
    }
}

#[test]
fn nvm_windows_version_dirs_sort_newest_first() {
    let entries = vec![
        (b"v20.11.0".to_vec(), true),
        (b"v22.19.0".to_vec(), true),
        (b"v9.11.2".to_vec(), true),
        (b"cache".to_vec(), true),
        (b"settings.txt".to_vec(), false),
    ];
    let dirs = nvm_windows_version_dirs(PlatformTarget::Unix, b"/nvm", &entries);
    assert_eq!(
        dirs.iter()
            .map(|dir| {
                let dir = std::str::from_utf8(dir).unwrap();
                name_of(PlatformTarget::Unix, dir).unwrap()
            })
            .collect::<Vec<_>>(),
        vec!["v9.11.2", "v22.19.0", "v20.11.0"]
    );
    assert_eq!(
        nvm_windows_version_dirs(PlatformTarget::Windows, b"C:\\nvm", &entries)[0],
        b"C:\\nvm\\v9.11.2"
    );
}

#[test]
fn semver_token_extracts_plain_prefixed_and_prerelease() {
    assert_eq!(extract_semver_token("1.2.5"), Some("1.2.5".into()));
    assert_eq!(extract_semver_token("v1.2.5"), Some("1.2.5".into()));
    assert_eq!(extract_semver_token("V1.2.5"), Some("1.2.5".into()));
    assert_eq!(
        extract_semver_token("v1.2.5-beta.2"),
        Some("1.2.5-beta.2".into())
    );
    assert_eq!(
        extract_semver_token("1.2.5+build.9"),
        Some("1.2.5+build.9".into())
    );
    assert_eq!(
        extract_semver_token("1.2.5-rc.1+build.9"),
        Some("1.2.5-rc.1+build.9".into())
    );
    assert_eq!(
        extract_semver_token("dsh 2.10.0 (requires node v18+)"),
        Some("2.10.0".into())
    );
}

#[test]
fn semver_token_rejects_addresses_paths_and_partial_numbers() {
    assert_eq!(extract_semver_token("http://127.0.0.1:3080"), None);
    assert_eq!(
        extract_semver_token("/root/.nvm/versions/node/v22.19.0/bin"),
        None
    );
    assert_eq!(extract_semver_token("1.2.3.4"), None);
    assert_eq!(extract_semver_token("1.2.3beta"), None);
    assert_eq!(
        extract_semver_token("version is 1.2.3."),
        Some("1.2.3".into())
    );
    assert_eq!(extract_semver_token("v01.2.3"), None);
    assert_eq!(extract_semver_token("1.2"), None);
    assert_eq!(extract_semver_token("no version here"), None);
    assert_eq!(extract_semver_token(""), None);
}

#[test]
fn dsh_version_output_prefers_stdout_then_stderr() {
    assert_eq!(
        parse_dsh_version("1.4.2\n", "warning: legacy mode\n"),
        Some("1.4.2".into())
    );
    assert_eq!(
        parse_dsh_version("", "v0.2.0-rc.1\n"),
        Some("0.2.0-rc.1".into())
    );
    assert_eq!(parse_dsh_version("   ", "\n"), None);
}

#[test]
fn version_parse_error_is_explicit_about_missing_version() {
    let error = version_parse_error("  ", "\n");
    assert!(error.contains("未返回任何输出"), "实际：{error}");
    let error = version_parse_error("hello\n", "world\n");
    assert!(error.contains("语义化版本"), "实际：{error}");
    assert!(error.contains("hello"), "实际：{error}");
    let error = version_parse_error(&"x".repeat(400), "");
    assert!(error.chars().count() < 400, "实际：{error}");
}

#[test]
fn service_manager_initializes_session_slots() {
    let manager = ServiceManager::new();
    assert!(manager.session_cancel.is_none());
    assert!(manager.session_credentials.is_none());
    assert!(manager.authenticated_url.is_none());
}

#[test]
fn a_path_that_begins_like_a_version_is_none() {
    assert_eq!(extract_semver_token("1.2.3/bin"), None);
    assert_eq!(parse_dsh_version("1.2.3/bin", ""), None);
    assert_eq!(parse_dsh_version("/opt/1.2.3", ""), None);
    assert_eq!(parse_dsh_version("1.2.3/bin 1.2.4", "").as_deref(), Some("1.2.4"));
    let text: Vec<char> = "1.2.3".chars().collect();
    assert_eq!(parse_semver_at(&text, 0), Some(5));
    assert_eq!(parse_semver_at(&text, 5), None);
    assert_eq!(parse_semver_at(&text, 99), None);
}
