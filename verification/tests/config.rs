use dsh_desktop::config::{
    current_platform, home_dir_for, platform_config_dir, AtomicWrite, EnvLookup, LaunchAction,
    LauncherConfig, PlatformTarget, WebviewWindowState, WriteAction,
};
use dsh_desktop::path::{child, name_of, parent_of};

fn lookup_for(pairs: &[(&str, &str)]) -> EnvLookup {
    EnvLookup {
        pairs: pairs.iter().map(|(k, v)| (k.to_string(), v.to_string())).collect(),
    }
}

#[test]
fn defaults_match_launcher_contract() {
    let config = LauncherConfig::default();
    assert_eq!(config.profile, "web");
    assert_eq!(config.host, "127.0.0.1");
    assert_eq!(config.port, 3080);
    assert!(matches!(config.launch_action, LaunchAction::EmbeddedWebview));
    assert_eq!(config.launch_action.name(), "embedded_webview");
    assert_eq!(config.custom_args, "--no-open");
    assert!(!config.auto_start);
    assert!(config.managed_runtime_dir.is_empty());
    assert!(config.validate().is_ok());
}

#[test]
fn home_resolution_follows_platform_contract() {
    let windows_lookup = lookup_for(&[("USERPROFILE", "C:\\Users\\demo")]);
    assert_eq!(
        home_dir_for(PlatformTarget::Windows, &windows_lookup),
        Some("C:\\Users\\demo".to_string())
    );
    let unix_lookup = lookup_for(&[("HOME", "/Users/demo")]);
    assert_eq!(
        home_dir_for(PlatformTarget::MacOS, &unix_lookup),
        Some("/Users/demo".to_string())
    );
    assert_eq!(
        home_dir_for(PlatformTarget::Unix, &unix_lookup),
        Some("/Users/demo".to_string())
    );
    assert_eq!(home_dir_for(PlatformTarget::Unix, &lookup_for(&[])), None);
    assert_eq!(
        home_dir_for(PlatformTarget::Unix, &lookup_for(&[("HOME", "")])),
        None
    );
}

#[test]
fn current_platform_matches_build_target() {
    assert!(matches!(current_platform("macos"), PlatformTarget::MacOS));
    assert!(matches!(current_platform("windows"), PlatformTarget::Windows));
    assert!(matches!(current_platform("linux"), PlatformTarget::Unix));
}

#[test]
fn config_dir_uses_appdata_on_windows() {
    let lookup = lookup_for(&[
        ("USERPROFILE", "C:\\Users\\demo"),
        ("APPDATA", "C:\\Users\\demo\\AppData\\Roaming"),
    ]);
    let fallback = lookup_for(&[("USERPROFILE", "C:\\Users\\demo")]);
    for host in [PlatformTarget::Windows, PlatformTarget::MacOS, PlatformTarget::Unix] {
        let dir = platform_config_dir(host, PlatformTarget::Windows, &lookup).unwrap();
        assert_eq!(
            parent_of(host, &dir),
            Some("C:\\Users\\demo\\AppData\\Roaming".to_string())
        );
        assert_eq!(name_of(host, &dir), Some("DSH Launcher".to_string()));
        let dir = platform_config_dir(host, PlatformTarget::Windows, &fallback).unwrap();
        let expected_base = child(host, &child(host, "C:\\Users\\demo", "AppData"), "Roaming");
        assert_eq!(parent_of(host, &dir), Some(expected_base));
        assert_eq!(name_of(host, &dir), Some("DSH Launcher".to_string()));
    }
}

#[test]
fn config_dir_keeps_macos_application_support() {
    let lookup = lookup_for(&[("HOME", "/Users/demo")]);
    assert_eq!(
        platform_config_dir(PlatformTarget::MacOS, PlatformTarget::MacOS, &lookup),
        Some("/Users/demo/Library/Application Support/DSH Launcher".to_string())
    );
}

#[test]
fn config_dir_honours_absolute_xdg_only() {
    let absolute = lookup_for(&[
        ("HOME", "/home/demo"),
        ("XDG_CONFIG_HOME", "/etc/dsh-config"),
    ]);
    assert_eq!(
        platform_config_dir(PlatformTarget::Unix, PlatformTarget::Unix, &absolute),
        Some("/etc/dsh-config/DSH Launcher".to_string())
    );
    let relative = lookup_for(&[("HOME", "/home/demo"), ("XDG_CONFIG_HOME", "relative/dir")]);
    assert_eq!(
        platform_config_dir(PlatformTarget::Unix, PlatformTarget::Unix, &relative),
        Some("/home/demo/.config/DSH Launcher".to_string())
    );
}

/// Runs a write against a disk in memory. A rename over a file fails where the platform
/// does not allow it, and from the `refuse`-th rename on every one fails.
fn run_write(
    write: &mut AtomicWrite,
    disk: &mut Vec<(String, u16)>,
    port: u16,
    windows: bool,
    refuse: usize,
) -> Result<(), String> {
    let mut renames = 0;
    loop {
        match write.action() {
            WriteAction::CreateDirectory(_) => write.advance(true),
            WriteAction::WriteFile(file) => {
                disk.retain(|(name, _)| name != &file);
                disk.push((file, port));
                write.advance(true);
            }
            WriteAction::Rename { from, to } => {
                renames += 1;
                let taken = disk.iter().any(|(name, _)| name == &to);
                if (windows && taken) || renames >= refuse {
                    write.advance(false);
                } else {
                    let value = disk.iter().find(|(name, _)| name == &from).unwrap().1;
                    disk.retain(|(name, _)| name != &from && name != &to);
                    disk.push((to, value));
                    write.advance(true);
                }
            }
            WriteAction::Exists(file) => {
                let there = disk.iter().any(|(name, _)| name == &file);
                write.advance(there);
            }
            WriteAction::Remove(file) => {
                disk.retain(|(name, _)| name != &file);
                write.advance(true);
            }
            WriteAction::Finished(result) => return result,
        }
    }
}

#[test]
fn atomic_save_replaces_existing_file() {
    for windows in [false, true] {
        let platform = if windows { PlatformTarget::Windows } else { PlatformTarget::Unix };
        let mut disk = Vec::new();
        let path = "/root/nested/config.json".to_string();
        let first = LauncherConfig::default();
        let mut write = AtomicWrite::new(platform, path.clone());
        run_write(&mut write, &mut disk, first.port, windows, 99).unwrap();
        let second = LauncherConfig {
            port: 3199,
            ..Default::default()
        };
        let mut write = AtomicWrite::new(platform, path.clone());
        run_write(&mut write, &mut disk, second.port, windows, 99).unwrap();
        assert_eq!(disk, vec![(path, 3199)]);
        assert!(!disk.iter().any(|(name, _)| name.ends_with("json.tmp")));
    }
}

#[test]
fn a_failed_replacement_keeps_a_complete_config() {
    let path = "C:\\conf\\config.json".to_string();
    let mut disk = vec![(path.clone(), 3080)];
    let mut write = AtomicWrite::new(PlatformTarget::Windows, path.clone());
    let result = run_write(&mut write, &mut disk, 3199, true, 2);
    assert!(result.is_err());
    assert_eq!(disk, vec![("C:\\conf\\config.json.tmp".to_string(), 3199)]);

    let mut disk = vec![("/conf/config.json".to_string(), 3080)];
    let mut write = AtomicWrite::new(PlatformTarget::Unix, "/conf/config.json".to_string());
    let result = run_write(&mut write, &mut disk, 3199, false, 1);
    assert!(result.is_err());
    assert_eq!(disk, vec![("/conf/config.json".to_string(), 3080)]);
}

#[test]
fn each_invalid_setting_has_its_complaint() {
    let valid = LauncherConfig::default();
    let no_profile = LauncherConfig { profile: "  ".into(), ..valid.clone() };
    assert_eq!(no_profile.validate().unwrap_err(), "Profile 不能为空");
    let no_host = LauncherConfig { host: "\t".into(), ..valid.clone() };
    assert_eq!(no_host.validate().unwrap_err(), "主机不能为空");
    let no_port = LauncherConfig { port: 0, ..valid.clone() };
    assert_eq!(no_port.validate().unwrap_err(), "端口必须在 1 到 65535 之间");
    assert!(valid.validate().is_ok());
}

#[test]
fn stored_config_is_used_and_nothing_stored_gives_the_default() {
    let stored = LauncherConfig { port: 4000, ..Default::default() };
    assert_eq!(LauncherConfig::load(Some(stored)).port, 4000);
    assert_eq!(LauncherConfig::load(None).port, 3080);
}

#[test]
fn files_are_stored_below_the_config_directory() {
    let lookup = lookup_for(&[("HOME", "/home/demo")]);
    let write = LauncherConfig::default().save(PlatformTarget::Unix, &lookup).unwrap();
    assert_eq!(write.target, "/home/demo/.config/DSH Launcher/config.json");
    assert_eq!(write.directory, "/home/demo/.config/DSH Launcher");
    let state = WebviewWindowState { x: 1, y: 2, width: 800, height: 600 };
    let plain = state.save(PlatformTarget::Unix, &lookup).unwrap();
    assert_eq!(plain.target, "/home/demo/.config/DSH Launcher/webview-window.json");
    assert_eq!(
        LauncherConfig::default().save(PlatformTarget::Unix, &lookup_for(&[])).unwrap_err(),
        "无法定位用户配置目录"
    );
    assert_eq!(
        state.save(PlatformTarget::Unix, &lookup_for(&[])).unwrap_err(),
        "无法定位用户配置目录"
    );
}

#[test]
fn launch_actions_have_their_stored_names() {
    assert_eq!(LaunchAction::Nothing.name(), "none");
    assert_eq!(LaunchAction::DefaultBrowser.name(), "default_browser");
    assert_eq!(LaunchAction::default().name(), "embedded_webview");
}

#[test]
fn a_named_config_directory_needs_no_home() {
    assert_eq!(
        platform_config_dir(
            PlatformTarget::Unix,
            PlatformTarget::Unix,
            &lookup_for(&[("XDG_CONFIG_HOME", "/etc/dsh-config")])
        )
        .as_deref(),
        Some("/etc/dsh-config/DSH Launcher")
    );
    assert_eq!(
        platform_config_dir(
            PlatformTarget::Unix,
            PlatformTarget::Unix,
            &lookup_for(&[("XDG_CONFIG_HOME", "etc")])
        ),
        None
    );
    assert_eq!(
        platform_config_dir(
            PlatformTarget::Windows,
            PlatformTarget::Windows,
            &lookup_for(&[("APPDATA", "C:\\Roaming")])
        )
        .as_deref(),
        Some("C:\\Roaming\\DSH Launcher")
    );
    assert_eq!(
        platform_config_dir(PlatformTarget::MacOS, PlatformTarget::MacOS, &lookup_for(&[])),
        None
    );
    assert_eq!(
        platform_config_dir(
            PlatformTarget::Unix,
            PlatformTarget::Windows,
            &lookup_for(&[("APPDATA", "C:\\Roaming")])
        )
        .as_deref(),
        Some("C:\\Roaming/DSH Launcher")
    );
}

#[test]
fn the_temporary_file_stands_beside_its_target() {
    for (platform, file, temporary) in [
        (PlatformTarget::Unix, "/a/config.json", "/a/config.json.tmp"),
        (PlatformTarget::Unix, "/a.b/config", "/a.b/config.json.tmp"),
        (PlatformTarget::Unix, "/a/x.y.old", "/a/x.y.json.tmp"),
        (PlatformTarget::Unix, "/a/.hidden", "/a/.hidden.json.tmp"),
        (PlatformTarget::Windows, "C:\\a\\config.json", "C:\\a\\config.json.tmp"),
    ] {
        let write = AtomicWrite::new(platform, file.to_string());
        assert_eq!(write.temporary, temporary);
    }
}
