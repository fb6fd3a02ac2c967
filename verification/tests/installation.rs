use dsh_desktop::config::PlatformTarget;
use dsh_desktop::install::{
    failure, npm_source_message, Doing, Install, InstallAction, InstallEvent, InstallNote,
    NpmAction, NpmEvent, NpmInstall, NpmStage, OperationGuard,
};
use dsh_desktop::managed::{
    check_dsh_version, check_latest_dsh, create_wrapper_for, digest_matches, download_percent,
    extract_archive, fetch_latest_dsh, fetch_release_notes, hex_of, is_lts, is_managed_dsh,
    legacy_managed_dsh_path, managed_status, node_file_key, release_notes_url,
    service_path_entries, shell_quote, validate_install_root, verify_sha256, with_notes,
    Installed, LatestAnswer, Marker, MarkerFile, NodeRelease, RootState, ZipTarget,
};
use dsh_desktop::process::command_tokens;
use dsh_desktop::upgrade::{
    MarkerAction, MarkerWrite, Migrate, MigrateAction, Upgrade, UpgradeStage,
};

const UNIX: PlatformTarget = PlatformTarget::Unix;

fn marker() -> Marker {
    Marker {
        schema: 1,
        node_version: "22.0.0".into(),
        dsh_version: "0.1.0".into(),
        use_mirror: false,
    }
}

fn release(version: &str, lts: bool) -> NodeRelease {
    NodeRelease {
        version: version.into(),
        lts,
        files: vec![node_file_key(UNIX, false).to_string()],
    }
}

const ARCHIVE: &[u8] = b"archive";

/// Drives an installation; the action with the number `fail_at` fails.
fn install_run(fail_at: usize) -> (Install, Vec<String>, Vec<String>) {
    let mut install = Install::install_managed(UNIX, false, "/opt/dsh", false);
    let mut files: Vec<String> = Vec::new();
    let mut told: Vec<String> = Vec::new();
    let mut step = 0;
    loop {
        step += 1;
        let fails = step == fail_at;
        let did = |ok: bool| if ok { Ok(()) } else { Err("broken".to_string()) };
        let event = match install.action() {
            InstallAction::PrepareRoot => InstallEvent::Root(if fails {
                RootState::Listed { empty: false }
            } else {
                RootState::Listed { empty: true }
            }),
            InstallAction::FetchReleases(url) => {
                assert_eq!(url, "https://nodejs.org/dist/index.json");
                InstallEvent::Releases(if fails {
                    Err("offline".into())
                } else {
                    Ok(vec![release("v23.0.0", false), release("v22.1.0", true)])
                })
            }
            InstallAction::MakeDir(_) => InstallEvent::Did(did(!fails)),
            InstallAction::Download { url, to } => {
                assert_eq!(
                    url,
                    "https://nodejs.org/dist/v22.1.0/node-v22.1.0-linux-x64.tar.gz"
                );
                assert!(to.starts_with("/opt/dsh/.dsh-launcher-staging/"));
                InstallEvent::Ran(did(!fails))
            }
            InstallAction::FetchText(url) => {
                assert_eq!(url, "https://nodejs.org/dist/v22.1.0/SHASUMS256.txt");
                InstallEvent::Text(if fails {
                    Err("offline".into())
                } else {
                    Ok(format!(
                        "{}  node-v22.1.0-linux-x64.tar.gz\n",
                        "d0ed64a26a64f5a95a3e7c6f8d8ed8ad56e7e2e8b6bd35b9ba23cd1e8b2f3f23"
                    ))
                })
            }
            InstallAction::ReadFile(_) => {
                install.checksum = hex_of(&sha(ARCHIVE)).into_iter().collect();
                InstallEvent::Bytes(Ok(if fails { b"forged".to_vec() } else { ARCHIVE.to_vec() }))
            }
            InstallAction::Extract { .. } => InstallEvent::Ran(did(!fails)),
            InstallAction::IsFile(file) => InstallEvent::Found(if file.ends_with(".json") {
                files.contains(&file)
            } else {
                !fails
            }),
            InstallAction::LatestDsh(url) => {
                assert_eq!(url, "https://registry.npmjs.org/@deepseek-ai%2Fdsh/latest");
                InstallEvent::Latest(LatestAnswer::Version("0.9.0".into()))
            }
            InstallAction::Npm(npm) => {
                assert!(npm.node_root.ends_with("extracted/node-v22.1.0-linux-x64"));
                assert!(npm.prefix.ends_with(".dsh-launcher-staging/dsh-runtime"));
                assert_eq!((npm.version.as_str(), npm.use_mirror), ("0.9.0", false));
                InstallEvent::Ran(did(!fails))
            }
            InstallAction::Rename { from, to } => {
                if !fails {
                    files.retain(|file| file != &from);
                    files.push(to);
                }
                InstallEvent::Did(did(!fails))
            }
            InstallAction::WriteScript { file, .. } => {
                files.push(file);
                InstallEvent::Ran(did(!fails))
            }
            InstallAction::Probe(_) => {
                InstallEvent::Text(Ok(if fails { "0.8.0".into() } else { "0.9.0".into() }))
            }
            InstallAction::WriteMarker(written) => {
                assert_eq!(written.node_version, "22.1.0");
                assert_eq!(written.dsh_version, "0.9.0");
                if !fails {
                    files.push("/opt/dsh/.dsh-launcher-managed.json".into());
                }
                InstallEvent::Ran(did(!fails))
            }
            InstallAction::RemoveDir(dir) => {
                files.retain(|file| !file.starts_with(&dir));
                InstallEvent::Did(Ok(()))
            }
            InstallAction::RemoveFile(gone) => {
                files.retain(|file| file != &gone);
                InstallEvent::Did(Ok(()))
            }
            InstallAction::Finished => return (install, files, told),
        };
        for note in install.advance(event) {
            if let InstallNote::Progress { phase, .. } = note {
                told.push(phase.to_string());
            }
        }
    }
}

fn sha(bytes: &[u8]) -> Vec<u8> {
    use_digest(bytes)
}

fn use_digest(bytes: &[u8]) -> Vec<u8> {
    <sha2::Sha256 as sha2::Digest>::digest(bytes).to_vec()
}

#[test]
fn an_installation_puts_everything_in_place() {
    let (install, files, told) = install_run(0);
    let status = install.outcome().unwrap();
    assert_eq!(status.node_version, "22.1.0");
    assert_eq!(status.dsh_version, "0.9.0");
    assert_eq!(status.dsh_path, "/opt/dsh/dsh");
    assert_eq!(status.managed_root, "/opt/dsh");
    assert_eq!(
        files,
        vec![
            "/opt/dsh/node",
            "/opt/dsh/dsh-runtime",
            "/opt/dsh/dsh",
            "/opt/dsh/.dsh-launcher-managed.json",
        ]
    );
    assert_eq!(
        told,
        vec!["metadata", "download", "verify", "extract", "install", "complete"]
    );
}

#[test]
fn a_failed_installation_leaves_nothing() {
    for (fail_at, expected) in [
        (1, "首次安装请选择空目录"),
        (2, "offline"),
        (3, "创建安装临时目录失败：broken"),
        (4, "broken"),
        (5, "offline"),
        (6, "Node 下载文件 SHA-256 校验失败"),
        (7, "创建解压目录失败：broken"),
        (8, "broken"),
        (9, "Node 压缩包缺少可执行文件"),
        (11, "broken"),
        (12, "启用 Node 失败：broken"),
        (13, "启用 DSH 失败：broken"),
        (14, "broken"),
        (15, "DSH 版本校验失败：期望 0.9.0，实际 0.8.0"),
        (16, "broken"),
    ] {
        let (install, files, told) = install_run(fail_at);
        assert_eq!(install.outcome().unwrap_err(), expected);
        assert!(files.is_empty(), "{fail_at}: {files:?}");
        assert!(!told.contains(&"complete".to_string()));
    }
    let install = Install::install_managed(UNIX, false, "relative", false);
    assert_eq!(install.outcome().unwrap_err(), "安装目录必须是绝对路径");
}

#[test]
fn a_checksum_is_compared_without_regard_to_case() {
    let abc = "ba7816bf8f01cfea414140de5dae2223b00361a396177a9cb410ff61f20015ad";
    assert!(verify_sha256(b"abc", abc).is_ok());
    assert!(verify_sha256(b"abc", &abc.to_uppercase()).is_ok());
    assert_eq!(verify_sha256(b"abd", abc).unwrap_err(), "Node 下载文件 SHA-256 校验失败");
    assert!(digest_matches(&[0xab, 0x01], "AB01"));
    assert_eq!(hex_of(&[0x0f, 0xa0]), vec!['0', 'f', 'a', '0']);
}

fn upgrade_run(fail_at: &[usize]) -> (Upgrade, Vec<(String, &'static str)>) {
    upgrade_from(marker(), fail_at)
}

fn upgrade_from(marker: Marker, fail_at: &[usize]) -> (Upgrade, Vec<(String, &'static str)>) {
    let use_mirror = marker.use_mirror;
    let mut upgrade = Upgrade::upgrade_managed(UNIX, "/opt/dsh", MarkerFile::Read(marker));
    let mut dirs: Vec<(String, &'static str)> = vec![("/opt/dsh/dsh-runtime".to_string(), "old")];
    let mut step = 0;
    loop {
        step += 1;
        let fails = fail_at.contains(&step);
        let did = |ok: bool| if ok { Ok(()) } else { Err("broken".to_string()) };
        let event = match upgrade.action() {
            InstallAction::RemoveDir(dir) => {
                dirs.retain(|(name, _)| name != &dir);
                InstallEvent::Did(Ok(()))
            }
            InstallAction::RemoveFile(_) => InstallEvent::Did(Ok(())),
            InstallAction::LatestDsh(url) => {
                assert_eq!(
                    url,
                    if use_mirror {
                        "https://registry.npmmirror.com/@deepseek-ai%2Fdsh/latest"
                    } else {
                        "https://registry.npmjs.org/@deepseek-ai%2Fdsh/latest"
                    }
                );
                InstallEvent::Latest(LatestAnswer::Version("0.9.0".into()))
            }
            InstallAction::Npm(npm) => {
                assert_eq!(npm.node_root, "/opt/dsh/node");
                assert_eq!(npm.version, "0.9.0");
                assert_eq!(npm.use_mirror, use_mirror);
                dirs.push((npm.prefix, "new"));
                InstallEvent::Ran(did(!fails))
            }
            InstallAction::WriteScript { file, script } => {
                assert_eq!(file, "/opt/dsh/.dsh-upgrade-check");
                assert!(script.contains(".dsh-upgrade-staging"));
                InstallEvent::Ran(did(!fails))
            }
            InstallAction::Probe(_) => {
                InstallEvent::Text(Ok(if fails { "0.1.0".into() } else { "0.9.0".into() }))
            }
            InstallAction::Rename { from, to } => {
                if !fails {
                    for entry in dirs.iter_mut() {
                        if entry.0 == from {
                            entry.0 = to.clone();
                        }
                    }
                }
                InstallEvent::Did(did(!fails))
            }
            InstallAction::WriteMarker(written) => {
                assert_eq!(written.dsh_version, "0.9.0");
                assert_eq!(written.use_mirror, use_mirror);
                InstallEvent::Ran(did(!fails))
            }
            InstallAction::Finished => return (upgrade, dirs),
            other => panic!("{other:?}"),
        };
        upgrade.advance(event);
    }
}

#[test]
fn an_upgrade_replaces_the_runtime() {
    let (upgrade, dirs) = upgrade_run(&[]);
    assert_eq!(upgrade.outcome().unwrap().dsh_version, "0.9.0");
    assert_eq!(dirs, vec![("/opt/dsh/dsh-runtime".to_string(), "new")]);
}

#[test]
fn an_upgrade_asks_the_source_of_the_installation() {
    let (upgrade, _) = upgrade_from(Marker { use_mirror: true, ..marker() }, &[]);
    let status = upgrade.outcome().unwrap();
    assert_eq!(status.dsh_version, "0.9.0");
    assert_eq!(status.node_version, "22.0.0");
    assert!(upgrade.marker.use_mirror);
}

#[test]
fn a_quoted_text_is_read_back_as_one_word() {
    for text in ["", "a b", "a'b", "''", "$HOME `x` \"y\"", "back\\slash", "two\nlines", "#", "'"] {
        assert_eq!(command_tokens(&shell_quote(text)), vec![text]);
    }
}

#[test]
fn only_false_is_no_long_term_support() {
    let value = |text: &str| serde_json::from_str::<serde_json::Value>(text).unwrap();
    assert!(!is_lts(&value("false")));
    for text in ["\"Jod\"", "true", "null", "0", "[]"] {
        assert!(is_lts(&value(text)), "{text}");
    }
}

#[test]
fn a_failed_upgrade_keeps_the_old_runtime() {
    let kept = vec![("/opt/dsh/dsh-runtime".to_string(), "old")];
    for (fail_at, expected) in [
        (5, "broken"),
        (6, "broken"),
        (7, "DSH 版本校验失败：期望 0.9.0，实际 0.1.0"),
        (8, "切换 DSH 版本失败：broken。如遇文件占用，请停止服务后重试"),
        (9, "启用新版 DSH 失败：broken"),
        (10, "broken"),
    ] {
        let (upgrade, dirs) = upgrade_run(&[fail_at]);
        assert_eq!(upgrade.outcome().unwrap_err(), expected);
        assert_eq!(dirs, kept, "{fail_at}");
    }
    let (upgrade, dirs) = upgrade_run(&[10, 11]);
    assert_eq!(
        upgrade.outcome().unwrap_err(),
        "broken；回滚准备失败：broken。旧版仍保留在 /opt/dsh/.dsh-upgrade-backup"
    );
    assert!(dirs.contains(&("/opt/dsh/.dsh-upgrade-backup".to_string(), "old")));
    let (upgrade, dirs) = upgrade_run(&[10, 12]);
    assert_eq!(
        upgrade.outcome().unwrap_err(),
        "broken；恢复旧版失败：broken。旧版仍保留在 /opt/dsh/.dsh-upgrade-backup"
    );
    assert!(dirs.contains(&("/opt/dsh/.dsh-upgrade-backup".to_string(), "old")));
    assert!(dirs.contains(&("/opt/dsh/dsh-runtime".to_string(), "new")));
    let upgrade = Upgrade::upgrade_managed(UNIX, "/opt/dsh", MarkerFile::Missing);
    assert!(matches!(upgrade.stage, UpgradeStage::Done));
    assert_eq!(upgrade.outcome().unwrap_err(), "该目录不是 Launcher 托管的运行环境");
}

struct Layout {
    marker: bool,
    legacy: bool,
    runtime: bool,
    entry: bool,
    old_entry: bool,
}

fn migrate(layout: &mut Layout, entry_fails: bool) -> Result<String, String> {
    let mut migrate = Migrate::migrate_layout(UNIX, "/opt/dsh");
    loop {
        let event = match migrate.action() {
            MigrateAction::IsFile(file) => InstallEvent::Found(match file.as_str() {
                "/opt/dsh/.dsh-launcher-managed.json" => layout.marker,
                "/opt/dsh/dsh" => layout.entry,
                "/opt/dsh/dsh-managed" => layout.old_entry,
                _ => layout.runtime,
            }),
            MigrateAction::IsDir(_) => InstallEvent::Found(layout.legacy),
            MigrateAction::Exists(path) => InstallEvent::Found(if path.ends_with("dsh-runtime") {
                layout.runtime
            } else {
                layout.entry
            }),
            MigrateAction::Rename { from, .. } => {
                let forth = from == "/opt/dsh/dsh";
                layout.legacy = !forth;
                layout.runtime = forth;
                InstallEvent::Did(Ok(()))
            }
            MigrateAction::WriteScript { file, script } => {
                assert!(script.contains("/opt/dsh/dsh-runtime/"));
                if file == "/opt/dsh/dsh" {
                    layout.entry = true;
                    if entry_fails {
                        InstallEvent::Ran(Err("full".into()))
                    } else {
                        InstallEvent::Ran(Ok(()))
                    }
                } else {
                    layout.old_entry = true;
                    InstallEvent::Ran(Ok(()))
                }
            }
            MigrateAction::RemoveFile(file) => {
                assert_eq!(file, "/opt/dsh/dsh");
                layout.entry = false;
                InstallEvent::Did(Ok(()))
            }
            MigrateAction::Finished => return migrate.outcome(),
        };
        migrate.advance(event);
    }
}

#[test]
fn an_old_layout_is_migrated_once_or_not_at_all() {
    let old = || Layout {
        marker: true,
        legacy: true,
        runtime: false,
        entry: false,
        old_entry: true,
    };
    let mut layout = old();
    assert_eq!(migrate(&mut layout, false).unwrap(), "/opt/dsh/dsh");
    assert!(layout.runtime && layout.entry && !layout.legacy);
    assert_eq!(migrate(&mut layout, false).unwrap(), "/opt/dsh/dsh");
    assert!(layout.runtime && layout.entry && !layout.legacy);

    let mut layout = old();
    assert_eq!(migrate(&mut layout, true).unwrap_err(), "重建 dsh 入口失败：full");
    assert!(layout.legacy && !layout.runtime && !layout.entry);

    let mut layout = Layout { runtime: true, ..old() };
    assert_eq!(
        migrate(&mut layout, false).unwrap_err(),
        "托管目录状态异常：/opt/dsh/dsh 与 /opt/dsh/dsh-runtime 同时存在，请手动整理后重试"
    );
    let mut layout = Layout { marker: false, ..old() };
    assert!(migrate(&mut layout, false).is_ok());
    assert!(layout.legacy && !layout.runtime);
}

#[test]
fn a_marker_is_renamed_into_its_place() {
    let mut write = MarkerWrite::write_marker(PlatformTarget::Windows, "C:\\dsh");
    assert!(matches!(write.action(), MarkerAction::WriteTo(_)));
    write.advance(InstallEvent::Did(Ok(())));
    assert!(matches!(write.action(), MarkerAction::Exists(_)));
    write.advance(InstallEvent::Found(true));
    assert!(matches!(write.action(), MarkerAction::RemoveFile(_)));
    write.advance(InstallEvent::Did(Err("locked".into())));
    assert!(matches!(write.action(), MarkerAction::Finished));
    assert_eq!(write.error.as_deref(), Some("替换旧托管环境标记失败：locked"));

    let mut write = MarkerWrite::write_marker(UNIX, "/opt/dsh");
    write.advance(InstallEvent::Did(Ok(())));
    match write.action() {
        MarkerAction::Rename { from, to } => {
            assert_eq!(from, "/opt/dsh/.dsh-launcher-managed.json.tmp");
            assert_eq!(to, "/opt/dsh/.dsh-launcher-managed.json");
        }
        other => panic!("{other:?}"),
    }
    write.advance(InstallEvent::Did(Ok(())));
    assert!(write.error.is_none());
}

#[test]
fn npm_runs_and_its_result_is_tidied() {
    let mut npm = NpmInstall {
        host: UNIX,
        node_root: "/n".into(),
        prefix: "/p".into(),
        use_mirror: true,
        version: "0.9.0".into(),
        stage: NpmStage::MakePrefix,
    };
    let mut seen = Vec::new();
    let result = loop {
        let event = match npm.action() {
            NpmAction::MakeDir(dir) => {
                seen.push(format!("mkdir {dir}"));
                NpmEvent::Did(Ok(()))
            }
            NpmAction::Run { program, args } => {
                assert_eq!(program, "/n/bin/node");
                assert!(args.contains(&"@deepseek-ai/dsh@0.9.0".to_string()), "{args:?}");
                assert!(args.iter().any(|arg| arg.contains("registry.npmmirror.com")));
                seen.push("run".into());
                NpmEvent::Did(Ok(()))
            }
            NpmAction::Watch => {
                NpmEvent::Exited { success: true, status: "exit status: 0".into() }
            }
            NpmAction::Kill => NpmEvent::Did(Ok(())),
            NpmAction::Rename { .. } | NpmAction::RemoveDir(_) => NpmEvent::Did(Ok(())),
            NpmAction::IsFile(file) => {
                assert_eq!(file, "/p/node_modules/@deepseek-ai/dsh/lib/bin.js");
                NpmEvent::Found(true)
            }
            NpmAction::Finished => match npm.stage {
                NpmStage::Done(result) => break result,
                other => panic!("{other:?}"),
            },
        };
        npm.npm_install(event);
    };
    assert!(result.is_ok());
    assert!(seen.contains(&"run".to_string()));
    assert_eq!(
        npm_source_message(true),
        "正在使用 npm 源安装 DSH：https://registry.npmmirror.com"
    );
}

#[test]
fn only_one_operation_at_a_time() {
    let mut guard = OperationGuard { active: false };
    assert!(guard.acquire().is_ok());
    assert_eq!(guard.acquire().unwrap_err(), "已有安装或升级任务正在进行");
    guard.release();
    assert!(guard.acquire().is_ok());
    assert_eq!(failure(Doing::RunNpm, "x"), "执行 npm 安装失败：x");
}

#[test]
fn an_installation_is_recognised_by_its_marker_and_files() {
    let all = || Installed { node: true, runtime: true, entry: true };
    let status = managed_status(UNIX, "/opt/dsh", MarkerFile::Read(marker()), all()).unwrap();
    assert_eq!(status.dsh_path, "/opt/dsh/dsh");
    assert!(managed_status(UNIX, "/opt/dsh", MarkerFile::Missing, all()).is_err());
    assert!(managed_status(
        UNIX,
        "/opt/dsh",
        MarkerFile::Broken("eof".into()),
        all()
    )
    .unwrap_err()
    .contains("托管环境标记损坏：eof"));
    assert!(managed_status(
        UNIX,
        "/opt/dsh",
        MarkerFile::Read(marker()),
        Installed { node: false, ..all() }
    )
    .is_err());
    assert!(is_managed_dsh(
        UNIX,
        b"/opt/dsh/dsh",
        Some("/opt/dsh"),
        MarkerFile::Read(marker()),
        all()
    ));
    assert!(!is_managed_dsh(
        UNIX,
        b"/usr/bin/dsh",
        Some("/opt/dsh"),
        MarkerFile::Read(marker()),
        all()
    ));
    assert_eq!(legacy_managed_dsh_path(UNIX, "/opt/dsh"), "/opt/dsh/dsh-managed");
    assert_eq!(
        service_path_entries(UNIX, b"/opt/dsh/dsh", true),
        vec![b"/opt/dsh".to_vec(), b"/opt/dsh/node/bin".to_vec()]
    );
    assert_eq!(service_path_entries(UNIX, b"/usr/bin/dsh", false), vec![b"/usr/bin".to_vec()]);
    assert_eq!(
        service_path_entries(UNIX, b"/t\xff/dsh", false),
        vec![b"/t\xff".to_vec()]
    );
    assert_eq!(
        service_path_entries(PlatformTarget::Windows, b"C:\\dsh\\dsh.cmd", true),
        vec![b"C:\\dsh".to_vec(), b"C:\\dsh\\node".to_vec()]
    );
}

#[test]
fn places_that_scripts_cannot_use_are_refused() {
    let empty = RootState::Listed { empty: true };
    assert!(validate_install_root(UNIX, "/opt/dsh", &empty).is_ok());
    assert_eq!(
        validate_install_root(UNIX, "/opt/a:b", &empty).unwrap_err(),
        "安装目录不能包含 : 字符"
    );
    let windows = PlatformTarget::Windows;
    assert!(validate_install_root(windows, "C:\\dsh", &empty).is_ok());
    assert_eq!(
        validate_install_root(windows, "C:\\a;b", &empty).unwrap_err(),
        "Windows 托管安装目录不能包含 ; 字符"
    );
    assert_eq!(
        validate_install_root(windows, "C:\\a%b", &empty).unwrap_err(),
        "Windows 托管安装目录不能包含 % 字符"
    );
    assert!(validate_install_root(windows, "\\\\Mac\\Home", &empty)
        .unwrap_err()
        .contains("网络共享路径"));
    assert_eq!(
        validate_install_root(UNIX, "/opt/dsh", &RootState::NotMade("denied".into()))
            .unwrap_err(),
        "创建安装目录失败：denied"
    );
}

#[test]
fn the_entry_quotes_what_it_runs() {
    assert_eq!(shell_quote("a'b"), "'a'\"'\"'b'");
    assert_eq!(
        create_wrapper_for(UNIX, "/opt/d sh", "/opt/d sh/dsh-runtime"),
        "#!/bin/sh\nexec '/opt/d sh/node/bin/node' '/opt/d sh/dsh-runtime/node_modules/@deepseek-ai/dsh/lib/bin.js' \"$@\"\n"
    );
}

#[test]
fn versions_of_dsh_are_compared() {
    assert_eq!(check_latest_dsh(None), "https://registry.npmjs.org/@deepseek-ai%2Fdsh/latest");
    assert_eq!(fetch_latest_dsh(LatestAnswer::Version("1.2.3".into())).unwrap(), "1.2.3");
    assert!(fetch_latest_dsh(LatestAnswer::Version("latest".into())).is_err());
    assert!(fetch_latest_dsh(LatestAnswer::NotFetched("offline".into())).is_err());
    let pair = check_dsh_version("1.0.0", Ok("1.1.0".into())).unwrap();
    assert!(pair.update_available);
    let pair2 = check_dsh_version("1.1.0", Ok("1.1.0".into())).unwrap();
    assert!(!pair2.update_available);
    let info = with_notes(pair, None, fetch_release_notes(Some("notes".into())));
    assert_eq!(info.latest_version, "1.1.0");
    assert_eq!(info.latest_notes.as_deref(), Some("notes"));
    assert_eq!(fetch_release_notes(Some("  ".into())), None);
    assert!(release_notes_url("1.1.0").contains("1.1.0"));
}

#[test]
fn downloads_move_the_progress_from_15_to_42() {
    assert_eq!(download_percent(0, Some(100)), Some(15));
    assert_eq!(download_percent(50, Some(100)), Some(28));
    assert_eq!(download_percent(500, Some(100)), Some(42));
    assert_eq!(download_percent(5, Some(0)), Some(42));
    assert_eq!(download_percent(5, None), None);
}

#[test]
fn archive_entries_are_placed_below_the_directory() {
    match extract_archive(UNIX, "/x", Some("node/bin/node"), false).unwrap() {
        ZipTarget::File { parent, file } => {
            assert_eq!(parent.as_deref(), Some("/x/node/bin"));
            assert_eq!(file, "/x/node/bin/node");
        }
        other => panic!("{other:?}"),
    }
    assert!(matches!(
        extract_archive(UNIX, "/x", Some("node"), true),
        Ok(ZipTarget::Directory(_))
    ));
    assert_eq!(extract_archive(UNIX, "/x", None, false).unwrap_err(), "Node zip 包含不安全路径");
    assert_eq!(
        extract_archive(UNIX, "/x", Some("a/../../b"), false).unwrap_err(),
        "Node 压缩包包含不安全路径"
    );
}
