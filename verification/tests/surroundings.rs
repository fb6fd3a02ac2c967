use dsh_desktop::config::{EnvLookup, PlatformTarget};
use dsh_desktop::discovery::{resolve_dsh, ResolveAction, Resolution, Surroundings};
use dsh_desktop::environment::{environment_value, launcher_environment};
use dsh_desktop::login_shell::{
    account_query, capture_directory_name, default_login_shell, login_shell_attempt_plan,
    login_shell_candidates, login_shell_names, preferred_shell, spawn_with_timeout, LoginCapture, SpawnOutcome, SpawnPoll,
    LOGIN_SHELL_ENV_SCRIPT, LOGIN_SHELL_FISH_ENV_SCRIPT,
};
use dsh_desktop::path::{absolute, child, name_of, parent_of};
use dsh_desktop::process::{looks_like_dsh_process, CommandOutcome};
use dsh_desktop::profile::{
    clean_next, dsh_home_directory, plugin_uninstalled, pnpm_command, profile_directory,
    read_dsh_theme_preference, read_profile_plugins, run_profile_clean, uninstall_profile_plugin,
    wait_for_output, CleanStage, CommandState, WaitStep,
};
use dsh_desktop::raw_path::{is_raw_path, raw_child, raw_parent};
use dsh_desktop::search_path::{
    append_service_path, join_paths, prepend_service_path, split_paths,
};
use dsh_desktop::version::{dsh_version, VersionProbe};

const UNIX: PlatformTarget = PlatformTarget::Unix;
const WINDOWS: PlatformTarget = PlatformTarget::Windows;

fn strings(items: &[&str]) -> Vec<String> {
    items.iter().map(|item| item.to_string()).collect()
}

fn lookup_for(pairs: &[(&str, &str)]) -> EnvLookup {
    EnvLookup {
        pairs: pairs.iter().map(|(k, v)| (k.to_string(), v.to_string())).collect(),
    }
}

fn around(platform: PlatformTarget, path: &str, vars: &[(&str, &str)]) -> Surroundings {
    Surroundings {
        platform,
        path: Some(path.as_bytes().to_vec()),
        home: vars
            .iter()
            .find(|(key, _)| *key == "HOME")
            .map(|(_, value)| value.as_bytes().to_vec()),
        pathext: None,
        vars: lookup_for(vars),
    }
}

/// Answers a search; `present` are the files that are there.
fn resolve(mut search: Resolution, present: &[&str], shell: Option<&str>) -> (Option<String>, bool) {
    let mut asked = false;
    loop {
        match search.action() {
            ResolveAction::IsFile(file) => {
                search.checked(present.iter().any(|place| place.as_bytes() == file));
            }
            ResolveAction::AskShell => {
                asked = true;
                search.find_via_login_shell(shell.map(str::to_string));
            }
            ResolveAction::List(_) => search.versions_listed(&vec![
                (b"v9.0.0".to_vec(), true),
                (b"v22.0.0".to_vec(), true),
                (b"alias".to_vec(), true),
            ]),
            ResolveAction::Finished(found) => {
                return (found.map(|file| String::from_utf8(file).unwrap()), asked);
            }
        }
    }
}

#[test]
fn a_command_is_looked_for_place_by_place() {
    let unix = || around(UNIX, "/a:/b", &[("HOME", "/home/me")]);
    let (found, asked) = resolve(resolve_dsh("", &unix()), &["/b/dsh"], None);
    assert_eq!((found.as_deref(), asked), (Some("/b/dsh"), false));
    let (found, asked) = resolve(resolve_dsh("", &unix()), &["/c/dsh"], Some("/c/dsh"));
    assert_eq!((found.as_deref(), asked), (Some("/c/dsh"), true));
    let (found, _) = resolve(
        resolve_dsh("", &unix()),
        &["/home/me/.nvm/versions/node/v22.0.0/bin/dsh"],
        None,
    );
    assert_eq!(found.as_deref(), Some("/home/me/.nvm/versions/node/v22.0.0/bin/dsh"));
    let (found, asked) = resolve(resolve_dsh("", &unix()), &[], None);
    assert_eq!((found, asked), (None, true));
}

#[test]
fn a_place_named_by_hand_is_the_only_one() {
    let unix = around(UNIX, "/a", &[]);
    let (found, _) = resolve(resolve_dsh("/x/dsh", &unix), &["/x/dsh", "/a/dsh"], None);
    assert_eq!(found.as_deref(), Some("/x/dsh"));
    let (found, asked) = resolve(resolve_dsh("/x/dsh", &unix), &["/a/dsh"], None);
    assert_eq!((found, asked), (None, false));
}

#[test]
fn a_directory_that_is_not_text_is_searched_too() {
    let mut search = resolve_dsh(
        "",
        &Surroundings {
            platform: UNIX,
            path: Some(b"/t\xff:/u/".to_vec()),
            home: Some(b"/h\xfe".to_vec()),
            pathext: None,
            vars: lookup_for(&[]),
        },
    );
    let mut looked_at = Vec::new();
    let found = loop {
        match search.action() {
            ResolveAction::IsFile(file) => {
                looked_at.push(file);
                search.checked(false);
            }
            ResolveAction::AskShell => search.find_via_login_shell(None),
            ResolveAction::List(dir) => {
                assert_eq!(dir, b"/h\xfe/.nvm/versions/node");
                search.versions_listed(&vec![
                    (b"v22".to_vec(), true),
                    (b"w\xff".to_vec(), false),
                ]);
            }
            ResolveAction::Finished(found) => break found,
        }
    };
    assert_eq!(found, None);
    assert_eq!(
        looked_at,
        vec![
            b"/t\xff/dsh".to_vec(),
            b"/u/dsh".to_vec(),
            b"/opt/homebrew/bin/dsh".to_vec(),
            b"/usr/local/bin/dsh".to_vec(),
            b"/h\xfe/.nvm/versions/node/w\xff/bin/dsh".to_vec(),
            b"/h\xfe/.nvm/versions/node/v22/bin/dsh".to_vec(),
        ]
    );
    let mut search = resolve_dsh("", &around(UNIX, "/a:/b", &[]));
    search.checked(true);
    assert!(matches!(search.action(), ResolveAction::Finished(Some(file)) if file == b"/a/dsh"));
    search.checked(true);
    search.find_via_login_shell(Some("/c/dsh".to_string()));
    search.versions_listed(&vec![(b"v22".to_vec(), true)]);
    assert!(matches!(search.action(), ResolveAction::Finished(Some(file)) if file == b"/a/dsh"));
}

#[test]
fn paths_in_bytes_are_taken_apart() {
    assert_eq!(raw_child(UNIX, b"/t\xff", "dsh"), b"/t\xff/dsh");
    assert_eq!(raw_child(UNIX, b"/t/", "dsh"), b"/t/dsh");
    assert_eq!(raw_child(UNIX, b"/t", "/abs"), b"/abs");
    assert_eq!(raw_child(UNIX, b"", "dsh"), b"dsh");
    assert_eq!(raw_child(WINDOWS, b"C:\\t", "dsh"), b"C:\\t\\dsh");
    assert_eq!(raw_parent(UNIX, b"/t\xff/dsh").unwrap(), b"/t\xff");
    assert_eq!(raw_parent(UNIX, b"/dsh").unwrap(), b"/");
    assert_eq!(raw_parent(UNIX, b"/"), None);
    assert_eq!(raw_parent(WINDOWS, b"C:\\t\\dsh.cmd").unwrap(), b"C:\\t");
    assert!(is_raw_path(UNIX, b"/t//dsh", "/t/dsh"));
    assert!(is_raw_path(UNIX, "/té/dsh".as_bytes(), "/té/dsh"));
    assert!(!is_raw_path(UNIX, b"/t\xe9/dsh", "/té/dsh"));
    assert!(!is_raw_path(WINDOWS, b"C:/dsh", "C:\\dsh"));
}

#[test]
fn the_service_is_searched_first_and_last_where_it_is_put() {
    let mut vars = vec![(b"PATH".to_vec(), b"/usr/bin".to_vec())];
    prepend_service_path(UNIX, &mut vars, &vec![b"/opt/dsh".to_vec()], None);
    assert_eq!(environment_value(UNIX, &vars, b"PATH").unwrap(), b"/opt/dsh:/usr/bin");
    append_service_path(UNIX, &mut vars, &vec![b"/last".to_vec()], None);
    assert_eq!(environment_value(UNIX, &vars, b"PATH").unwrap(), b"/opt/dsh:/usr/bin:/last");
    let mut bare = Vec::new();
    prepend_service_path(UNIX, &mut bare, &vec![b"/opt/dsh".to_vec()], Some(b"/inherited"));
    assert_eq!(environment_value(UNIX, &bare, b"PATH").unwrap(), b"/opt/dsh:/inherited");
}

#[test]
fn a_joined_search_path_can_be_split_again() {
    let dirs = vec![b"C:\\a;b".to_vec(), b"C:\\c".to_vec()];
    let joined = join_paths(WINDOWS, &dirs).unwrap();
    assert_eq!(joined, b"\"C:\\a;b\";C:\\c");
    assert_eq!(split_paths(WINDOWS, &joined), dirs);
    assert!(join_paths(UNIX, &vec![b"/a:b".to_vec()]).is_none());
    assert!(join_paths(WINDOWS, &vec![b"C:\\\"q\"".to_vec()]).is_none());
}

#[test]
fn only_tools_are_taken_from_the_shell() {
    let base = vec![(b"PATH".to_vec(), b"/gui".to_vec()), (b"HOME".to_vec(), b"/me".to_vec())];
    let (vars, asked) =
        launcher_environment(UNIX, base, Some(b"PATH=/shell\0HOME=/other\0NVM_DIR=/nvm\0"));
    assert!(asked);
    assert_eq!(environment_value(UNIX, &vars, b"PATH").unwrap(), b"/shell");
    assert_eq!(environment_value(UNIX, &vars, b"HOME").unwrap(), b"/me");
    assert_eq!(environment_value(UNIX, &vars, b"NVM_DIR").unwrap(), b"/nvm");
}

#[test]
fn the_account_tells_its_shell() {
    let query = account_query(UNIX, Some("me")).unwrap();
    assert_eq!((query.program, query.args), ("getent", strings(&["passwd", "me"])));
    assert!(account_query(UNIX, Some(" ")).is_none());
    let shown = CommandOutcome::Finished {
        success: true,
        stdout: b"me:x:1000:1000:Me\xff:/home/me:/bin/zsh\n".to_vec(),
    };
    assert_eq!(default_login_shell(UNIX, &shown).as_deref(), Some("/bin/zsh"));
    let mac = CommandOutcome::Finished {
        success: true,
        stdout: b"UserShell: /bin/zsh\n".to_vec(),
    };
    assert_eq!(default_login_shell(PlatformTarget::MacOS, &mac).as_deref(), Some("/bin/zsh"));
    assert_eq!(
        preferred_shell(Some("/bin/fish".into()), Some("/bin/zsh".into())).as_deref(),
        Some("/bin/fish")
    );
    assert_eq!(preferred_shell(None, Some("/bin/zsh".into())).as_deref(), Some("/bin/zsh"));
}

#[test]
fn shells_are_asked_in_turn_until_one_answers() {
    let plan = login_shell_attempt_plan(&strings(&["/usr/bin/fish"]));
    let argv = plan[0].argv(LOGIN_SHELL_ENV_SCRIPT, LOGIN_SHELL_FISH_ENV_SCRIPT);
    assert_eq!(argv, strings(&["-li", "-c", LOGIN_SHELL_FISH_ENV_SCRIPT, "dsh-launcher"]));
    let mut capture = LoginCapture::new(plan);
    assert_eq!(capture.attempt(false), Some(0));
    capture.run_login_shell_capture(SpawnOutcome::TimedOut, None);
    assert_eq!(capture.attempt(false), Some(1));
    assert_eq!(capture.attempt(true), None);
    capture.run_login_shell_capture(
        SpawnOutcome::Completed { success: true },
        Some(b"hi\n__DSH_LAUNCHER_ENV__\nPATH=/x\n"),
    );
    assert_eq!(capture.answer.as_deref(), Some(&b"PATH=/x\n"[..]));
    assert_eq!(capture.attempt(false), None);
    assert!(matches!(spawn_with_timeout(Ok(None), false), SpawnPoll::Again));
    assert_eq!(capture_directory_name(12, "345", 6), "dsh-launcher-12-345-6");
}

#[test]
fn the_version_command_is_read() {
    let exited = |success: bool, stdout: &str, stderr: &str| VersionProbe::Exited {
        success,
        status: "exit status: 1".into(),
        stdout: stdout.into(),
        stderr: stderr.into(),
    };
    assert_eq!(dsh_version(&exited(true, "v1.2.3\n", "")).unwrap(), "1.2.3");
    assert_eq!(dsh_version(&exited(false, "out", " err ")).unwrap_err(), "err");
    assert_eq!(dsh_version(&exited(false, " out ", "")).unwrap_err(), "out");
    assert_eq!(
        dsh_version(&exited(false, "", "")).unwrap_err(),
        "dsh --version 以退出码 exit status: 1 失败"
    );
    assert_eq!(
        dsh_version(&VersionProbe::NotRun("ENOENT".into())).unwrap_err(),
        "无法执行 dsh：ENOENT"
    );
    assert_eq!(dsh_version(&VersionProbe::TimedOut).unwrap_err(), "执行 dsh --version 超时");
    assert_eq!(
        dsh_version(&VersionProbe::NotWatched("x".into())).unwrap_err(),
        "检查 dsh --version 状态失败：x"
    );
}

#[test]
fn profiles_are_plain_directories() {
    let home = lookup_for(&[("HOME", "/home/me")]);
    assert_eq!(dsh_home_directory(UNIX, None, &home).as_deref(), Some(&b"/home/me/.dsh"[..]));
    assert_eq!(dsh_home_directory(UNIX, Some(b"/data"), &home).as_deref(), Some(&b"/data"[..]));
    assert_eq!(
        dsh_home_directory(UNIX, Some(b""), &home).as_deref(),
        Some(&b"/home/me/.dsh"[..])
    );
    assert_eq!(
        profile_directory(UNIX, Some(b"/data"), " ").as_deref(),
        Some(&b"/data/profiles/web"[..])
    );
    assert_eq!(
        profile_directory(UNIX, Some(b"/d\xe9"), "web").as_deref(),
        Some(&b"/d\xe9/profiles/web"[..])
    );
    assert_eq!(
        profile_directory(WINDOWS, Some(b"C:\\data"), "web").as_deref(),
        Some(&b"C:\\data\\profiles\\web"[..])
    );
    assert_eq!(profile_directory(UNIX, Some(b"/data"), "../x"), None);
    assert_eq!(profile_directory(UNIX, None, "web"), None);
    assert_eq!(read_dsh_theme_preference(None), "system");
    assert_eq!(read_dsh_theme_preference(Some("ui-theme:\n  preference: dark")), "dark");
}

#[test]
fn plugins_are_read_from_the_package_file() {
    let plugins = read_profile_plugins(
        Some(b"/p"),
        Some(r#"{"dependencies":{"b-plugin":"^2","a-plugin":"1.0.0"}}"#),
    )
    .unwrap();
    assert_eq!(
        plugins.iter().map(|p| (p.name.as_str(), p.version.as_str())).collect::<Vec<_>>(),
        vec![("a-plugin", "1.0.0"), ("b-plugin", "^2")]
    );
    assert_eq!(read_profile_plugins(None, None).unwrap_err(), "无法定位 Profile 目录");
    assert!(read_profile_plugins(Some(b"/p"), None).unwrap_err().contains("尚未初始化"));
    assert!(read_profile_plugins(Some(b"/p"), Some("{"))
        .unwrap_err()
        .starts_with("package.json 解析失败："));
}

#[test]
fn plugins_are_uninstalled_by_the_command() {
    let (args, log) = uninstall_profile_plugin("web", "dsh-sound", true).unwrap();
    assert_eq!(args, strings(&["plugin", "--profile", "web", "uninstall", "dsh-sound"]));
    assert_eq!(log, "正在通过 dsh 卸载插件 dsh-sound...");
    assert!(uninstall_profile_plugin("web", "../x", true).is_err());
    assert_eq!(
        uninstall_profile_plugin("web", "dsh-sound", false).unwrap_err(),
        "未找到可执行的 dsh，请先在设置中指定 DSH 命令"
    );
    let (result, logs) = plugin_uninstalled("dsh-sound", Err("boom".into()));
    assert_eq!(result.unwrap_err(), "通过 dsh 卸载插件失败，详见服务日志");
    assert_eq!((logs[0].level, logs[0].message.as_str()), ("error", "boom"));
    let (result, logs) = plugin_uninstalled("dsh-sound", Ok(" done ".into()));
    assert!(result.is_ok());
    assert_eq!(
        logs.iter().map(|log| log.message.as_str()).collect::<Vec<_>>(),
        vec!["done", "插件 dsh-sound 已卸载"]
    );
}

#[test]
fn a_profile_is_cleaned_and_installed_anew() {
    assert_eq!(run_profile_clean(Some(b"/p"), true).unwrap(), "正在执行 pnpm clean --lockfile...");
    assert_eq!(run_profile_clean(None, true).unwrap_err(), "无法定位 Profile 目录");
    assert!(run_profile_clean(Some(b"/p"), false).unwrap_err().contains("package.json"));
    let (stage, _) = clean_next(CleanStage::Clean, Ok("ok".into()));
    assert!(matches!(stage, CleanStage::Install));
    let (stage, _) = clean_next(stage, Ok("".into()));
    assert!(matches!(stage, CleanStage::Done(Ok(()))));
    let (stage, _) = clean_next(CleanStage::Clean, Err("x".into()));
    assert!(matches!(stage, CleanStage::Done(Err(_))));
    let (stage, _) = clean_next(CleanStage::Install, Err("x".into()));
    assert!(matches!(stage, CleanStage::Done(Err(_))));
    let command = pnpm_command(WINDOWS, &strings(&["clean", "--lockfile"]));
    assert_eq!((command.program, command.args), ("cmd", strings(&["/C", "pnpm clean --lockfile"])));
}

#[test]
fn commands_are_waited_for() {
    let exited = CommandState::Exited {
        success: false,
        outputs: Some((b"out".to_vec(), b"err".to_vec())),
    };
    match wait_for_output(&exited, "pnpm install", 600) {
        WaitStep::Ended { result: Err(error), kill: false } => {
            assert!(error.starts_with("pnpm install 失败："), "{error}");
        }
        other => panic!("{other:?}"),
    }
    match wait_for_output(&CommandState::Running { expired: true }, "pnpm install", 600) {
        WaitStep::Ended { result: Err(error), kill: true } => {
            assert_eq!(error, "pnpm install 执行超时（600 秒），子进程已被终止");
        }
        other => panic!("{other:?}"),
    }
    assert!(matches!(
        wait_for_output(&CommandState::Running { expired: false }, "pnpm", 1),
        WaitStep::Again
    ));
}

#[test]
fn paths_follow_their_platform() {
    assert_eq!(child(UNIX, "/a", "b"), "/a/b");
    assert_eq!(child(UNIX, "/a/", "b"), "/a/b");
    assert_eq!(child(UNIX, "/a", "/b"), "/b");
    assert_eq!(child(WINDOWS, "C:\\a", "b"), "C:\\a\\b");
    assert_eq!(child(WINDOWS, "C:\\a", "D:\\b"), "D:\\b");
    assert_eq!(parent_of(UNIX, "/a/b"), Some("/a".to_string()));
    assert_eq!(parent_of(UNIX, "/"), None);
    assert_eq!(name_of(UNIX, "/a/b/"), Some("b".to_string()));
    assert!(absolute(WINDOWS, "C:\\a") && !absolute(WINDOWS, "\\a") && !absolute(UNIX, "a"));
    assert!(looks_like_dsh_process("node /usr/bin/dsh --port 1"));
    assert!(!looks_like_dsh_process("nginx"));
}

#[test]
fn the_users_shell_is_looked_for_without_white_space() {
    let names = login_shell_names(Some(" /opt/bin/xonsh\n"));
    assert_eq!(names[0], "/opt/bin/xonsh");
    let there = strings(&["/opt/bin/xonsh", "/bin/sh"]);
    assert_eq!(
        login_shell_candidates(Some(" /opt/bin/xonsh\n"), &there),
        strings(&["/opt/bin/xonsh", "/bin/sh"])
    );
}
