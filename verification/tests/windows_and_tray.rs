use dsh_desktop::app_update::{
    DownloadMeter, Interlock, MaintenanceEvent, MaintenanceStage, UpdateEvent, UpdateStage,
};
use dsh_desktop::commands::{
    bootstrap, detect_dsh, has_managed_runtime, menu_action, menu_items, open_profile_dir,
    open_release_page, profile_or_web, shows_main_after_start, task_failure, MainWindow,
    MenuEntry, RunSignal, RunStep, Task, TrayAction,
};
use dsh_desktop::config::{LauncherConfig, PlatformTarget, WebviewWindowState};
use dsh_desktop::content_view::{
    address, close_embedded_webview, content_theme, embedded_view_open, on_navigation,
    on_new_window, on_page_load, open_content_view, open_parsed, placement, save_window_state,
    step_failure, theme_apply_script, MonitorArea, Placement, Scene, ViewStep,
};
use dsh_desktop::opener::{english_launch_action_error, open_default, OpenEvent, Opener};
use dsh_desktop::service::ServiceManager;

fn names(steps: &[ViewStep]) -> Vec<String> {
    steps.iter().map(|step| format!("{step:?}")).collect()
}

fn scene(view: Option<Option<&str>>) -> Scene {
    Scene {
        main_window: true,
        view: view.map(|current| current.map(str::to_string)),
        hidden: false,
        saved: None,
        monitors: vec![MonitorArea { x: 0, y: 0, width: 1920, height: 1080 }],
    }
}

const URL: &str = "http://127.0.0.1:3080/?token=tk";

#[test]
fn a_new_view_stays_hidden_until_its_page_is_loaded() {
    let steps = open_content_view(PlatformTarget::MacOS, URL, true, &scene(None)).unwrap();
    assert_eq!(
        names(&steps),
        vec![
            "Measure".to_string(),
            "PageLoaded(false)".into(),
            format!("AddChild({URL:?})"),
            "Hide".into(),
            "Raise".into(),
            "Changed(true)".into(),
        ]
    );
}

#[test]
fn a_view_is_moved_only_after_a_start() {
    let there = scene(Some(Some("http://127.0.0.1:3080/?token=old")));
    let steps = open_content_view(PlatformTarget::Windows, URL, true, &there).unwrap();
    assert_eq!(
        names(&steps),
        vec![format!("Navigate({URL:?})"), "Show".into(), "Raise".into()]
    );
    let steps = open_content_view(PlatformTarget::Windows, URL, false, &there).unwrap();
    assert_eq!(names(&steps), vec!["PageLoaded(true)", "ClearHidden", "Show", "Raise"]);
    let hidden = Scene { hidden: true, ..scene(Some(Some(URL))) };
    let steps = open_content_view(PlatformTarget::Windows, URL, true, &hidden).unwrap();
    assert_eq!(names(&steps), vec!["PageLoaded(true)", "Hide"]);
    let steps = open_content_view(PlatformTarget::Unix, URL, false, &there).unwrap();
    assert_eq!(names(&steps), vec!["PageLoaded(true)", "Raise"]);
}

#[test]
fn a_window_of_its_own_comes_back_where_it_stood() {
    let saved = Scene {
        saved: Some(WebviewWindowState { x: 10, y: 20, width: 500, height: 900 }),
        ..scene(None)
    };
    let steps = open_parsed(PlatformTarget::Unix, URL, URL, true, &saved).unwrap();
    assert_eq!(
        names(&steps),
        vec![
            format!("Build({URL:?})"),
            "Resize { width: 760, height: 900 }".into(),
            "MoveTo { x: 10, y: 20 }".into(),
            "Persist".into(),
            "ShowNew".into(),
            "PageLoaded(true)".into(),
            "Changed(true)".into(),
        ]
    );
    let steps = open_parsed(PlatformTarget::Unix, URL, URL, true, &scene(None)).unwrap();
    assert_eq!(names(&steps)[1], "Center");
}

#[test]
fn what_cannot_be_opened_is_refused() {
    assert!(open_content_view(PlatformTarget::MacOS, "no url", true, &scene(None))
        .unwrap_err()
        .starts_with("无效的 DSH URL："));
    let no_window = Scene { main_window: false, ..scene(None) };
    assert_eq!(
        open_content_view(PlatformTarget::MacOS, URL, true, &no_window).unwrap_err(),
        "主窗口不可用"
    );
    assert_eq!(
        step_failure(&ViewStep::Raise, "x").as_deref(),
        Some("显示内置 WebView 失败：x")
    );
    assert_eq!(
        step_failure(&ViewStep::Navigate(URL.into()), "x").as_deref(),
        Some("导航内置 WebView 失败：x")
    );
    assert_eq!(
        step_failure(&ViewStep::Measure, "x").as_deref(),
        Some("打开内置 WebView 失败：x")
    );
    assert_eq!(
        step_failure(&ViewStep::Center, "x").as_deref(),
        Some("居中内置 WebView 失败：x")
    );
    assert_eq!(
        step_failure(&ViewStep::Resize { width: 1, height: 1 }, "x").as_deref(),
        Some("恢复内置 WebView 大小失败：x")
    );
    assert_eq!(
        step_failure(&ViewStep::MoveTo { x: 1, y: 1 }, "x").as_deref(),
        Some("恢复内置 WebView 位置失败：x")
    );
    assert_eq!(step_failure(&ViewStep::Hide, "x"), None);
}

#[test]
fn closing_the_view_saves_a_window_of_its_own() {
    assert_eq!(
        names(&close_embedded_webview(PlatformTarget::MacOS, true)),
        vec!["Close", "Changed(false)"]
    );
    assert_eq!(
        names(&close_embedded_webview(PlatformTarget::Unix, true)),
        vec!["SaveState", "Destroy", "Changed(false)"]
    );
    assert!(close_embedded_webview(PlatformTarget::Unix, false).is_empty());
    assert!(embedded_view_open(PlatformTarget::MacOS, true, None));
    assert!(!embedded_view_open(PlatformTarget::Unix, true, None));
    assert!(embedded_view_open(PlatformTarget::Unix, true, Some(true)));
}

#[test]
fn small_or_unknown_windows_are_not_kept() {
    assert_eq!(save_window_state(Some((1, 2)), Some((99, 500))), None);
    assert_eq!(save_window_state(None, Some((500, 500))), None);
    assert_eq!(
        save_window_state(Some((1, 2)), Some((100, 500))),
        Some(WebviewWindowState { x: 1, y: 2, width: 100, height: 500 })
    );
    let monitors = vec![MonitorArea { x: 0, y: 0, width: 1920, height: 1080 }];
    let off = WebviewWindowState { x: 5000, y: 0, width: 800, height: 600 };
    assert_eq!(placement(Some(off), &monitors), Placement::Center);
    assert_eq!(placement(None, &monitors), Placement::Center);
}

#[test]
fn pages_stay_on_their_origin() {
    let home = address(URL).unwrap();
    let go = |next: &str| on_navigation(&home, &address(next).unwrap(), true);
    let same = go("http://127.0.0.1:3080/settings#__dsh_theme__=dark");
    assert!(same.allow && !same.open_outside);
    assert_eq!(same.theme, Some("dark"));
    assert_eq!(go("http://127.0.0.1:3080/#__dsh_theme__=odd").theme, Some("system"));
    assert_eq!(go("http://127.0.0.1:3080/#top").theme, None);
    let other_port = go("http://127.0.0.1:3081/");
    assert!(!other_port.allow && other_port.open_outside);
    let mail = go("mailto:a@example.com");
    assert!(!mail.allow && !mail.open_outside);
    let unwatched =
        on_navigation(&home, &address("http://127.0.0.1:3080/#__dsh_theme__=dark").unwrap(), false);
    assert_eq!(unwatched.theme, None);
    assert!(on_new_window(&address("https://example.com/").unwrap()));
    assert!(!on_new_window(&address("file:///etc/passwd").unwrap()));
}

#[test]
fn the_theme_is_set_when_the_page_is_loaded() {
    assert_eq!(content_theme("dark"), "dark");
    assert_eq!(content_theme("anything"), "light");
    let script = theme_apply_script("dark");
    assert!(script.starts_with("(() => {\n  const theme = 'dark';\n"));
    assert!(script.ends_with("})();"));
    assert_eq!(on_page_load(true, Some("dark")), (Some(script), true));
    assert_eq!(on_page_load(false, Some("dark")), (None, false));
    assert_eq!(on_page_load(true, None), (None, true));
}

fn exited(success: bool) -> OpenEvent {
    OpenEvent::Exited { success, status: "exit code: 1".into() }
}

fn result(opener: &Opener) -> Result<(), String> {
    opener.outcome.clone().expect("finished")
}

#[test]
fn linux_tries_two_programs() {
    let mut opener = open_default(PlatformTarget::Unix, true, "http://x/");
    let first = opener.action().unwrap();
    assert_eq!((first.program.as_str(), first.limited), ("xdg-open", true));
    assert_eq!(first.args, vec!["http://x/"]);
    opener.advance(OpenEvent::NotStarted("ENOENT".into()));
    let second = opener.action().unwrap();
    assert_eq!(second.program, "gio");
    assert_eq!(second.args, vec!["open", "http://x/"]);
    opener.advance(exited(false));
    assert!(opener.action().is_none());
    assert_eq!(
        result(&opener).unwrap_err(),
        "打开浏览器失败：xdg-open 无法启动；gio 退出码非零"
    );
    let mut opener = open_default(PlatformTarget::Unix, true, "http://x/");
    opener.advance(OpenEvent::TimedOut);
    assert_eq!(
        result(&opener).unwrap_err(),
        "打开浏览器失败：xdg-open 执行超时（超过 6s），子进程已被终止；状态不明确，不再回退其他程序"
    );
    let mut opener = open_default(PlatformTarget::Unix, false, "http://x/");
    opener.advance(exited(true));
    assert!(result(&opener).is_ok());
}

#[test]
fn windows_and_macos_have_their_own_programs() {
    let mut opener = open_default(PlatformTarget::Windows, false, "http://x/");
    assert_eq!(opener.action().unwrap().program, "explorer.exe");
    opener.advance(exited(false));
    let second = opener.action().unwrap();
    assert_eq!(second.program, "cmd.exe");
    assert_eq!(second.args, vec!["/D", "/C", "start", "", "http://x/"]);
    opener.advance(OpenEvent::NotStarted("gone".into()));
    assert_eq!(
        result(&opener).unwrap_err(),
        "打开浏览器失败：explorer.exe 退出码 exit code: 1；cmd.exe：gone"
    );
    let mut opener = open_default(PlatformTarget::MacOS, false, "http://x/");
    assert_eq!(opener.action().unwrap().program, "open");
    opener.advance(exited(false));
    assert_eq!(result(&opener).unwrap_err(), "打开浏览器失败");
    let mut opener = open_default(PlatformTarget::MacOS, false, "http://x/");
    opener.advance(OpenEvent::NotStarted("gone".into()));
    assert_eq!(result(&opener).unwrap_err(), "打开浏览器失败：gone");
}

#[test]
fn every_known_error_has_english_words() {
    assert_eq!(english_launch_action_error("无效的 DSH URL：x"), "Invalid DSH URL: x");
    assert_eq!(english_launch_action_error("打开浏览器失败：x"), "Failed to open browser: x");
    assert_eq!(english_launch_action_error("打开浏览器失败"), "Failed to open browser");
}

#[test]
fn an_update_of_the_launcher_keeps_the_service_out() {
    let mut lock = Interlock::new();
    let config = LauncherConfig::default();
    assert!(lock.check_start(false, &config).is_ok());
    let mut update = lock.app_update_install().unwrap();
    assert_eq!(
        lock.check_start(false, &config).unwrap_err(),
        "DSH 正在维护升级，暂时不能启动"
    );
    assert_eq!(
        lock.check_start(true, &config).unwrap_err(),
        "DSH 正在维护升级，暂时不能重启"
    );
    assert_eq!(lock.app_update_install().unwrap_err(), "应用更新正在进行中");
    lock.update_next(&mut update, UpdateEvent::Phase(Ok("running".into())));
    lock.update_next(&mut update, UpdateEvent::Stopped(Ok(())));
    lock.update_next(&mut update, UpdateEvent::Checked(Ok(true)));
    assert!(matches!(update.stage, UpdateStage::Install));
    lock.update_next(&mut update, UpdateEvent::Installed(Ok(())));
    assert!(matches!(update.stage, UpdateStage::Done));
    assert!(update.error.is_none());
    assert!(lock.check_start(false, &config).is_ok());
    let next = lock.app_update_install().unwrap();
    lock.update_next(&mut update, UpdateEvent::Recovered);
    assert!(matches!(next.stage, UpdateStage::Look));
    assert!(lock.maintenance && lock.app_update);
}

#[test]
fn each_failure_of_an_update_has_its_words() {
    for (events, expected) in [
        (vec![UpdateEvent::Phase(Err("busy".into()))], "busy"),
        (
            vec![UpdateEvent::Phase(Ok("external".into()))],
            "检测到 Launcher 无法停止的外部 DSH 服务，请在更新前手动停止",
        ),
        (
            vec![UpdateEvent::Phase(Ok("running".into())), UpdateEvent::Stopped(Err("stuck".into()))],
            "stuck",
        ),
        (
            vec![
                UpdateEvent::Phase(Ok("stopped".into())),
                UpdateEvent::Stopped(Ok(())),
                UpdateEvent::NoUpdater("x".into()),
            ],
            "初始化应用更新失败：x",
        ),
        (
            vec![
                UpdateEvent::Phase(Ok("stopped".into())),
                UpdateEvent::Stopped(Ok(())),
                UpdateEvent::Checked(Err("x".into())),
            ],
            "检查应用更新失败：x",
        ),
        (
            vec![
                UpdateEvent::Phase(Ok("stopped".into())),
                UpdateEvent::Stopped(Ok(())),
                UpdateEvent::Checked(Ok(false)),
            ],
            "当前已是最新版本，无需应用内更新",
        ),
        (
            vec![
                UpdateEvent::Phase(Ok("stopped".into())),
                UpdateEvent::Stopped(Ok(())),
                UpdateEvent::Checked(Ok(true)),
                UpdateEvent::Installed(Err("x".into())),
            ],
            "下载或安装应用更新失败：x",
        ),
    ] {
        let mut lock = Interlock::new();
        let mut update = lock.app_update_install().unwrap();
        for event in events {
            lock.update_next(&mut update, event);
        }
        assert!(matches!(update.stage, UpdateStage::Recover));
        assert_eq!(update.error.as_deref(), Some(expected));
        assert!(lock.maintenance);
        lock.update_next(&mut update, UpdateEvent::Recovered);
        assert!(!lock.maintenance && !lock.app_update);
    }
    assert!(Interlock::starts_again("stopped"));
    assert!(!Interlock::starts_again("running"));
}

#[test]
fn an_upgrade_and_an_update_exclude_each_other() {
    let mut lock = Interlock::new();
    assert_eq!(lock.upgrade_managed_dsh(Err("broken".into())).unwrap_err(), "broken");
    let mut upgrade = lock.upgrade_managed_dsh(Ok(())).unwrap();
    assert_eq!(lock.upgrade_managed_dsh(Ok(())).unwrap_err(), "已有维护升级任务正在进行");
    assert_eq!(
        lock.app_update_install().unwrap_err(),
        "DSH 正在维护升级，暂时不能更新 Launcher"
    );
    assert_eq!(
        lock.upgrade_next(&mut upgrade, MaintenanceEvent::Phase(Ok("running".into()))),
        None
    );
    lock.upgrade_next(&mut upgrade, MaintenanceEvent::Stopped(Ok(())));
    assert!(matches!(upgrade.stage, MaintenanceStage::Upgrade));
    assert_eq!(
        lock.upgrade_next(&mut upgrade, MaintenanceEvent::Crashed("panic".into())).as_deref(),
        Some("升级任务异常结束：panic")
    );
    assert!(!lock.maintenance);
    let mut upgrade = lock.upgrade_managed_dsh(Ok(())).unwrap();
    assert_eq!(
        lock.upgrade_next(&mut upgrade, MaintenanceEvent::Phase(Ok("external".into()))).as_deref(),
        Some("检测到 Launcher 无法停止的外部 DSH 服务，请先手动停止后再升级")
    );
    assert!(!lock.maintenance);
}

#[test]
fn the_download_is_metered() {
    let (mut meter, first) = DownloadMeter::begin();
    assert_eq!((first.phase, first.received, first.total), ("progress", 0, None));
    assert_eq!(meter.add_chunk(10, Some(30)).received, 10);
    let next = meter.add_chunk(5, Some(30));
    assert_eq!((next.phase, next.received, next.total), ("progress", 15, Some(30)));
    assert_eq!(meter.add_chunk(u64::MAX, None).received, u64::MAX);
    assert_eq!(meter.received, 14);
    assert_eq!(DownloadMeter::finished().phase, "finished");
}

#[test]
fn the_tray_starts_only_what_is_not_running() {
    assert_eq!(menu_action("start_service", false, "stopped"), TrayAction::Start);
    assert_eq!(menu_action("start_service", false, "failed"), TrayAction::Start);
    assert_eq!(menu_action("start_service", false, "external"), TrayAction::Start);
    assert_eq!(menu_action("start_service", false, "running"), TrayAction::Ignore);
    assert_eq!(menu_action("start_service", true, "stopped"), TrayAction::Ignore);
    assert_eq!(menu_action("restart_service", true, "running"), TrayAction::Ignore);
    assert_eq!(menu_action("restart_service", false, "running"), TrayAction::Restart);
    assert_eq!(menu_action("stop_service", true, "running"), TrayAction::Stop);
    assert_eq!(menu_action("show_main", true, ""), TrayAction::ShowMain);
    assert_eq!(menu_action("open_web", true, ""), TrayAction::OpenWeb);
    assert_eq!(menu_action("quit", true, ""), TrayAction::Quit);
    assert_eq!(menu_action("title", false, "stopped"), TrayAction::Ignore);
    assert!(shows_main_after_start("external"));
    assert!(!shows_main_after_start("starting"));
    let items = menu_items();
    assert_eq!(items.len(), 10);
    assert!(matches!(
        items[0],
        MenuEntry::Item { id: "title", title: "DSH Launcher", enabled: false }
    ));
    assert!(matches!(items[9], MenuEntry::Item { id: "quit", title: "退出", enabled: true }));
}

#[test]
fn closing_the_main_window_hides_it_later() {
    let mut window = MainWindow::new();
    assert!(window.run(RunSignal::EventsCleared).is_empty());
    assert_eq!(
        window.run(RunSignal::CloseRequested("main".into())),
        vec![RunStep::PreventClose]
    );
    assert_eq!(
        window.run(RunSignal::EventsCleared),
        vec![RunStep::SaveState, RunStep::Hide]
    );
    assert!(window.run(RunSignal::EventsCleared).is_empty());
    assert!(window.run(RunSignal::CloseRequested("other".into())).is_empty());
    assert_eq!(
        window.run(RunSignal::Reopen { has_visible_windows: false }),
        vec![RunStep::ShowMain]
    );
    assert!(window.run(RunSignal::Reopen { has_visible_windows: true }).is_empty());
    assert_eq!(window.run(RunSignal::Exit), vec![RunStep::SaveState, RunStep::Shutdown]);
}

#[test]
fn the_entry_is_taken_over_when_the_launcher_starts() {
    let host = PlatformTarget::Unix;
    let managed = |dsh_path: &str| LauncherConfig {
        dsh_path: dsh_path.into(),
        managed_runtime_dir: "/opt/dsh".into(),
        ..Default::default()
    };
    assert!(has_managed_runtime(&managed("")));
    assert!(!has_managed_runtime(&LauncherConfig::default()));
    for old in ["", "/opt/dsh/dsh-managed"] {
        let mut config = managed(old);
        let done = bootstrap(host, &mut config, Ok("/opt/dsh/dsh".into()));
        assert!(done.save);
        assert_eq!(config.dsh_path, "/opt/dsh/dsh");
    }
    let mut config = managed("/usr/bin/dsh");
    assert!(!bootstrap(host, &mut config, Ok("/opt/dsh/dsh".into())).save);
    assert_eq!(config.dsh_path, "/usr/bin/dsh");
    let done = bootstrap(host, &mut config, Err("x".into()));
    assert_eq!(done.log.as_deref(), Some("Failed to migrate managed DSH layout: x"));
}

#[test]
fn commands_answer_in_words() {
    assert_eq!(task_failure(Task::Install, "x"), "安装任务异常结束：x");
    assert_eq!(profile_or_web(None), "web");
    assert_eq!(profile_or_web(Some("dev")), "dev");
    assert_eq!(open_profile_dir(None).unwrap_err(), "无法定位 DSH Profile 目录");
    assert_eq!(detect_dsh(None).unwrap_err(), "未找到 dsh，请手动指定可执行文件");
    assert_eq!(
        detect_dsh(Some(("/usr/bin/dsh".into(), Ok("1.0.0".into())))).unwrap(),
        ("/usr/bin/dsh".to_string(), "1.0.0".to_string())
    );
    assert_eq!(
        open_release_page("  https://github.com/jockiller/dsh-desktop/releases/latest ").unwrap(),
        "https://github.com/jockiller/dsh-desktop/releases/latest"
    );
    assert_eq!(
        open_release_page("https://example.com").unwrap_err(),
        "仅允许打开 DSH Desktop 的 GitHub Release 页面"
    );
    let mut manager = ServiceManager::new();
    assert_eq!(manager.open_service_url().unwrap_err(), "DSH 服务尚未运行");
    manager.status.url = Some("http://127.0.0.1:3080".into());
    assert_eq!(manager.open_service_url().unwrap(), "http://127.0.0.1:3080");
    manager.authenticated_url = Some(URL.into());
    assert_eq!(manager.open_service_url().unwrap(), URL);
}
