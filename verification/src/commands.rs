//! The decisions behind the windows, the tray and the commands of the front end.

use vstd::prelude::*;

use crate::config;
use crate::config::{is_blank, LauncherConfig, PlatformTarget};
use crate::managed;
use crate::managed::legacy_managed_dsh_path;
use crate::service::ServiceManager;
use crate::text;
use crate::text::{chars_of, equal, string_of, trimmed};
use crate::update;
use crate::update::validate_release_url;

verus! {

pub const PROJECT_PAGE_URL: &'static str = "https://github.com/jockiller/dsh-desktop";

pub const DSH_GITHUB_PAGE_URL: &'static str = "https://github.com/deepseek-ai/deepseek-harness";

// ---------------------------------------------------------------------------
// Commands of the front end
// ---------------------------------------------------------------------------

/// A command that runs in the background.
#[derive(Debug, Clone, Copy)]
pub enum Task {
    ForceStop,
    ListPlugins,
    UninstallPlugin,
    Clean,
    OpenView,
    OpenBrowser,
    Install,
    Upgrade,
    ManagedStatus,
    LatestDsh,
    DshVersion,
    StopForUpdate,
}

pub open spec fn task_text(t: Task) -> Seq<char> {
    match t {
        Task::ForceStop => "强制停止任务异常结束："@,
        Task::ListPlugins => "读取插件列表任务异常结束："@,
        Task::UninstallPlugin => "卸载插件任务异常结束："@,
        Task::Clean => "清理任务异常结束："@,
        Task::OpenView => "打开内嵌视图任务异常结束："@,
        Task::OpenBrowser => "打开浏览器任务异常结束："@,
        Task::Install => "安装任务异常结束："@,
        Task::Upgrade => "升级任务异常结束："@,
        Task::ManagedStatus => "检查托管环境异常结束："@,
        Task::LatestDsh => "检查 DSH 更新异常结束："@,
        Task::DshVersion => "检查 DSH 版本异常结束："@,
        Task::StopForUpdate => "停止 DSH 服务任务异常："@,
    }
}

/// What is said of a command that broke down.
pub fn task_failure(t: Task, error: &str) -> (r: String)
    ensures
        r@ == task_text(t) + error@,
{
    let what = match t {
        Task::ForceStop => "强制停止任务异常结束：",
        Task::ListPlugins => "读取插件列表任务异常结束：",
        Task::UninstallPlugin => "卸载插件任务异常结束：",
        Task::Clean => "清理任务异常结束：",
        Task::OpenView => "打开内嵌视图任务异常结束：",
        Task::OpenBrowser => "打开浏览器任务异常结束：",
        Task::Install => "安装任务异常结束：",
        Task::Upgrade => "升级任务异常结束：",
        Task::ManagedStatus => "检查托管环境异常结束：",
        Task::LatestDsh => "检查 DSH 更新异常结束：",
        Task::DshVersion => "检查 DSH 版本异常结束：",
        Task::StopForUpdate => "停止 DSH 服务任务异常：",
    };
    what.to_string().concat(error)
}

/// Whether the launcher has an installation of its own whose layout is to be looked at.
pub fn has_managed_runtime(config: &LauncherConfig) -> (r: bool)
    ensures
        r == !config::blank(config.managed_runtime_dir@),
{
    !is_blank(config.managed_runtime_dir.as_str())
}

/// The configured command is taken over by the entry of the installation: there is none, or
/// it is the entry under its first name.
pub open spec fn follows_the_entry(host: PlatformTarget, c: LauncherConfig) -> bool {
    config::blank(c.dsh_path@) || c.dsh_path@ == managed::legacy_entry_of(
        host,
        c.managed_runtime_dir@,
    )
}

/// What the start of the launcher makes of the migration of its installation.
#[derive(Debug)]
pub struct Bootstrapped {
    /// The configuration was changed and is to be stored.
    pub save: bool,
    /// What the log says.
    pub log: Option<String>,
}

/// Takes over the entry of the installation that was looked at when the launcher started.
pub fn bootstrap(
    host: PlatformTarget,
    config: &mut LauncherConfig,
    migrated: Result<String, String>,
) -> (r: Bootstrapped)
    ensures
        match migrated {
            Err(e) => *final(config) == *old(config) && !r.save && text::opt_text(r.log) == Some(
                "Failed to migrate managed DSH layout: "@ + e@,
            ),
            Ok(entry) => r.log is None && r.save == follows_the_entry(host, *old(config))
                && *final(config) == if r.save {
                (LauncherConfig { dsh_path: entry, ..*old(config) })
            } else {
                *old(config)
            },
        },
{
    match migrated {
        Err(e) => Bootstrapped {
            save: false,
            log: Some("Failed to migrate managed DSH layout: ".to_string().concat(e.as_str())),
        },
        Ok(entry) => {
            let legacy = legacy_managed_dsh_path(host, config.managed_runtime_dir.as_str());
            if is_blank(config.dsh_path.as_str()) || equal(
                config.dsh_path.as_str(),
                legacy.as_str(),
            ) {
                config.dsh_path = entry;
                Bootstrapped { save: true, log: None }
            } else {
                Bootstrapped { save: false, log: None }
            }
        },
    }
}

/// A command that was found, with its version.
pub fn detect_dsh(found: Option<(String, Result<String, String>)>) -> (r: Result<
    (String, String),
    String,
>)
    ensures
        match (r, found) {
            (Ok((path, version)), Some((p, Ok(v)))) => path == p && version == v,
            (Err(e), Some((_, Err(complaint)))) => e == complaint,
            (Err(e), None) => e@ == "未找到 dsh，请手动指定可执行文件"@,
            _ => false,
        },
{
    match found {
        Some((path, Ok(version))) => Ok((path, version)),
        Some((_, Err(complaint))) => Err(complaint),
        None => Err("未找到 dsh，请手动指定可执行文件".to_string()),
    }
}

/// The profile that a command is about.
pub fn profile_or_web<'a>(profile: Option<&'a str>) -> (r: &'a str)
    ensures
        r@ == match profile {
            Some(p) => p@,
            None => "web"@,
        },
{
    match profile {
        Some(p) => p,
        None => "web",
    }
}

/// The directory that is opened for a profile.
pub fn open_profile_dir(directory: Option<Vec<u8>>) -> (r: Result<Vec<u8>, String>)
    ensures
        match (r, directory) {
            (Ok(d), Some(known)) => d == known,
            (Err(e), None) => e@ == "无法定位 DSH Profile 目录"@,
            _ => false,
        },
{
    match directory {
        Some(d) => Ok(d),
        None => Err("无法定位 DSH Profile 目录".to_string()),
    }
}

impl ServiceManager {
    /// The address under which the service is opened: with the token if it is known.
    pub fn open_service_url(&self) -> (r: Result<String, String>)
        ensures
            match (self.authenticated_url, self.status.url) {
                (Some(u), _) => r matches Ok(a) && a@ == u@,
                (None, Some(u)) => r matches Ok(a) && a@ == u@,
                (None, None) => r matches Err(e) && e@ == "DSH 服务尚未运行"@,
            },
    {
        match self.authenticated_url() {
            Some(u) => Ok(u),
            None => match self.status().url {
                Some(u) => Ok(u),
                None => Err("DSH 服务尚未运行".to_string()),
            },
        }
    }
}

/// The address of a release that is opened: only pages of this project's releases are.
pub fn open_release_page(url: &str) -> (r: Result<String, String>)
    ensures
        match r {
            Ok(u) => update::allowed_release_url(url@) && u@ == text::trim(url@),
            Err(e) => !update::allowed_release_url(url@) && e@
                == "仅允许打开 DSH Desktop 的 GitHub Release 页面"@,
        },
{
    if validate_release_url(url) {
        Ok(string_of(trimmed(chars_of(url).as_slice())))
    } else {
        Err("仅允许打开 DSH Desktop 的 GitHub Release 页面".to_string())
    }
}

// ---------------------------------------------------------------------------
// The tray
// ---------------------------------------------------------------------------

/// An entry of the tray's menu.
#[derive(Debug, Clone, Copy)]
pub enum MenuEntry {
    Item { id: &'static str, title: &'static str, enabled: bool },
    Separator,
}

pub enum MenuEntryView {
    Item { id: Seq<char>, title: Seq<char>, enabled: bool },
    Separator,
}

pub open spec fn menu_entry_view(e: MenuEntry) -> MenuEntryView {
    match e {
        MenuEntry::Item { id, title, enabled } => MenuEntryView::Item {
            id: id@,
            title: title@,
            enabled,
        },
        MenuEntry::Separator => MenuEntryView::Separator,
    }
}

pub open spec fn menu_item(id: Seq<char>, title: Seq<char>, enabled: bool) -> MenuEntryView {
    MenuEntryView::Item { id, title, enabled }
}

/// The tray's menu.
pub open spec fn tray_menu() -> Seq<MenuEntryView> {
    seq![
        menu_item("title"@, "DSH Launcher"@, false),
        MenuEntryView::Separator,
        menu_item("show_main"@, "打开主界面"@, true),
        menu_item("open_web"@, "打开 Web GUI"@, true),
        MenuEntryView::Separator,
        menu_item("start_service"@, "启动服务"@, true),
        menu_item("stop_service"@, "停止服务"@, true),
        menu_item("restart_service"@, "重启服务"@, true),
        MenuEntryView::Separator,
        menu_item("quit"@, "退出"@, true),
    ]
}

fn item(id: &'static str, title: &'static str) -> (r: MenuEntry)
    ensures
        menu_entry_view(r) == menu_item(id@, title@, true),
{
    MenuEntry::Item { id, title, enabled: true }
}

/// The entries of the tray's menu, from top to bottom.
pub fn menu_items() -> (r: Vec<MenuEntry>)
    ensures
        r@.map_values(|e: MenuEntry| menu_entry_view(e)) == tray_menu(),
{
    let mut menu: Vec<MenuEntry> = Vec::new();
    menu.push(MenuEntry::Item { id: "title", title: "DSH Launcher", enabled: false });
    menu.push(MenuEntry::Separator);
    menu.push(item("show_main", "打开主界面"));
    menu.push(item("open_web", "打开 Web GUI"));
    menu.push(MenuEntry::Separator);
    menu.push(item("start_service", "启动服务"));
    menu.push(item("stop_service", "停止服务"));
    menu.push(item("restart_service", "重启服务"));
    menu.push(MenuEntry::Separator);
    menu.push(item("quit", "退出"));
    assert(menu@.map_values(|e: MenuEntry| menu_entry_view(e)) =~= tray_menu());
    menu
}

/// What an entry of the tray's menu does.
#[derive(Debug, Clone, Copy, PartialEq, Eq, Structural)]
pub enum TrayAction {
    ShowMain,
    OpenWeb,
    Start,
    Stop,
    Restart,
    Quit,
    Ignore,
}

/// The service may be started from the tray: it is not running, as far as the launcher knows.
pub open spec fn startable(phase: Seq<char>) -> bool {
    phase == "stopped"@ || phase == "failed"@ || phase == "external"@
}

/// What an entry does. During maintenance the service is neither started nor restarted.
pub open spec fn tray_action(id: Seq<char>, maintenance: bool, phase: Seq<char>) -> TrayAction {
    if id == "show_main"@ {
        TrayAction::ShowMain
    } else if id == "open_web"@ {
        TrayAction::OpenWeb
    } else if id == "start_service"@ {
        if !maintenance && startable(phase) {
            TrayAction::Start
        } else {
            TrayAction::Ignore
        }
    } else if id == "stop_service"@ {
        TrayAction::Stop
    } else if id == "restart_service"@ {
        if !maintenance {
            TrayAction::Restart
        } else {
            TrayAction::Ignore
        }
    } else if id == "quit"@ {
        TrayAction::Quit
    } else {
        TrayAction::Ignore
    }
}

pub fn menu_action(id: &str, maintenance: bool, phase: &str) -> (r: TrayAction)
    ensures
        r == tray_action(id@, maintenance, phase@),
{
    if equal(id, "show_main") {
        TrayAction::ShowMain
    } else if equal(id, "open_web") {
        TrayAction::OpenWeb
    } else if equal(id, "start_service") {
        if !maintenance && (equal(phase, "stopped") || equal(phase, "failed") || equal(
            phase,
            "external",
        )) {
            TrayAction::Start
        } else {
            TrayAction::Ignore
        }
    } else if equal(id, "stop_service") {
        TrayAction::Stop
    } else if equal(id, "restart_service") {
        if !maintenance {
            TrayAction::Restart
        } else {
            TrayAction::Ignore
        }
    } else if equal(id, "quit") {
        TrayAction::Quit
    } else {
        TrayAction::Ignore
    }
}

/// Whether the main window is shown after a start from the tray: the service turned out to
/// be one that the launcher did not start.
pub fn shows_main_after_start(phase: &str) -> (r: bool)
    ensures
        r == (phase@ == "external"@),
{
    equal(phase, "external")
}

/// During maintenance nothing in the tray's menu starts the service.
pub proof fn the_tray_respects_maintenance(id: Seq<char>, phase: Seq<char>)
    ensures
        tray_action(id, true, phase) != TrayAction::Start,
        tray_action(id, true, phase) != TrayAction::Restart,
{
}

// ---------------------------------------------------------------------------
// The main window
// ---------------------------------------------------------------------------

/// The main window's part in the event loop.
#[derive(Debug, Clone, Copy, PartialEq, Eq, Structural)]
pub struct MainWindow {
    /// The window is to be hidden once the current events are dealt with.
    pub pending_hide: bool,
}

/// Something that happened in the event loop.
#[derive(Debug)]
pub enum RunSignal {
    /// The window with this label is to be closed.
    CloseRequested(String),
    /// All events at hand were dealt with.
    EventsCleared,
    /// The launcher was called up again.
    Reopen { has_visible_windows: bool },
    Exit,
}

/// What is done about it.
#[derive(Debug, Clone, Copy, PartialEq, Eq, Structural)]
pub enum RunStep {
    PreventClose,
    SaveState,
    Hide,
    ShowMain,
    Shutdown,
}

/// Closing the main window only hides it, and not before the events at hand were dealt with.
pub open spec fn run_after(w: MainWindow, signal: RunSignal) -> (MainWindow, Seq<RunStep>) {
    match signal {
        RunSignal::CloseRequested(label) => if label@ == "main"@ {
            (MainWindow { pending_hide: true }, seq![RunStep::PreventClose])
        } else {
            (w, seq![])
        },
        RunSignal::EventsCleared => if w.pending_hide {
            (MainWindow { pending_hide: false }, seq![RunStep::SaveState, RunStep::Hide])
        } else {
            (w, seq![])
        },
        RunSignal::Reopen { has_visible_windows } => if has_visible_windows {
            (w, seq![])
        } else {
            (w, seq![RunStep::ShowMain])
        },
        RunSignal::Exit => (w, seq![RunStep::SaveState, RunStep::Shutdown]),
    }
}

impl MainWindow {
    pub fn new() -> (r: MainWindow)
        ensures
            !r.pending_hide,
    {
        MainWindow { pending_hide: false }
    }

    pub fn run(&mut self, signal: RunSignal) -> (r: Vec<RunStep>)
        ensures
            (*final(self), r@) == run_after(*old(self), signal),
    {
        let ghost want = run_after(*self, signal);
        let mut steps: Vec<RunStep> = Vec::new();
        match signal {
            RunSignal::CloseRequested(label) => {
                if equal(label.as_str(), "main") {
                    self.pending_hide = true;
                    steps.push(RunStep::PreventClose);
                }
            },
            RunSignal::EventsCleared => {
                if self.pending_hide {
                    self.pending_hide = false;
                    steps.push(RunStep::SaveState);
                    steps.push(RunStep::Hide);
                }
            },
            RunSignal::Reopen { has_visible_windows } => {
                if !has_visible_windows {
                    steps.push(RunStep::ShowMain);
                }
            },
            RunSignal::Exit => {
                steps.push(RunStep::SaveState);
                steps.push(RunStep::Shutdown);
            },
        }
        assert(steps@ =~= want.1);
        steps
    }
}

/// Closing the main window never ends the launcher or the service: it is kept open, hidden
/// once when the events were dealt with, and then left alone.
pub proof fn closing_the_main_window_only_hides_it(w: MainWindow, label: String)
    requires
        label@ == "main"@,
    ensures
        ({
            let (asked, steps) = run_after(w, RunSignal::CloseRequested(label));
            let (hidden, later) = run_after(asked, RunSignal::EventsCleared);
            &&& steps == seq![RunStep::PreventClose]
            &&& later == seq![RunStep::SaveState, RunStep::Hide]
            &&& run_after(hidden, RunSignal::EventsCleared) == (hidden, Seq::<RunStep>::empty())
        }),
{
}

// ---------------------------------------------------------------------------
// What the entries and signals do
// ---------------------------------------------------------------------------

/// Each entry of the tray's menu does what its name says; the service is started only if it is
/// stopped, failed or not the launcher's own.
pub proof fn each_entry_does_what_it_says(phase: Seq<char>, maintenance: bool, other: Seq<char>)
    ensures
        tray_action("show_main"@, maintenance, phase) == TrayAction::ShowMain,
        tray_action("open_web"@, maintenance, phase) == TrayAction::OpenWeb,
        tray_action("stop_service"@, maintenance, phase) == TrayAction::Stop,
        tray_action("quit"@, maintenance, phase) == TrayAction::Quit,
        tray_action("restart_service"@, false, phase) == TrayAction::Restart,
        tray_action("start_service"@, false, phase) == TrayAction::Start <==> phase == "stopped"@
            || phase == "failed"@ || phase == "external"@,
        tray_action(other, maintenance, phase) != TrayAction::Ignore ==> other == "show_main"@
            || other == "open_web"@ || other == "start_service"@ || other == "stop_service"@
            || other == "restart_service"@ || other == "quit"@,
{
    reveal_strlit("show_main");
    reveal_strlit("open_web");
    reveal_strlit("start_service");
    reveal_strlit("stop_service");
    reveal_strlit("restart_service");
    reveal_strlit("quit");
    assert("start_service"@[2] == 'a' && "stop_service"@[2] == 'o');
    assert("show_main"@.len() == 9 && "open_web"@.len() == 8 && "quit"@.len() == 4);
    assert("start_service"@.len() == 13 && "stop_service"@.len() == 12);
    assert("restart_service"@.len() == 15);
}

/// Every entry of the tray's menu that can be chosen does something when the service is
/// stopped and nothing is being maintained.
pub proof fn every_entry_of_the_menu_works(i: int)
    requires
        0 <= i < tray_menu().len(),
        tray_menu()[i] is Item,
        tray_menu()[i]->enabled,
    ensures
        tray_action(tray_menu()[i]->id, false, "stopped"@) != TrayAction::Ignore,
{
    each_entry_does_what_it_says("stopped"@, false, "quit"@);
}

/// Only the main window is kept from closing; the launcher that is called up again shows it if
/// no window is visible, and the launcher that ends keeps its state first and then ends the
/// service.
pub proof fn other_signals_are_followed(w: MainWindow, label: String)
    ensures
        label@ != "main"@ ==> run_after(w, RunSignal::CloseRequested(label)) == (
            w,
            Seq::<RunStep>::empty(),
        ),
        run_after(w, RunSignal::Reopen { has_visible_windows: true }) == (w, Seq::<RunStep>::empty()),
        run_after(w, RunSignal::Reopen { has_visible_windows: false }) == (
            w,
            seq![RunStep::ShowMain],
        ),
        run_after(w, RunSignal::Exit) == (w, seq![RunStep::SaveState, RunStep::Shutdown]),
        !w.pending_hide ==> run_after(w, RunSignal::EventsCleared) == (w, Seq::<RunStep>::empty()),
{
}

/// The configured command follows the entry of the installation if none is configured or if it
/// is the entry under its first name, and stays otherwise.
pub proof fn a_command_of_ones_own_stays(host: PlatformTarget, c: LauncherConfig)
    ensures
        follows_the_entry(host, c) <==> text::trim(c.dsh_path@).len() == 0 || c.dsh_path@
            == crate::path::join(
            host,
            c.managed_runtime_dir@,
            if host == PlatformTarget::Windows {
                "dsh-managed.cmd"@
            } else {
                "dsh-managed"@
            },
        ),
{
}

/// A command that broke down is named.
pub proof fn a_broken_command_is_named()
    ensures
        task_text(Task::ForceStop) == "强制停止任务异常结束："@,
        task_text(Task::ListPlugins) == "读取插件列表任务异常结束："@,
        task_text(Task::UninstallPlugin) == "卸载插件任务异常结束："@,
        task_text(Task::Clean) == "清理任务异常结束："@,
        task_text(Task::OpenView) == "打开内嵌视图任务异常结束："@,
        task_text(Task::OpenBrowser) == "打开浏览器任务异常结束："@,
        task_text(Task::Install) == "安装任务异常结束："@,
        task_text(Task::Upgrade) == "升级任务异常结束："@,
        task_text(Task::ManagedStatus) == "检查托管环境异常结束："@,
        task_text(Task::LatestDsh) == "检查 DSH 更新异常结束："@,
        task_text(Task::DshVersion) == "检查 DSH 版本异常结束："@,
        task_text(Task::StopForUpdate) == "停止 DSH 服务任务异常："@,
{
}

} // verus!
