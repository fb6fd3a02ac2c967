//! What each step of the life of the service leads to: where it goes on, what is shown, what is
//! opened and closed, and what the launcher owns afterwards.

use vstd::prelude::*;

use crate::adapters;
use crate::config::LauncherConfig;
use crate::guarantees::{shows_no_page, shows_page};
use crate::monitor;
use crate::monitor::{AdoptedStep, HandoffView, QuarantineView, Sighting, StartupStep, WatchView};
use crate::process;
use crate::process::Listener;
use crate::service;
use crate::service::{
    EffectView, ForceEvent, ForceStageView, ForceView, ManagerView, Quarantine, RunView,
    StartEvent, StartStageView, StartView, StopEvent, StopStageView, StopView,
};
use crate::session_monitor;
use crate::text;

verus! {

/// The run is the one that the launcher is at: nothing was started or stopped since.
pub open spec fn is_current(m: ManagerView, run: RunView) -> bool {
    &&& m.generation == run.generation
    &&& run.cancelled < m.flags.len()
    &&& !m.flags[run.cancelled as int]
}

/// What is told of the status is what is shown; a change is told, and a service that does not
/// run shows no activity in the tray.
pub open spec fn tells_the_status(
    m: ManagerView,
    m2: ManagerView,
    effects: Seq<EffectView>,
) -> bool {
    &&& forall|i: int|
        0 <= i < effects.len() && #[trigger] effects[i] is Status ==> effects[i]
            == EffectView::Status(m2.status)
    &&& m2.status != m.status ==> effects.contains(EffectView::Status(m2.status))
    &&& m2.status != m.status && m2.status.phase != "running"@ ==> effects.contains(
        EffectView::TrayIdle,
    )
    &&& m2.status.phase == "running"@ ==> !effects.contains(EffectView::TrayIdle)
}

// ---------------------------------------------------------------------------
// The status
// ---------------------------------------------------------------------------

proof fn lemma_phase_texts()
    ensures
        "running"@ != "starting"@,
        "running"@ != "stopped"@,
        "running"@ != "stopping"@,
        "running"@ != "failed"@,
        "running"@ != "external"@,
        "running"@ != "restarting"@,
{
    reveal_strlit("external");
    reveal_strlit("starting");
    reveal_strlit("stopped");
    reveal_strlit("stopping");
    reveal_strlit("failed");
    reveal_strlit("running");
    reveal_strlit("restarting");
    assert("external"@[0] == 'e');
    assert("starting"@[0] == 's');
    assert("stopped"@[0] == 's');
    assert("stopping"@[0] == 's');
    assert("failed"@[0] == 'f');
    assert("running"@[0] == 'r' && "running"@[1] == 'u');
    assert("restarting"@[1] == 'e');
}

/// Whatever goes out when a status is shown tells that status, and nothing else of it.
proof fn lemma_announced(next: service::StatusView)
    ensures
        ({
            let a = service::announced(next);
            &&& a.len() >= 1
            &&& a.last() == EffectView::Status(next)
            &&& next.phase != "running"@ ==> a.len() == 2 && a[0] == EffectView::TrayIdle
            &&& next.phase == "running"@ ==> a.len() == 1
        }),
{
}

/// A step of a start tells the status that it shows.
pub proof fn a_start_tells_its_status(m: ManagerView, s: StartView, event: StartEvent)
    requires
        m.status.phase != "running"@,
    ensures
        ({
            let (m2, _, effects) = service::start_advanced(m, s, event);
            tells_the_status(m, m2, effects) && shows_no_page(effects)
        }),
{
    lemma_phase_texts();
    let (m2, _, effects) = service::start_advanced(m, s, event);
    if m2.status != m.status {
        lemma_announced(m2.status);
        assert(effects[0] == EffectView::TrayIdle);
        assert(effects[1] == EffectView::Status(m2.status));
    }
}

/// The watchers of a start tell the status that they show.
pub proof fn a_watched_start_tells_its_status(
    m: ManagerView,
    run: RunView,
    expired: bool,
    exit: Option<Seq<char>>,
    ready: bool,
)
    ensures
        ({
            let (m2, _, effects) = monitor::startup_polled(m, run, expired, exit, ready);
            tells_the_status(m, m2, effects) && shows_no_page(effects)
        }),
        ({
            let (m2, _, effects) = monitor::token_polled(m, run, expired);
            tells_the_status(m, m2, effects)
        }),
{
    lemma_phase_texts();
    let (m2, _, effects) = monitor::startup_polled(m, run, expired, exit, ready);
    if m2.status != m.status {
        lemma_announced(m2.status);
        assert(effects[0] == EffectView::TrayIdle);
        assert(effects[1] == EffectView::Status(m2.status));
    }
    let (m3, _, more) = monitor::token_polled(m, run, expired);
    if more.len() > 0 && m.runs(run) {
        lemma_announced(m3.status);
        assert(more[more.len() - 4] == EffectView::Status(m3.status));
    }
}

/// The watchers of a process tell the status that they show.
pub proof fn a_watched_process_tells_its_status(
    m: ManagerView,
    run: RunView,
    success: bool,
    exit: Seq<char>,
    old_pid: u32,
    expired: bool,
    seen: Sighting,
    w: WatchView,
    listener: Listener,
    alive: bool,
)
    ensures
        ({
            let (m2, _, effects) = monitor::child_exited_to(m, run, success, exit);
            tells_the_status(m, m2, effects) && shows_no_page(effects)
        }),
        ({
            let (m2, _, effects) = monitor::handoff_polled(m, run, old_pid, expired, seen);
            tells_the_status(m, m2, effects) && shows_no_page(effects)
        }),
        ({
            let (m2, _, _, effects) = monitor::adopted_polled(m, run, w, listener, alive);
            tells_the_status(m, m2, effects) && shows_no_page(effects)
        }),
{
    lemma_phase_texts();
    let (m2, _, effects) = monitor::child_exited_to(m, run, success, exit);
    if effects.len() > 0 {
        lemma_announced(m2.status);
        assert(effects[effects.len() - 2] == EffectView::Status(m2.status));
        assert(effects[effects.len() - 3] == EffectView::TrayIdle);
    }
    let (m3, _, more) = monitor::handoff_polled(m, run, old_pid, expired, seen);
    if more.len() > 0 {
        lemma_announced(m3.status);
        assert(more[more.len() - 2] == EffectView::Status(m3.status));
        if expired {
            assert(more[more.len() - 3] == EffectView::TrayIdle);
        }
    }
    let (m4, _, _, rest) = monitor::adopted_polled(m, run, w, listener, alive);
    if rest.len() > 0 {
        lemma_announced(m4.status);
        assert(rest[rest.len() - 2] == EffectView::Status(m4.status));
        assert(rest[rest.len() - 3] == EffectView::TrayIdle);
    }
}

// ---------------------------------------------------------------------------
// Starting
// ---------------------------------------------------------------------------

/// A start that is not refused begins a run of its own, at the address of its configuration:
/// the run is the current one, and it ends by flags that nothing else has.
pub proof fn a_start_begins_a_run_of_its_own(m: ManagerView, config: LauncherConfig, exited: bool)
    requires
        m.wf(),
        m.flags.len() + 2 <= usize::MAX,
    ensures
        ({
            let (m2, start) = service::start_begun(m, config, exited);
            start matches Some(s) ==> {
                &&& s.stage is Resolve
                &&& s.run.config == config
                &&& s.run.url == "http://"@ + process::authority(config.host@, config.port)
                &&& is_current(m2, s.run)
                &&& m2.active_config == Some(config)
                &&& m2.active_cancel == Some(s.run.cancelled)
                &&& m2.session_cancel == Some(s.run.session_cancel)
                &&& s.run.cancelled >= m.flags.len() && s.run.session_cancel >= m.flags.len()
                &&& s.run.cancelled != s.run.session_cancel
                &&& !m2.flags[s.run.session_cancel as int]
                &&& m.session_cancel matches Some(old) ==> m2.flags[old as int]
                &&& m2.status == m.status
                &&& m2.session_credentials is None && m2.authenticated_url is None
                &&& m2.owned is None && m2.adopted is None
            }
        }),
{
}

/// A start finds the command, then the addresses of the host, then whether anything listens
/// there. Where nothing listens it starts the command; where a web service answers it leaves
/// that one alone; and where anything else listens it gives up.
pub proof fn a_start_goes_on_by_what_it_finds(m: ManagerView, s: StartView, event: StartEvent)
    ensures
        ({
            let (m2, s2, _) = service::start_advanced(m, s, event);
            let custom = process::custom_arguments(s.run.config.custom_args@);
            &&& s2.run.config == s.run.config && s2.run.url == s.run.url && s2.run.generation
                == s.run.generation && s2.run.cancelled == s.run.cancelled
                && s2.run.session_cancel == s.run.session_cancel
            &&& s.stage is Done ==> s2 == s && m2 == m
            &&& s.stage is Resolve ==> match event {
                StartEvent::Resolved(Some(dsh)) => s2.stage is Address && s2.dsh == dsh@ && m2 == m,
                StartEvent::Resolved(None) => s2.stage == StartStageView::Done(
                    Err("未找到可执行的 dsh，请手动指定路径"@),
                ) && m2.status == m.status,
                _ => s2 == s && m2 == m,
            }
            &&& s.stage is Address ==> match event {
                StartEvent::Addressed(found) => if found {
                    s2.stage is Probe && s2.dsh == s.dsh && m2 == m
                } else {
                    s2.stage == StartStageView::Done(Err("主机或端口格式无效"@)) && m2.status
                        == m.status
                },
                _ => s2 == s && m2 == m,
            }
            &&& s.stage is Probe ==> match event {
                StartEvent::Connected(true) => s2.stage is Health && s2.dsh == s.dsh && m2 == m,
                StartEvent::Connected(false) => match custom {
                    Some(custom) => {
                        &&& s2.stage is Spawn
                        &&& s2.dsh == s.dsh
                        &&& m2.status.phase == "starting"@
                        &&& m2.status.url == Some(s.run.url)
                        &&& m2.status.pid is None
                        &&& m2.authenticated_url is None
                    },
                    None => s2.stage == StartStageView::Done(
                        Err("DSH 参数格式无效：missing closing quote"@),
                    ) && m2.status == m.status,
                },
                _ => s2 == s && m2 == m,
            }
            &&& s.stage is Health ==> match event {
                StartEvent::Ready(true) => {
                    &&& s2.stage == StartStageView::Done(Ok(m2.status))
                    &&& m2.status.phase == "external"@
                    &&& m2.status.url == Some(s.run.url)
                    &&& m2.status.pid is None
                    &&& m2.owned == m.owned && m2.adopted == m.adopted
                },
                StartEvent::Ready(false) => s2.stage == StartStageView::Done(
                    Err(
                        "端口 "@ + text::decimal(s.run.config.port as nat)
                            + " 已被其他程序占用"@,
                    ),
                ) && m2.status == m.status,
                _ => s2 == s && m2 == m,
            }
            &&& s.stage is Spawn ==> match event {
                StartEvent::Spawned(Ok(pid)) => {
                    &&& s2.stage == StartStageView::Done(Ok(m2.status))
                    &&& s2.run.pid == pid
                    &&& m2.status.phase == "starting"@
                    &&& m2.status.url == Some(s.run.url)
                    &&& m2.status.pid == Some(pid)
                    &&& m2.owned is Some && m2.owned->0.pid == pid && m2.owned->0.cancelled
                        == s.run.cancelled
                    &&& m2.adopted is None
                    &&& m2.flags == m.flags && m2.generation == m.generation
                },
                StartEvent::Spawned(Err(error)) => {
                    &&& s2.stage == StartStageView::Done(Err("启动 dsh 失败："@ + error@))
                    &&& m2.status.phase == "failed"@
                    &&& m2.status.message == "启动失败："@ + error@
                    &&& m2.status.pid is None && m2.status.url is None
                },
                _ => s2 == s && m2 == m,
            }
        }),
{
}

/// The command is started with the profile, the host and the port of the configuration, and
/// then with the additional arguments as they are written.
pub proof fn a_service_is_started_as_it_is_configured(
    m: ManagerView,
    s: StartView,
    custom: Seq<Seq<char>>,
)
    requires
        s.stage is Probe,
        process::custom_arguments(s.run.config.custom_args@) == Some(custom),
    ensures
        ({
            let (_, s2, effects) = service::start_advanced(m, s, StartEvent::Connected(false));
            let config = s.run.config;
            &&& s2.args.len() == 6 + custom.len()
            &&& s2.args[0] == "--profile"@
            &&& s2.args[1] == text::trim(config.profile@)
            &&& s2.args[2] == "--host"@
            &&& s2.args[3] == text::trim(config.host@)
            &&& s2.args[4] == "--port"@
            &&& s2.args[5] == text::decimal(config.port as nat)
            &&& s2.args.skip(6) == custom
            &&& effects.contains(
                EffectView::Log { level: "info"@, message: "Starting "@ + adapters::lossy(s.dsh) },
            )
        }),
{
    let (_, s2, effects) = service::start_advanced(m, s, StartEvent::Connected(false));
    assert(s2.args.skip(6) =~= custom);
    lemma_phase_texts();
    assert(effects[2] == EffectView::Log {
        level: "info"@,
        message: "Starting "@ + adapters::lossy(s.dsh),
    });
}

/// A start that fails, or that finds a service of another, leaves no run behind.
pub proof fn a_start_that_comes_to_nothing_leaves_nothing(
    m: ManagerView,
    s: StartView,
    event: StartEvent,
)
    requires
        !(s.stage is Done),
        s.run.cancelled < m.flags.len(),
    ensures
        ({
            let (m2, s2, _) = service::start_advanced(m, s, event);
            (s2.stage matches StartStageView::Done(r) && (r is Err || m2.status.phase
                == "external"@)) ==> {
                &&& !is_current(m2, s2.run)
                &&& m2.active_config is None && m2.active_cancel is None
                &&& m2.session_cancel is None && m2.session_credentials is None
                &&& !m2.handoff_active
                &&& m.session_cancel matches Some(f) ==> f < m.flags.len() ==> m2.flags[f as int]
            }
        }),
{
    crate::guarantees::lemma_phases();
}

// ---------------------------------------------------------------------------
// Waiting for an answer
// ---------------------------------------------------------------------------

/// A service that starts is looked at until it answers. If time is up first it has failed and
/// is still shown with its process; if its process exits first it has failed, and nothing of it
/// is left.
pub proof fn a_start_is_watched_until_it_answers(
    m: ManagerView,
    run: RunView,
    expired: bool,
    exit: Option<Seq<char>>,
    ready: bool,
)
    ensures
        ({
            let (m2, step, effects) = monitor::startup_polled(m, run, expired, exit, ready);
            let over = run.cancelled >= m.flags.len() || m.flags[run.cancelled as int];
            &&& over ==> m2 == m && step is Over && effects.len() == 0
            &&& !over && !expired && exit is None ==> m2 == m && effects.len() == 0 && step == (
            if ready {
                StartupStep::AwaitToken
            } else {
                StartupStep::Again
            })
            &&& expired || exit is Some ==> step is Over
            &&& is_current(m, run) && expired ==> {
                &&& m2.status.phase == "failed"@
                &&& m2.status.pid == Some(run.pid)
                &&& m2.status.url == Some(run.url)
                &&& m2.status.message == "DSH 启动超时，请停止服务后检查日志"@
                &&& m2.owned == m.owned
                &&& effects.contains(
                    EffectView::Log {
                        level: "error"@,
                        message: "Health check did not pass within 30 seconds"@,
                    },
                )
            }
            &&& is_current(m, run) && run.session_cancel != run.cancelled && !expired && exit is Some
                ==> {
                &&& m2.status.phase == "failed"@
                &&& m2.status.pid is None && m2.status.url is None
                &&& m2.status.message == "DSH 在启动期间退出："@ + exit->0
                &&& m2.session_credentials is None && m2.session_cancel is None
                &&& run.session_cancel < m.flags.len() ==> m2.flags[run.session_cancel as int]
            }
        }),
{
    lemma_phase_texts();
    let (m2, step, effects) = monitor::startup_polled(m, run, expired, exit, ready);
    if is_current(m, run) && expired {
        assert(effects[2] == EffectView::Log {
            level: "error"@,
            message: "Health check did not pass within 30 seconds"@,
        });
    }
}

/// A service that runs is known to its sessions by the origin and the token of the address at
/// which it is opened.
pub proof fn a_running_service_is_known_by_its_token(m: ManagerView, run: RunView, expired: bool)
    requires
        is_current(m, run),
    ensures
        ({
            let (m2, _, _) = monitor::token_polled(m, run, expired);
            m.authenticated_url matches Some(url) ==> match session_monitor::authenticated(url) {
                Some((origin, token)) => m2.session_credentials is Some
                    && m2.session_credentials->0.origin == origin && m2.session_credentials->0.token
                    == Some(token) && m2.session_credentials->0.cookie is None,
                None => m2.session_credentials == m.session_credentials,
            }
        }),
{
}

/// An address is taken over from a line only where the line announces it, where it carries a
/// token, and where it is one of the service that is configured.
pub proof fn only_an_address_of_the_service_is_taken_over(
    m: ManagerView,
    line: Seq<char>,
    host: Seq<char>,
    port: u16,
)
    ensures
        ({
            let m2 = service::line_captured(m, line, host, port);
            &&& m2 == (ManagerView { authenticated_url: m2.authenticated_url, ..m })
            &&& m2.authenticated_url != m.authenticated_url ==> {
                &&& m.status.phase != "external"@
                &&& m2.authenticated_url is Some
                &&& adapters::url_of(m2.authenticated_url->0) matches Ok(u)
                    && adapters::url_of(process::service_address(host, port)) matches Ok(own) && {
                    &&& u.scheme == "http"@ || u.scheme == "https"@
                    &&& exists|i: int| 0 <= i < u.query.len() && (#[trigger] u.query[i]).0 == "token"@
                    &&& adapters::web_origin(u) == adapters::web_origin(own)
                }
                &&& text::starts_with(text::trim(line), "dsh web: "@)
            }
        }),
{
    if let Some(url) = service::captured_url(line, host, port) {
        let u = adapters::url_of(url)->Ok_0;
        crate::config::the_first_value_is_taken(u.query, "token"@);
    }
}

/// The address with a token that a line announces, and nothing but that, is taken over while
/// the service is the launcher's own.
pub proof fn an_announced_address_is_taken_over(
    m: ManagerView,
    url: Seq<char>,
    host: Seq<char>,
    port: u16,
)
    requires
        m.status.phase != "external"@,
        text::trim(url) == url,
        url.len() > 0,
        !text::is_space(url.last()),
        text::find_text(url, " (LAN:"@) is None,
        adapters::url_of(url) is Ok,
        service::carries_token(adapters::url_of(url)->Ok_0),
        service::same_origin(url, process::service_address(host, port)),
    ensures
        service::line_captured(m, "dsh web: "@ + url, host, port).authenticated_url == Some(url),
{
    reveal_strlit("dsh web: ");
    let head = "dsh web: "@;
    let line = head + url;
    assert(line[0] == 'd');
    assert(line.last() == url.last());
    assert(line.take(head.len() as int) =~= head);
    assert(line.skip(head.len() as int) =~= url);
}

// ---------------------------------------------------------------------------
// A process that exits, and its successor
// ---------------------------------------------------------------------------

/// A process that ends cleanly may be restarted by a plugin: its page stays and a successor is
/// waited for. One that fails is over: its page is closed, and nothing of it is left. Either
/// way its sessions are no longer watched.
pub proof fn a_clean_exit_waits_for_a_successor(
    m: ManagerView,
    run: RunView,
    success: bool,
    exit: Seq<char>,
)
    requires
        is_current(m, run),
        run.session_cancel != run.cancelled,
        run.session_cancel < m.flags.len(),
    ensures
        ({
            let (m2, waits, effects) = monitor::child_exited_to(m, run, success, exit);
            &&& waits == (success && !m.handoff_active)
            &&& m2.flags[run.session_cancel as int]
            &&& is_current(m2, run)
            &&& waits ==> {
                &&& m2.handoff_active
                &&& m2.status.phase == "restarting"@
                &&& m2.status.url == Some(run.url)
                &&& m2.status.pid is None
                &&& m2.session_credentials == m.session_credentials
                &&& !effects.contains(EffectView::CloseContent)
            }
            &&& !success ==> {
                &&& m2.status.phase == "stopped"@
                &&& m2.status.message == "DSH 已退出："@ + exit
                &&& m2.status.url is None && m2.status.pid is None
                &&& m2.session_credentials is None && m2.session_cancel is None
                &&& effects.contains(EffectView::CloseContent)
                &&& effects.contains(
                    EffectView::Log {
                        level: "warning"@,
                        message: "DSH process exited: "@ + exit,
                    },
                )
            }
        }),
{
    lemma_phase_texts();
    let (m2, waits, effects) = monitor::child_exited_to(m, run, success, exit);
    if !success {
        assert(effects[0] == EffectView::CloseContent);
        assert(effects.last() == EffectView::Log {
            level: "warning"@,
            message: "DSH process exited: "@ + exit,
        });
    }
}

/// A process other than the old one, that was seen twice to listen with the same command line
/// of DSH and of this configuration, and that answered both times, is adopted: it is shown as
/// running at the address of the run, and its sessions are watched where they can be.
pub proof fn a_successor_is_adopted(m: ManagerView, run: RunView, old_pid: u32, seen: Sighting)
    requires
        is_current(m, run),
        m.flags.len() < usize::MAX,
        seen.first.pid matches Ok(pid) && pid != old_pid,
        seen.first.command is Ok,
        process::is_dsh_line(seen.first.command->Ok_0@),
        process::runs_config(seen.first.command->Ok_0@, run.config),
        seen.ready,
        seen.second.pid == seen.first.pid,
        seen.second.command matches Ok(c) && c@ == seen.first.command->Ok_0@,
        seen.still_ready,
    ensures
        ({
            let (m2, step, effects) = monitor::handoff_polled(m, run, old_pid, false, seen);
            let pid = seen.first.pid->Ok_0;
            let line = seen.first.command->Ok_0@;
            &&& step matches HandoffView::Adopted(w) && w.pid == pid && w.command_line == line
                && w.misses == 0 && m2.session_cancel == Some(w.session_cancel)
                && !m2.flags[w.session_cancel as int] && w.session_cancel >= m.flags.len()
            &&& m2.adopted is Some && m2.adopted->0.pid == pid && m2.adopted->0.command_line == line
                && m2.adopted->0.port == run.config.port
            &&& !m2.handoff_active
            &&& m2.status.phase == "running"@
            &&& m2.status.pid == Some(pid)
            &&& m2.status.url == Some(run.url)
            &&& m2.owned == m.owned
            &&& is_current(m2, run)
            &&& m.session_credentials is Some ==> effects.contains(
                EffectView::WatchSessions(m2.session_cancel->0),
            )
            &&& m.session_credentials is None ==> effects.contains(EffectView::TrayHealthy)
                && forall|i: int|
                0 <= i < effects.len() ==> !(#[trigger] effects[i] is WatchSessions)
        }),
{
    lemma_phase_texts();
    let (m2, step, effects) = monitor::handoff_polled(m, run, old_pid, false, seen);
    if m.session_credentials is Some {
        assert(effects[0] == EffectView::WatchSessions(m2.session_cancel->0));
    } else {
        assert(effects[0] == EffectView::TrayHealthy);
    }
}

/// Whoever is not confirmed as the successor is not adopted, and the wait goes on; when time is
/// up it ends, the page is closed, and the service is shown as stopped.
pub proof fn a_wait_without_a_successor_ends(
    m: ManagerView,
    run: RunView,
    old_pid: u32,
    expired: bool,
    seen: Sighting,
)
    ensures
        ({
            let (m2, step, effects) = monitor::handoff_polled(m, run, old_pid, expired, seen);
            let confirmed = seen.first.pid is Ok && seen.first.pid->Ok_0 != old_pid
                && seen.first.command is Ok && process::is_dsh_line(seen.first.command->Ok_0@)
                && process::runs_config(seen.first.command->Ok_0@, run.config) && seen.ready
                && seen.still_ready && seen.second.pid == seen.first.pid && seen.second.command is Ok
                && seen.second.command->Ok_0@ == seen.first.command->Ok_0@;
            &&& step is Adopted <==> is_current(m, run) && !expired && confirmed
            &&& is_current(m, run) && !expired && !confirmed ==> step is Again && m2 == m
                && effects.len() == 0
            &&& expired || !is_current(m, run) ==> step is Over && !m2.handoff_active
            &&& !is_current(m, run) ==> effects.len() == 0 && m2.status == m.status
            &&& is_current(m, run) && expired ==> {
                &&& m2.status.phase == "stopped"@
                &&& m2.status.pid is None && m2.status.url is None
                &&& m2.status.message == "DSH 已退出，未找到插件重启的服务进程"@
                &&& m2.session_credentials is None && m2.session_cancel is None
                &&& m2.authenticated_url is None
                &&& effects.contains(EffectView::CloseContent)
            }
        }),
{
    let (m2, step, effects) = monitor::handoff_polled(m, run, old_pid, expired, seen);
    if is_current(m, run) && expired {
        assert(effects[0] == EffectView::CloseContent);
    }
}

/// An adopted process that is seen is kept, and what was missed before is forgotten. One that
/// is not seen is kept while it is alive and was missed less than four times in a row; else it
/// is given up, and a successor is waited for.
pub proof fn an_adopted_process_is_watched(
    m: ManagerView,
    run: RunView,
    w: WatchView,
    seen: Listener,
    alive: bool,
)
    requires
        is_current(m, run),
        w.session_cancel != run.cancelled,
        w.session_cancel < m.flags.len(),
    ensures
        ({
            let (m2, w2, step, effects) = monitor::adopted_polled(m, run, w, seen, alive);
            let there = seen.pid is Ok && seen.pid->Ok_0 == w.pid && seen.command is Ok
                && seen.command->Ok_0@ == w.command_line;
            &&& w2.pid == w.pid && w2.command_line == w.command_line && w2.session_cancel
                == w.session_cancel
            &&& there ==> m2 == m && w2.misses == 0 && step is Again && effects.len() == 0
            &&& !there && w.misses < 255 ==> w2.misses == w.misses + 1
            &&& !there && alive && w.misses < 3 ==> m2 == m && step is Again && effects.len() == 0
            &&& !there && (!alive || w.misses >= 3) ==> {
                &&& step == if m.handoff_active {
                    AdoptedStep::Over
                } else {
                    AdoptedStep::Handoff
                }
                &&& m2.flags[w.session_cancel as int]
                &&& m2.adopted matches Some(a) ==> a.pid != w.pid
                &&& !m.handoff_active ==> m2.handoff_active && m2.status.phase == "restarting"@
                    && m2.status.url == Some(run.url)
            }
        }),
{
}

/// While the search for late successors goes on, a process that was seen twice with the same
/// command line of DSH and of the configuration that was stopped is ended, whoever it is; and
/// nothing else ends the search but time, a start or another stop.
pub proof fn a_late_successor_is_ended(
    m: ManagerView,
    q: Quarantine,
    expired: bool,
    first: Listener,
    second: Listener,
)
    ensures
        ({
            let (m2, step, effects) = monitor::quarantine_polled(m, q, expired, first, second);
            let wanted = m.generation == q.generation && q.cancelled < m.flags.len()
                && !m.flags[q.cancelled as int];
            let late = first.pid is Ok && first.pid->Ok_0 != 0 && first.command is Ok
                && process::is_dsh_line(first.command->Ok_0@) && process::runs_config(
                first.command->Ok_0@,
                q.config,
            ) && second.pid == first.pid && second.command is Ok && second.command->Ok_0@
                == first.command->Ok_0@;
            &&& step is Over <==> expired || !wanted
            &&& step is Over ==> !m2.quarantine_active && effects.len() == 0
            &&& !(step is Over) ==> m2 == m
            &&& step is End <==> !expired && wanted && late
            &&& step matches QuarantineView::End { pid, command_line } ==> pid == first.pid->Ok_0
                && command_line == first.command->Ok_0@ && (effects.len() > 0 <==> q.with_app)
            &&& m2.status == m.status && m2.owned == m.owned && m2.adopted == m.adopted
        }),
{
}

// ---------------------------------------------------------------------------
// Stopping
// ---------------------------------------------------------------------------

/// A stop takes over what the launcher owned, and ends it: a child that has not exited is asked
/// to end first. With an app the page is closed before anything else.
pub proof fn a_stop_takes_everything_over(m: ManagerView, with_app: bool, exited: bool)
    ensures
        ({
            let (m2, s, effects) = service::stop_begun(m, with_app, exited);
            let child = if exited {
                None
            } else {
                m.owned
            };
            &&& s.with_app == with_app
            &&& s.owned == child
            &&& s.adopted == m.adopted
            &&& m2.owned is None && m2.adopted is None && !m2.handoff_active
            &&& m2.session_credentials is None
            &&& m2.generation == m.generation.wrapping_add(1)
            &&& child is Some ==> s.stage is SignalChild
            &&& child is None && m.adopted is Some ==> s.stage is CheckAdopted
            &&& child is None && m.adopted is None ==> s.stage == StopStageView::Done(
                Ok(m2.status),
            ) && m2.status.phase == "stopped"@
            &&& child is Some || m.adopted is Some ==> m2.status.phase == "stopping"@ && s.quarantine is None
            &&& with_app ==> effects.len() > 0 && effects[0] == EffectView::CloseContent
            &&& !with_app ==> effects.len() == 0
            &&& with_app && (child is Some || m.adopted is Some) ==> effects.contains(
                EffectView::Status(m2.status),
            ) && effects.contains(EffectView::TrayIdle)
            &&& m.active_cancel matches Some(f) ==> f < m.flags.len() ==> m2.flags[f as int]
            &&& m.session_cancel matches Some(f) ==> f < m.flags.len() ==> m2.flags[f as int]
            &&& m.quarantine_cancel matches Some(f) ==> f < m.flags.len() ==> m2.flags[f as int]
            &&& child matches Some(c) ==> c.cancelled < m.flags.len() ==> m2.flags[c.cancelled as int]
        }),
{
    lemma_phase_texts();
    let (m2, s, effects) = service::stop_begun(m, with_app, exited);
    let child = if exited {
        None
    } else {
        m.owned
    };
    if with_app && (child is Some || m.adopted is Some) {
        assert(effects[1] == EffectView::TrayIdle);
        assert(effects[2] == EffectView::Status(m2.status));
    }
}

/// The service is shown as stopped, and where it ran with a configuration a search for late
/// successors with that configuration begins, which the next start or stop ends.
pub open spec fn is_stopped(m: ManagerView, m2: ManagerView, s: StopView, s2: StopView) -> bool {
    &&& s2.stage == StopStageView::Done(Ok(m2.status))
    &&& m2.status.phase == "stopped"@
    &&& m2.status.message == "服务未运行"@
    &&& m2.status.pid is None && m2.status.url is None
    &&& match m.active_config {
        Some(config) => s2.quarantine matches Some(q) && {
            &&& q.config == config
            &&& q.with_app == s.with_app
            &&& q.generation == m2.generation
            &&& m2.quarantine_cancel == Some(q.cancelled)
            &&& m2.quarantine_active
            &&& q.cancelled < m2.flags.len() && !m2.flags[q.cancelled as int]
        },
        None => s2.quarantine == s.quarantine && m2.flags == m.flags,
    }
}

/// A child that was asked to end is waited for, and forced to end only when time is up. An
/// adopted process is ended only if it was just seen to be the same. When nothing is left to
/// end, the service is stopped.
pub proof fn a_stop_ends_what_it_took_over(m: ManagerView, s: StopView, event: StopEvent)
    requires
        m.flags.len() < usize::MAX,
    ensures
        ({
            let (m2, s2) = service::stop_advanced(m, s, event);
            &&& s2.owned == s.owned && s2.adopted == s.adopted && s2.with_app == s.with_app
            &&& m2.generation == m.generation
            &&& s.stage is Done ==> m2 == m && s2 == s
            &&& s.stage is SignalChild ==> m2 == m && s2.stage == if event is Signalled {
                StopStageView::WaitChild
            } else {
                s.stage
            }
            &&& s.stage is WaitChild ==> match event {
                StopEvent::Child { exited: Err(e), expired } => m2 == m && s2.stage
                    == StopStageView::Done(Err("检查 DSH 退出状态失败："@ + e@)),
                StopEvent::Child { exited: Ok(true), expired } => if s.adopted is Some {
                    m2 == m && s2.stage is CheckAdopted
                } else {
                    is_stopped(m, m2, s, s2)
                },
                StopEvent::Child { exited: Ok(false), expired } => m2 == m && s2.stage
                    == if expired {
                    StopStageView::KillChild
                } else {
                    StopStageView::WaitChild
                },
                _ => m2 == m && s2 == s,
            }
            &&& s.stage is KillChild ==> match event {
                StopEvent::Killed => if s.adopted is Some {
                    m2 == m && s2.stage is CheckAdopted
                } else {
                    is_stopped(m, m2, s, s2)
                },
                _ => m2 == m && s2 == s,
            }
            &&& s.stage is CheckAdopted && s.adopted is Some ==> match event {
                StopEvent::Seen(seen) => if seen.pid is Ok && seen.pid->Ok_0 == s.adopted->0.pid
                    && seen.command is Ok && seen.command->Ok_0@ == s.adopted->0.command_line {
                    m2 == m && s2.stage is EndAdopted
                } else {
                    is_stopped(m, m2, s, s2)
                },
                _ => m2 == m && s2 == s,
            }
            &&& s.stage is EndAdopted ==> match event {
                StopEvent::Ended(Err(e)) => m2 == m && s2.stage == StopStageView::Done(Err(e@)),
                StopEvent::Ended(Ok(_)) => is_stopped(m, m2, s, s2),
                _ => m2 == m && s2 == s,
            }
        }),
{
}

// ---------------------------------------------------------------------------
// Ending a service of another
// ---------------------------------------------------------------------------

/// A service that the launcher did not start is ended only after its process was seen twice
/// and its command line is one of DSH; it is shown as stopped once nothing listens any more,
/// and if something still does when time is up that is reported.
pub proof fn a_service_of_another_is_ended_on_request(
    m: ManagerView,
    f: ForceView,
    event: ForceEvent,
)
    ensures
        ({
            let (m2, f2, effects) = service::force_advanced(m, f, event);
            &&& f2.port == f.port
            &&& f.stage is Done ==> m2 == m && f2 == f && effects.len() == 0
            &&& f.stage is Identify ==> match event {
                ForceEvent::Seen(seen) => if seen.pid is Ok && seen.command is Ok
                    && process::is_dsh_line(seen.command->Ok_0@) {
                    f2.stage is Recheck && f2.pid == seen.pid->Ok_0 && f2.command_line
                        == seen.command->Ok_0@ && m2 == m
                } else {
                    m2 == m && (f2.stage matches ForceStageView::Done(r) && r is Err)
                },
                _ => m2 == m && f2 == f,
            }
            &&& f.stage is Recheck ==> match event {
                ForceEvent::Seen(seen) => if seen.pid is Ok && seen.pid->Ok_0 == f.pid {
                    f2.stage is Terminate && f2.pid == f.pid && f2.command_line == f.command_line
                        && effects.contains(EffectView::CloseContent) && m2 == m
                } else {
                    m2 == m && (f2.stage matches ForceStageView::Done(r) && r is Err)
                        && effects.len() == 0
                },
                _ => m2 == m && f2 == f,
            }
            &&& f.stage is Terminate ==> match event {
                ForceEvent::Ended(Ok(_)) => f2.stage is Address && m2 == m,
                ForceEvent::Ended(Err(e)) => f2.stage == ForceStageView::Done(Err(e@)) && m2 == m,
                _ => m2 == m && f2 == f,
            }
            &&& f.stage is Address ==> match event {
                ForceEvent::Addressed(true) => f2.stage is WaitPort && m2 == m,
                ForceEvent::Addressed(false) => m2 == m && (f2.stage matches ForceStageView::Done(r)
                    && r is Err),
                _ => m2 == m && f2 == f,
            }
            &&& f.stage is WaitPort ==> match event {
                ForceEvent::Port { open, expired } => if expired {
                    m2 == m && (f2.stage matches ForceStageView::Done(r) && r is Err)
                } else if open {
                    m2 == m && f2 == f
                } else {
                    &&& m2.status.phase == "stopped"@
                    &&& m2.status.pid is None && m2.status.url is None
                    &&& f2.stage == ForceStageView::Done(Ok(m2.status))
                    &&& effects.contains(EffectView::Status(m2.status))
                },
                _ => m2 == m && f2 == f,
            }
        }),
{
    lemma_phase_texts();
    let (m2, f2, effects) = service::force_advanced(m, f, event);
    if f.stage is Recheck && f2.stage is Terminate {
        assert(effects[0] == EffectView::CloseContent);
    }
    if f.stage is WaitPort && f2.stage is Done && m2 != m {
        assert(effects[1] == EffectView::Status(m2.status));
    }
}

/// A service that is found on the port is shown as healthy but as another's, with its address
/// and without a process, and the log names the port.
pub proof fn a_service_of_another_is_shown_as_such(m: ManagerView, s: StartView)
    requires
        s.stage is Health,
    ensures
        ({
            let (m2, _, effects) = service::start_advanced(m, s, StartEvent::Ready(true));
            &&& effects.contains(EffectView::TrayHealthy)
            &&& effects.contains(
                EffectView::Log {
                    level: "warning"@,
                    message: "External web service detected on port "@ + text::decimal(
                        s.run.config.port as nat,
                    ),
                },
            )
            &&& m2.status.phase == "external"@
            &&& m2.status.pid is None
            &&& m2.status.url == Some(s.run.url)
        }),
{
    let (_, _, effects) = service::start_advanced(m, s, StartEvent::Ready(true));
    let n = effects.len() as int;
    assert(effects[n - 2] == EffectView::TrayHealthy);
    assert(effects[n - 1] == EffectView::Log {
        level: "warning"@,
        message: "External web service detected on port "@ + text::decimal(
            s.run.config.port as nat,
        ),
    });
}

/// While a child is being stopped, the status says so; if the surroundings are told, it names
/// neither the process nor the address any more, and otherwise it keeps both.
pub proof fn a_stop_shows_what_it_does(m: ManagerView, with_app: bool)
    requires
        m.owned is Some,
    ensures
        ({
            let (m2, s2, _) = service::stop_begun(m, with_app, false);
            &&& m2.status.phase == "stopping"@
            &&& with_app ==> m2.status.pid is None && m2.status.url is None
            &&& !with_app ==> m2.status.pid == m.status.pid && m2.status.url == m.status.url
            &&& s2.owned == m.owned && s2.with_app == with_app
        }),
{
}

/// A service that runs has its sessions watched until the flag of its run is set, and the log
/// says that it is healthy.
pub proof fn the_sessions_of_a_running_service_are_watched(
    m: ManagerView,
    run: RunView,
    url: Seq<char>,
)
    requires
        m.authenticated_url == Some(url),
        m.generation == run.generation,
        run.cancelled < m.flags.len(),
        !m.flags[run.cancelled as int],
    ensures
        ({
            let (_, step, effects) = monitor::token_polled(m, run, false);
            &&& step == StartupStep::Watch
            &&& effects.contains(EffectView::WatchSessions(run.session_cancel))
            &&& effects.contains(
                EffectView::Log { level: "info"@, message: "Health check passed"@ },
            )
        }),
{
    let (_, _, effects) = monitor::token_polled(m, run, false);
    let n = effects.len() as int;
    assert(effects[n - 2] == EffectView::WatchSessions(run.session_cancel));
    assert(effects[n - 3] == EffectView::Log { level: "info"@, message: "Health check passed"@ });
}

} // verus!
