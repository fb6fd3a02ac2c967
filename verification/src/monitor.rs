//! What the watchers of a run make of what they see: the start, the child, the successor
//! that a plugin starts, and a successor that comes too late.

use vstd::prelude::*;

use crate::config::LauncherConfig;
use crate::process;
use crate::process::{external_process_still_matches, find_successor, Listener};
use crate::service;
use crate::service::{
    push_log, status_of, AdoptedProcess, AdoptedView, Effect, EffectView, ManagerView, Quarantine,
    Run, RunView, ServiceManager, StatusView,
};
use crate::session_monitor;
use crate::session_monitor::SessionCredentials;
use crate::text;
use crate::text::number;

verus! {

/// How long a start may take and how long the address with the token is waited for.
pub const STARTUP_TIMEOUT_SECS: u64 = 30;

pub const TOKEN_TIMEOUT_SECS: u64 = 3;

/// How often a service that starts, its token and a service that runs are looked at.
pub const STARTUP_POLL_MILLIS: u64 = 250;

pub const TOKEN_POLL_MILLIS: u64 = 100;

pub const WATCH_POLL_MILLIS: u64 = 500;

/// How long a successor is waited for, and how long one that comes too late is looked for.
pub const HANDOFF_TIMEOUT_SECS: u64 = 30;

pub const QUARANTINE_TIMEOUT_SECS: u64 = 30;

pub const HANDOFF_POLL_MILLIS: u64 = 250;

/// So many looks in a row may miss an adopted process that is still alive.
pub const ADOPTED_MISS_LIMIT: u8 = 4;

// ---------------------------------------------------------------------------
// The start
// ---------------------------------------------------------------------------

/// What the watcher of a start does next.
#[derive(Debug, Clone, Copy, PartialEq, Eq, Structural)]
pub enum StartupStep {
    /// Look again after a while.
    Again,
    /// The service answers: wait for the address with the token.
    AwaitToken,
    /// The service runs: watch its process.
    Watch,
    Over,
}

impl ManagerView {
    /// The sessions of a run are no longer watched and its credentials are forgotten.
    pub open spec fn sessions_ended(self, session_cancel: usize) -> ManagerView {
        ManagerView {
            flags: service::with_flag(self.flags, Some(session_cancel)),
            session_cancel: None,
            session_credentials: None,
            ..self
        }
    }

    pub open spec fn runs(self, run: RunView) -> bool {
        self.active(run.generation, run.cancelled)
    }
}

/// A start that was looked at: whether time is up, whether the process has exited and
/// how, and whether the service answers.
pub open spec fn startup_polled(
    m: ManagerView,
    run: RunView,
    expired: bool,
    exit: Option<Seq<char>>,
    ready: bool,
) -> (ManagerView, StartupStep, Seq<EffectView>) {
    if expired || service::is_set(m.flags, run.cancelled) {
        if m.runs(run) {
            let next = service::failed_status(
                Some(run.pid),
                Some(run.url),
                "DSH 启动超时，请停止服务后检查日志"@,
            );
            (
                m.showing(next),
                StartupStep::Over,
                service::announced(next).push(
                    service::logged("error"@, "Health check did not pass within 30 seconds"@),
                ),
            )
        } else {
            (m, StartupStep::Over, Seq::empty())
        }
    } else {
        match exit {
            Some(exit) => {
                let ended = m.sessions_ended(run.session_cancel);
                if ended.runs(run) {
                    let next = service::failed_status(
                        None,
                        None,
                        "DSH 在启动期间退出："@ + exit,
                    );
                    (ended.showing(next), StartupStep::Over, service::announced(next))
                } else {
                    (ended, StartupStep::Over, Seq::empty())
                }
            },
            None => (
                m,
                if ready {
                    StartupStep::AwaitToken
                } else {
                    StartupStep::Again
                },
                Seq::empty(),
            ),
        }
    }
}

pub open spec fn running_status(pid: u32, url: Seq<char>, message: Seq<char>) -> StatusView {
    StatusView { phase: "running"@, pid: Some(pid), url: Some(url), message }
}

/// A service that answers runs, at the address with the token where one was printed.
pub open spec fn service_running(m: ManagerView, run: RunView, url: Seq<char>) -> (
    ManagerView,
    StartupStep,
    Seq<EffectView>,
) {
    if m.runs(run) {
        let next = running_status(run.pid, url, "DSH 服务运行中"@);
        (
            ManagerView {
                session_credentials: match session_monitor::credentials_of(url) {
                    Some(c) => Some(c),
                    None => m.session_credentials,
                },
                ..m
            }.showing(next),
            StartupStep::Watch,
            service::announced(next) + seq![
                service::logged("info"@, "Health check passed"@),
                EffectView::WatchSessions(run.session_cancel),
                EffectView::OpenContent(url),
            ],
        )
    } else {
        (m, StartupStep::Over, Seq::empty())
    }
}

/// The wait for the address with the token: it ends when the address is there or time is
/// up.
pub open spec fn token_polled(m: ManagerView, run: RunView, expired: bool) -> (
    ManagerView,
    StartupStep,
    Seq<EffectView>,
) {
    match m.authenticated_url {
        Some(url) => service_running(m, run, url),
        None => if expired {
            let (m2, step, effects) = service_running(m, run, run.url);
            (
                m2,
                step,
                seq![
                    service::logged(
                        "warning"@,
                        "Launch-token URL not found in dsh output; falling back to plain URL"@,
                    ),
                ] + effects,
            )
        } else {
            (m, StartupStep::AwaitToken, Seq::empty())
        },
    }
}

impl ServiceManager {
    fn end_sessions(&mut self, session_cancel: usize)
        ensures
            final(self)@ == old(self)@.sessions_ended(session_cancel),
    {
        self.cancel(Some(session_cancel));
        self.session_cancel = None;
        self.session_credentials = None;
    }

    pub fn poll_startup(&mut self, run: &Run, expired: bool, exit: Option<String>, ready: bool) -> (r:
        (StartupStep, Vec<Effect>))
        ensures
            (final(self)@, r.0, service::effects_view(r.1@)) == startup_polled(
                old(self)@,
                run@,
                expired,
                text::opt_text(exit),
                ready,
            ),
    {
        let mut effects: Vec<Effect> = Vec::new();
        let ghost want = startup_polled(self@, run@, expired, text::opt_text(exit), ready);
        assert(service::effects_view(effects@) =~= Seq::<EffectView>::empty());
        if expired || self.is_cancelled(run.cancelled) {
            if self.lifecycle_active(run.cancelled, run.generation) {
                let next = status_of(
                    "failed",
                    Some(run.pid),
                    Some(run.url.clone()),
                    "DSH 启动超时，请停止服务后检查日志",
                );
                self.set_status(&mut effects, next);
                push_log(
                    &mut effects,
                    "error",
                    "Health check did not pass within 30 seconds".to_string(),
                );
            }
            assert(service::effects_view(effects@) =~= want.2);
            return (StartupStep::Over, effects);
        }
        match exit {
            Some(exit) => {
                self.end_sessions(run.session_cancel);
                if self.lifecycle_active(run.cancelled, run.generation) {
                    let message = "DSH 在启动期间退出：".to_string().concat(exit.as_str());
                    let next = status_of("failed", None, None, message.as_str());
                    self.set_status(&mut effects, next);
                }
                assert(service::effects_view(effects@) =~= want.2);
                (StartupStep::Over, effects)
            },
            None => {
                let step = if ready {
                    StartupStep::AwaitToken
                } else {
                    StartupStep::Again
                };
                (step, effects)
            },
        }
    }

    fn service_runs(&mut self, run: &Run, url: String, effects: &mut Vec<Effect>) -> (r:
        StartupStep)
        ensures
            ({
                let s = service_running(old(self)@, run@, url@);
                final(self)@ == s.0 && r == s.1 && service::effects_view(final(effects)@)
                    == service::effects_view(old(effects)@) + s.2
            }),
    {
        let ghost before = service::effects_view(effects@);
        let ghost s = service_running(self@, run@, url@);
        if !self.lifecycle_active(run.cancelled, run.generation) {
            assert(service::effects_view(effects@) =~= before + s.2);
            return StartupStep::Over;
        }
        let next = status_of("running", Some(run.pid), Some(url.clone()), "DSH 服务运行中");
        self.set_status(effects, next);
        push_log(effects, "info", "Health check passed".to_string());
        if let Some(credentials) = SessionCredentials::from_authenticated_url(url.as_str()) {
            self.session_credentials = Some(credentials);
        }
        let ghost so_far = service::effects_view(effects@);
        effects.push(Effect::WatchSessions(run.session_cancel));
        effects.push(Effect::OpenContent(url));
        assert(service::effects_view(effects@) =~= so_far.push(
            EffectView::WatchSessions(run.session_cancel),
        ).push(EffectView::OpenContent(url@)));
        assert(service::effects_view(effects@) =~= before + s.2);
        StartupStep::Watch
    }

    pub fn poll_token(&mut self, run: &Run, expired: bool) -> (r: (StartupStep, Vec<Effect>))
        ensures
            (final(self)@, r.0, service::effects_view(r.1@)) == token_polled(
                old(self)@,
                run@,
                expired,
            ),
            old(self).generation == run.generation && run.cancelled < old(self).flags@.len()
                && !old(self).flags@[run.cancelled as int] ==> match old(self).authenticated_url {
                Some(url) => service::opens_once(r.1@, url@),
                None => if expired {
                    service::opens_once(r.1@, run.url@)
                } else {
                    service::opens_nothing(r.1@)
                },
            },
            old(self).generation != run.generation || run.cancelled >= old(self).flags@.len()
                || old(self).flags@[run.cancelled as int] ==> service::opens_nothing(r.1@),
    {
        let mut effects: Vec<Effect> = Vec::new();
        let ghost want = token_polled(self@, run@, expired);
        assert(service::effects_view(effects@) =~= Seq::<EffectView>::empty());
        let step = match self.authenticated_url() {
            Some(url) => self.service_runs(run, url, &mut effects),
            None => if expired {
                push_log(
                    &mut effects,
                    "warning",
                    "Launch-token URL not found in dsh output; falling back to plain URL".to_string(),
                );
                self.service_runs(run, run.url.clone(), &mut effects)
            } else {
                StartupStep::AwaitToken
            },
        };
        assert(service::effects_view(effects@) =~= want.2);
        proof {
            let shown = service::effects_view(effects@);
            assert forall|i: int| 0 <= i < effects@.len() implies shown[i] == service::effect_view(
                #[trigger] effects@[i],
            ) by {}
            lemma_token_opens(old(self)@, run@, expired, effects@);
        }
        (step, effects)
    }
}

/// The page that is opened when the wait for the token ends.
proof fn lemma_token_opens(m: ManagerView, run: RunView, expired: bool, effects: Seq<Effect>)
    requires
        service::effects_view(effects) == token_polled(m, run, expired).2,
    ensures
        m.runs(run) ==> match m.authenticated_url {
            Some(url) => service::opens_once(effects, url),
            None => if expired {
                service::opens_once(effects, run.url)
            } else {
                service::opens_nothing(effects)
            },
        },
        !m.runs(run) ==> service::opens_nothing(effects),
{
    let shown = service::effects_view(effects);
    assert(shown.len() == effects.len());
    assert forall|i: int| 0 <= i < effects.len() implies service::effect_view(
        #[trigger] effects[i],
    ) == shown[i] by {}
    let n = effects.len() as int;
    if m.runs(run) && (m.authenticated_url is Some || expired) {
        let url = match m.authenticated_url {
            Some(url) => url,
            None => run.url,
        };
        assert(shown[n - 1] == EffectView::OpenContent(url));
        assert(effects[n - 1] matches Effect::OpenContent(u) && u@ == url);
        assert forall|j: int| 0 <= j < n && #[trigger] effects[j] is OpenContent implies j == n
            - 1 by {
            assert(shown[j] is OpenContent);
        }
    } else {
        assert forall|i: int| 0 <= i < n implies !(#[trigger] effects[i] is OpenContent) by {
            assert(!(shown[i] is OpenContent));
        }
    }
}

// ---------------------------------------------------------------------------
// The successor
// ---------------------------------------------------------------------------

pub open spec fn restarting_status(url: Seq<char>) -> StatusView {
    StatusView {
        phase: "restarting"@,
        pid: None,
        url: Some(url),
        message: "DSH 正在由插件重启，等待新的服务进程..."@,
    }
}

/// A service that ended cleanly may be restarted by a plugin: its successor is waited for,
/// by one watcher at a time and only for the current run.
pub open spec fn handoff_begun(m: ManagerView, run: RunView, old_pid: u32) -> (
    ManagerView,
    bool,
    Seq<EffectView>,
) {
    if !m.runs(run) || m.handoff_active {
        (m, false, Seq::empty())
    } else {
        let next = restarting_status(run.url);
        (
            ManagerView { handoff_active: true, ..m }.showing(next),
            true,
            service::announced(next).push(
                service::logged(
                    "info"@,
                    "DSH exited cleanly; waiting for plugin successor after PID "@ + text::decimal(
                        old_pid as nat,
                    ),
                ),
            ),
        )
    }
}

/// A child that has exited. A clean exit may be the beginning of a restart.
pub open spec fn child_exited_to(m: ManagerView, run: RunView, success: bool, exit: Seq<char>) -> (
    ManagerView,
    bool,
    Seq<EffectView>,
) {
    if service::is_set(m.flags, run.cancelled) {
        (m, false, Seq::empty())
    } else if success {
        handoff_begun(
            ManagerView {
                flags: service::with_flag(m.flags, Some(run.session_cancel)),
                ..m
            },
            run,
            run.pid,
        )
    } else {
        let ended = m.sessions_ended(run.session_cancel);
        if ended.runs(run) {
            let next = StatusView {
                phase: "stopped"@,
                pid: None,
                url: None,
                message: "DSH 已退出："@ + exit,
            };
            (
                ended.showing(next),
                false,
                seq![EffectView::CloseContent] + service::announced(next).push(
                    service::logged("warning"@, "DSH process exited: "@ + exit),
                ),
            )
        } else {
            (ended, false, Seq::empty())
        }
    }
}

impl ServiceManager {
    /// Whether the wait for a successor begins.
    pub fn begin_handoff(&mut self, run: &Run, old_pid: u32, effects: &mut Vec<Effect>) -> (r: bool)
        ensures
            ({
                let h = handoff_begun(old(self)@, run@, old_pid);
                final(self)@ == h.0 && r == h.1 && service::effects_view(final(effects)@)
                    == service::effects_view(old(effects)@) + h.2
            }),
    {
        let ghost before = service::effects_view(effects@);
        let ghost h = handoff_begun(self@, run@, old_pid);
        if !self.lifecycle_active(run.cancelled, run.generation) || self.handoff_active {
            assert(service::effects_view(effects@) =~= before + h.2);
            return false;
        }
        self.handoff_active = true;
        let next = status_of(
            "restarting",
            None,
            Some(run.url.clone()),
            "DSH 正在由插件重启，等待新的服务进程...",
        );
        self.set_status(effects, next);
        push_log(
            effects,
            "info",
            "DSH exited cleanly; waiting for plugin successor after PID ".to_string().concat(
                number(old_pid as u64).as_str(),
            ),
        );
        assert(service::effects_view(effects@) =~= before + h.2);
        true
    }

    /// Takes note of the exit of the child; whether the wait for a successor begins.
    pub fn child_exited(&mut self, run: &Run, success: bool, exit: &str) -> (r: (
        bool,
        Vec<Effect>,
    ))
        ensures
            (final(self)@, r.0, service::effects_view(r.1@)) == child_exited_to(
                old(self)@,
                run@,
                success,
                exit@,
            ),
    {
        let mut effects: Vec<Effect> = Vec::new();
        let ghost want = child_exited_to(self@, run@, success, exit@);
        assert(service::effects_view(effects@) =~= Seq::<EffectView>::empty());
        if self.is_cancelled(run.cancelled) {
            return (false, effects);
        }
        if success {
            self.cancel(Some(run.session_cancel));
            let waits = self.begin_handoff(run, run.pid, &mut effects);
            assert(service::effects_view(effects@) =~= want.2);
            return (waits, effects);
        }
        self.end_sessions(run.session_cancel);
        if self.lifecycle_active(run.cancelled, run.generation) {
            effects.push(Effect::CloseContent);
            let message = "DSH 已退出：".to_string().concat(exit);
            let next = status_of("stopped", None, None, message.as_str());
            self.set_status(&mut effects, next);
            push_log(
                &mut effects,
                "warning",
                "DSH process exited: ".to_string().concat(exit),
            );
        }
        assert(service::effects_view(effects@) =~= want.2);
        (false, effects)
    }
}

/// What is known of an adopted process, and how often it was missed.
#[derive(Debug)]
pub struct AdoptedWatch {
    pub pid: u32,
    pub command_line: String,
    pub session_cancel: usize,
    pub misses: u8,
}

#[verifier::ext_equal]
pub struct WatchView {
    pub pid: u32,
    pub command_line: Seq<char>,
    pub session_cancel: usize,
    pub misses: u8,
}

impl View for AdoptedWatch {
    type V = WatchView;

    open spec fn view(&self) -> WatchView {
        WatchView {
            pid: self.pid,
            command_line: self.command_line@,
            session_cancel: self.session_cancel,
            misses: self.misses,
        }
    }
}

/// What was seen of a successor: twice who listens and whether the service answers.
#[derive(Debug)]
pub struct Sighting {
    pub first: Listener,
    pub ready: bool,
    pub second: Listener,
    pub still_ready: bool,
}

/// A successor that was identified, answers, and was the same when looked at again.
pub open spec fn confirmed(config: LauncherConfig, old_pid: u32, seen: Sighting) -> bool {
    &&& process::is_successor(config, old_pid, seen.first)
    &&& seen.ready
    &&& process::still_matches(
        seen.second,
        seen.first.pid->Ok_0,
        seen.first.command->Ok_0@,
    )
    &&& seen.still_ready
}

/// What the watcher for a successor does next.
#[derive(Debug)]
pub enum HandoffStep {
    Again,
    Over,
    /// The successor was adopted and must be watched.
    Adopted(AdoptedWatch),
}

pub enum HandoffView {
    Again,
    Over,
    Adopted(WatchView),
}

pub open spec fn handoff_view(s: HandoffStep) -> HandoffView {
    match s {
        HandoffStep::Again => HandoffView::Again,
        HandoffStep::Over => HandoffView::Over,
        HandoffStep::Adopted(w) => HandoffView::Adopted(w@),
    }
}

/// The successor takes the place of the service: its sessions are watched again where
/// there are credentials.
pub open spec fn adopted_by(m: ManagerView, run: RunView, pid: u32, line: Seq<char>) -> (
    ManagerView,
    HandoffView,
    Seq<EffectView>,
) {
    let flag = m.flags.len() as usize;
    let next = running_status(pid, run.url, "DSH 服务运行中（插件已完成重启）"@);
    let watching = if m.session_credentials is Some {
        seq![
            EffectView::WatchSessions(flag),
            service::logged(
                "info"@,
                "Reattached session monitor for adopted DSH process "@ + text::decimal(pid as nat),
            ),
        ]
    } else {
        seq![EffectView::TrayHealthy]
    };
    (
        ManagerView {
            flags: m.flags.push(false),
            adopted: Some(AdoptedView { pid, port: run.config.port, command_line: line }),
            handoff_active: false,
            session_cancel: Some(flag),
            ..m
        }.showing(next),
        HandoffView::Adopted(
            WatchView { pid, command_line: line, session_cancel: flag, misses: 0 },
        ),
        watching + service::announced(next).push(
            service::logged(
                "info"@,
                "Adopted plugin-restarted DSH process "@ + text::decimal(pid as nat),
            ),
        ),
    )
}

/// The wait for a successor gave out.
pub open spec fn handoff_given_up(m: ManagerView, run: RunView) -> (
    ManagerView,
    HandoffView,
    Seq<EffectView>,
) {
    let over = ManagerView { handoff_active: false, ..m };
    if over.runs(run) {
        let next = StatusView {
            phase: "stopped"@,
            pid: None,
            url: None,
            message: "DSH 已退出，未找到插件重启的服务进程"@,
        };
        (
            ManagerView {
                session_cancel: None,
                session_credentials: None,
                authenticated_url: None,
                ..over
            }.showing(next),
            HandoffView::Over,
            seq![EffectView::CloseContent] + service::announced(next).push(
                service::logged("warning"@, "Plugin successor was not found within 30 seconds"@),
            ),
        )
    } else {
        (over, HandoffView::Over, Seq::empty())
    }
}

/// One look for a successor.
pub open spec fn handoff_polled(
    m: ManagerView,
    run: RunView,
    old_pid: u32,
    expired: bool,
    seen: Sighting,
) -> (ManagerView, HandoffView, Seq<EffectView>) {
    if expired {
        handoff_given_up(m, run)
    } else if !m.runs(run) {
        (ManagerView { handoff_active: false, ..m }, HandoffView::Over, Seq::empty())
    } else if confirmed(run.config, old_pid, seen) {
        adopted_by(m, run, seen.first.pid->Ok_0, seen.first.command->Ok_0@)
    } else {
        (m, HandoffView::Again, Seq::empty())
    }
}

impl ServiceManager {
    fn adopt(&mut self, run: &Run, pid: u32, command_line: String, effects: &mut Vec<Effect>) -> (r:
        HandoffStep)
        ensures
            ({
                let a = adopted_by(old(self)@, run@, pid, command_line@);
                final(self)@ == a.0 && handoff_view(r) == a.1 && service::effects_view(
                    final(effects)@,
                ) == service::effects_view(old(effects)@) + a.2
            }),
    {
        let ghost before = service::effects_view(effects@);
        let ghost a = adopted_by(self@, run@, pid, command_line@);
        self.adopted = Some(
            AdoptedProcess {
                pid,
                port: run.config.port,
                command_line: command_line.clone(),
            },
        );
        self.handoff_active = false;
        let flag: usize = self.flags.len();
        self.flags.push(false);
        self.session_cancel = Some(flag);
        if self.session_credentials.is_some() {
            effects.push(Effect::WatchSessions(flag));
            push_log(
                effects,
                "info",
                "Reattached session monitor for adopted DSH process ".to_string().concat(
                    number(pid as u64).as_str(),
                ),
            );
        } else {
            effects.push(Effect::TrayHealthy);
        }
        let next = status_of(
            "running",
            Some(pid),
            Some(run.url.clone()),
            "DSH 服务运行中（插件已完成重启）",
        );
        self.set_status(effects, next);
        push_log(
            effects,
            "info",
            "Adopted plugin-restarted DSH process ".to_string().concat(
                number(pid as u64).as_str(),
            ),
        );
        assert(service::effects_view(effects@) =~= before + a.2);
        HandoffStep::Adopted(
            AdoptedWatch { pid, command_line, session_cancel: flag, misses: 0 },
        )
    }

    /// Takes note of one look for a successor of the process `old_pid`.
    pub fn poll_handoff(&mut self, run: &Run, old_pid: u32, expired: bool, seen: &Sighting) -> (r: (
        HandoffStep,
        Vec<Effect>,
    ))
        ensures
            (final(self)@, handoff_view(r.0), service::effects_view(r.1@)) == handoff_polled(
                old(self)@,
                run@,
                old_pid,
                expired,
                *seen,
            ),
    {
        let mut effects: Vec<Effect> = Vec::new();
        let ghost want = handoff_polled(self@, run@, old_pid, expired, *seen);
        assert(service::effects_view(effects@) =~= Seq::<EffectView>::empty());
        if expired {
            self.handoff_active = false;
            if self.lifecycle_active(run.cancelled, run.generation) {
                self.session_cancel = None;
                self.session_credentials = None;
                self.authenticated_url = None;
                effects.push(Effect::CloseContent);
                let next = status_of(
                    "stopped",
                    None,
                    None,
                    "DSH 已退出，未找到插件重启的服务进程",
                );
                self.set_status(&mut effects, next);
                push_log(
                    &mut effects,
                    "warning",
                    "Plugin successor was not found within 30 seconds".to_string(),
                );
            }
            assert(service::effects_view(effects@) =~= want.2);
            return (HandoffStep::Over, effects);
        }
        if !self.lifecycle_active(run.cancelled, run.generation) {
            self.handoff_active = false;
            return (HandoffStep::Over, effects);
        }
        if let Some((pid, command_line)) = find_successor(&run.config, old_pid, &seen.first) {
            if seen.ready && external_process_still_matches(
                &seen.second,
                pid,
                command_line.as_str(),
            ) && seen.still_ready {
                let step = self.adopt(run, pid, command_line, &mut effects);
                assert(service::effects_view(effects@) =~= want.2);
                return (step, effects);
            }
        }
        (HandoffStep::Again, effects)
    }
}

/// What the watcher of an adopted process does next.
#[derive(Debug, Clone, Copy, PartialEq, Eq, Structural)]
pub enum AdoptedStep {
    Again,
    Over,
    /// The process is gone and a successor must be waited for.
    Handoff,
}

/// One look at an adopted process: it may be missed a few times while it is alive.
pub open spec fn adopted_polled(
    m: ManagerView,
    run: RunView,
    w: WatchView,
    seen: Listener,
    alive: bool,
) -> (ManagerView, WatchView, AdoptedStep, Seq<EffectView>) {
    if !m.runs(run) {
        (m, w, AdoptedStep::Over, Seq::empty())
    } else if process::still_matches(seen, w.pid, w.command_line) {
        (m, WatchView { misses: 0, ..w }, AdoptedStep::Again, Seq::empty())
    } else {
        let misses = if w.misses == 255 {
            255u8
        } else {
            (w.misses + 1) as u8
        };
        let missed = WatchView { misses, ..w };
        if alive && misses < 4 {
            (m, missed, AdoptedStep::Again, Seq::empty())
        } else {
            let gone = ManagerView {
                adopted: match m.adopted {
                    Some(a) => if a.pid == w.pid {
                        None
                    } else {
                        Some(a)
                    },
                    None => None,
                },
                flags: service::with_flag(m.flags, Some(w.session_cancel)),
                ..m
            };
            let (m2, waits, effects) = handoff_begun(gone, run, w.pid);
            (
                m2,
                missed,
                if waits {
                    AdoptedStep::Handoff
                } else {
                    AdoptedStep::Over
                },
                effects,
            )
        }
    }
}

impl ServiceManager {
    pub fn poll_adopted(&mut self, run: &Run, watch: &mut AdoptedWatch, seen: &Listener, alive: bool)
        -> (r: (AdoptedStep, Vec<Effect>))
        ensures
            (final(self)@, final(watch)@, r.0, service::effects_view(r.1@)) == adopted_polled(
                old(self)@,
                run@,
                old(watch)@,
                *seen,
                alive,
            ),
    {
        let mut effects: Vec<Effect> = Vec::new();
        let ghost want = adopted_polled(self@, run@, watch@, *seen, alive);
        assert(service::effects_view(effects@) =~= Seq::<EffectView>::empty());
        if !self.lifecycle_active(run.cancelled, run.generation) {
            return (AdoptedStep::Over, effects);
        }
        if external_process_still_matches(seen, watch.pid, watch.command_line.as_str()) {
            watch.misses = 0;
            return (AdoptedStep::Again, effects);
        }
        if watch.misses < 255 {
            watch.misses = watch.misses + 1;
        }
        if alive && watch.misses < ADOPTED_MISS_LIMIT {
            return (AdoptedStep::Again, effects);
        }
        let mine = match &self.adopted {
            Some(a) => a.pid == watch.pid,
            None => false,
        };
        if mine {
            self.adopted = None;
        }
        self.cancel(Some(watch.session_cancel));
        let waits = self.begin_handoff(run, watch.pid, &mut effects);
        assert(service::effects_view(effects@) =~= want.3);
        if waits {
            (AdoptedStep::Handoff, effects)
        } else {
            (AdoptedStep::Over, effects)
        }
    }
}

// ---------------------------------------------------------------------------
// A successor that comes too late
// ---------------------------------------------------------------------------

/// What the search for late successors does next.
#[derive(Debug)]
pub enum QuarantineStep {
    Again,
    /// A successor must be ended, and the search goes on.
    End { pid: u32, command_line: String },
    Over,
}

pub enum QuarantineView {
    Again,
    End { pid: u32, command_line: Seq<char> },
    Over,
}

pub open spec fn quarantine_view(s: QuarantineStep) -> QuarantineView {
    match s {
        QuarantineStep::Again => QuarantineView::Again,
        QuarantineStep::End { pid, command_line } => QuarantineView::End {
            pid,
            command_line: command_line@,
        },
        QuarantineStep::Over => QuarantineView::Over,
    }
}

/// One look for a late successor of a service that was stopped.
pub open spec fn quarantine_polled(
    m: ManagerView,
    q: Quarantine,
    expired: bool,
    first: Listener,
    second: Listener,
) -> (ManagerView, QuarantineView, Seq<EffectView>) {
    if expired || !m.active(q.generation, q.cancelled) {
        (ManagerView { quarantine_active: false, ..m }, QuarantineView::Over, Seq::empty())
    } else if process::is_successor(q.config, 0, first) && process::still_matches(
        second,
        first.pid->Ok_0,
        first.command->Ok_0@,
    ) {
        (
            m,
            QuarantineView::End {
                pid: first.pid->Ok_0,
                command_line: first.command->Ok_0@,
            },
            if q.with_app {
                seq![
                    service::logged(
                        "warning"@,
                        "Stopped late plugin successor "@ + text::decimal(
                            first.pid->Ok_0 as nat,
                        ) + " after user stop"@,
                    ),
                ]
            } else {
                seq![]
            },
        )
    } else {
        (m, QuarantineView::Again, Seq::empty())
    }
}

impl ServiceManager {
    pub fn poll_quarantine(
        &mut self,
        quarantine: &Quarantine,
        expired: bool,
        first: &Listener,
        second: &Listener,
    ) -> (r: (QuarantineStep, Vec<Effect>))
        ensures
            (final(self)@, quarantine_view(r.0), service::effects_view(r.1@)) == quarantine_polled(
                old(self)@,
                *quarantine,
                expired,
                *first,
                *second,
            ),
    {
        let mut effects: Vec<Effect> = Vec::new();
        let ghost want = quarantine_polled(self@, *quarantine, expired, *first, *second);
        assert(service::effects_view(effects@) =~= Seq::<EffectView>::empty());
        if expired || !self.lifecycle_active(quarantine.cancelled, quarantine.generation) {
            self.quarantine_active = false;
            return (QuarantineStep::Over, effects);
        }
        if let Some((pid, command_line)) = find_successor(&quarantine.config, 0, first) {
            if external_process_still_matches(second, pid, command_line.as_str()) {
                if quarantine.with_app {
                    push_log(
                        &mut effects,
                        "warning",
                        "Stopped late plugin successor ".to_string().concat(
                            number(pid as u64).as_str(),
                        ).concat(" after user stop"),
                    );
                }
                assert(service::effects_view(effects@) =~= want.2);
                return (QuarantineStep::End { pid, command_line }, effects);
            }
        }
        (QuarantineStep::Again, effects)
    }
}

} // verus!
