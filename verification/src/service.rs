//! The life of the DSH service that the launcher starts, watches and stops.
//!
//! All decisions are taken on one plain value, the `ServiceManager`. What has to be done
//! outside (starting a process, asking a port, waiting) is handed out as an action; what
//! came of it is handed back as an event. Runs are told apart by a generation number and
//! by flags that are set when a run is over: a watcher of an earlier run then finds its run
//! inactive and leaves the service alone.

use vstd::prelude::*;

use crate::adapters;
use crate::adapters::{lossy_text, parse_url, url_origin, UrlParts};
use crate::config::LauncherConfig;
use crate::process;
use crate::process::{
    external_process_still_matches, looks_like_dsh_process, parse_custom_args, service_url,
    Listener,
};
use crate::session_monitor;
use crate::session_monitor::{value_of, web_scheme, CredentialsView, SessionCredentials};
use crate::text;
use crate::text::{after_prefix, chars_of, equal, number, search, string_of, trimmed};
use crate::update::clone_text;

verus! {

/// How long a connection to a service that may be there already may take.
pub const CONNECT_TIMEOUT_MILLIS: u64 = 400;

/// How long a child that was asked to end is waited for, and how often it is looked at.
pub const STOP_TIMEOUT_SECS: u64 = 3;

pub const STOP_POLL_MILLIS: u64 = 80;

/// How long the port of an external service that was ended is waited for, how long a
/// connection to it may take, and how often it is tried.
pub const PORT_TIMEOUT_SECS: u64 = 4;

pub const PORT_CONNECT_MILLIS: u64 = 150;

pub const PORT_POLL_MILLIS: u64 = 100;

// ---------------------------------------------------------------------------
// The status that is shown
// ---------------------------------------------------------------------------

#[derive(Debug)]
pub struct ServiceStatus {
    pub phase: String,
    pub pid: Option<u32>,
    pub url: Option<String>,
    pub message: String,
}

#[verifier::ext_equal]
pub struct StatusView {
    pub phase: Seq<char>,
    pub pid: Option<u32>,
    pub url: Option<Seq<char>>,
    pub message: Seq<char>,
}

impl View for ServiceStatus {
    type V = StatusView;

    open spec fn view(&self) -> StatusView {
        StatusView {
            phase: self.phase@,
            pid: self.pid,
            url: text::opt_text(self.url),
            message: self.message@,
        }
    }
}

pub open spec fn stopped_status() -> StatusView {
    StatusView { phase: "stopped"@, pid: None, url: None, message: "服务未运行"@ }
}

impl Default for ServiceStatus {
    fn default() -> (r: Self)
        ensures
            r@ == stopped_status(),
    {
        ServiceStatus {
            phase: "stopped".to_string(),
            pid: None,
            url: None,
            message: "服务未运行".to_string(),
        }
    }
}

impl Clone for ServiceStatus {
    fn clone(&self) -> (r: Self)
        ensures
            r == *self,
    {
        ServiceStatus {
            phase: self.phase.clone(),
            pid: self.pid,
            url: clone_text(&self.url),
            message: self.message.clone(),
        }
    }
}

pub fn status_of(phase: &str, pid: Option<u32>, url: Option<String>, message: &str) -> (r:
    ServiceStatus)
    ensures
        r@ == (StatusView {
            phase: phase@,
            pid,
            url: text::opt_text(url),
            message: message@,
        }),
{
    ServiceStatus { phase: phase.to_string(), pid, url, message: message.to_string() }
}

/// What the surroundings are told or asked to do.
#[derive(Debug)]
pub enum Effect {
    /// The status changed.
    Status(ServiceStatus),
    /// The tray shows no activity.
    TrayIdle,
    /// The tray shows a healthy service.
    TrayHealthy,
    Log { level: &'static str, message: String },
    /// The web interface is opened at this address.
    OpenContent(String),
    /// The web interface is closed.
    CloseContent,
    /// A watch over the sessions starts; it ends when the flag is set.
    WatchSessions(usize),
}

pub enum EffectView {
    Status(StatusView),
    TrayIdle,
    TrayHealthy,
    Log { level: Seq<char>, message: Seq<char> },
    OpenContent(Seq<char>),
    CloseContent,
    WatchSessions(usize),
}

pub open spec fn effect_view(e: Effect) -> EffectView {
    match e {
        Effect::Status(s) => EffectView::Status(s@),
        Effect::TrayIdle => EffectView::TrayIdle,
        Effect::TrayHealthy => EffectView::TrayHealthy,
        Effect::Log { level, message } => EffectView::Log { level: level@, message: message@ },
        Effect::OpenContent(u) => EffectView::OpenContent(u@),
        Effect::CloseContent => EffectView::CloseContent,
        Effect::WatchSessions(f) => EffectView::WatchSessions(f),
    }
}

pub open spec fn effects_view(v: Seq<Effect>) -> Seq<EffectView> {
    v.map_values(|e: Effect| effect_view(e))
}

/// The web interface is opened once, and at this address.
pub open spec fn opens_once(v: Seq<Effect>, url: Seq<char>) -> bool {
    exists|i: int|
        #![trigger v[i]]
        0 <= i < v.len() && (v[i] matches Effect::OpenContent(u) && u@ == url) && forall|j: int|
            0 <= j < v.len() && #[trigger] v[j] is OpenContent ==> j == i
}

/// The web interface is not opened.
pub open spec fn opens_nothing(v: Seq<Effect>) -> bool {
    forall|i: int| 0 <= i < v.len() ==> !(#[trigger] v[i] is OpenContent)
}

pub open spec fn logged(level: Seq<char>, message: Seq<char>) -> EffectView {
    EffectView::Log { level, message }
}

/// What goes out when the status changes: a service that is not running shows no activity.
pub open spec fn announced(next: StatusView) -> Seq<EffectView> {
    if next.phase != "running"@ {
        seq![EffectView::TrayIdle, EffectView::Status(next)]
    } else {
        seq![EffectView::Status(next)]
    }
}

// ---------------------------------------------------------------------------
// The state
// ---------------------------------------------------------------------------

/// A child process of the launcher, and the flag of its run.
#[derive(Debug, Clone, Copy)]
pub struct OwnedChild {
    pub pid: u32,
    pub cancelled: usize,
}

/// The process that a plugin left behind when it restarted DSH. It is no child of the
/// launcher and is known by its port and its command line only.
#[derive(Debug)]
pub struct AdoptedProcess {
    pub pid: u32,
    pub port: u16,
    pub command_line: String,
}

#[verifier::ext_equal]
pub struct AdoptedView {
    pub pid: u32,
    pub port: u16,
    pub command_line: Seq<char>,
}

impl View for AdoptedProcess {
    type V = AdoptedView;

    open spec fn view(&self) -> AdoptedView {
        AdoptedView { pid: self.pid, port: self.port, command_line: self.command_line@ }
    }
}

#[derive(Debug)]
pub struct ServiceManager {
    /// The flags that were handed out so far; a flag that is set ends what was given it.
    pub flags: Vec<bool>,
    pub owned: Option<OwnedChild>,
    pub adopted: Option<AdoptedProcess>,
    pub active_cancel: Option<usize>,
    pub session_cancel: Option<usize>,
    pub session_credentials: Option<SessionCredentials>,
    pub active_config: Option<LauncherConfig>,
    pub quarantine_cancel: Option<usize>,
    pub quarantine_active: bool,
    pub handoff_active: bool,
    pub generation: u64,
    pub status: ServiceStatus,
    /// The address with the launch token, as the service printed it.
    pub authenticated_url: Option<String>,
}

#[verifier::ext_equal]
pub struct ManagerView {
    pub flags: Seq<bool>,
    pub owned: Option<OwnedChild>,
    pub adopted: Option<AdoptedView>,
    pub active_cancel: Option<usize>,
    pub session_cancel: Option<usize>,
    pub session_credentials: Option<CredentialsView>,
    pub active_config: Option<LauncherConfig>,
    pub quarantine_cancel: Option<usize>,
    pub quarantine_active: bool,
    pub handoff_active: bool,
    pub generation: u64,
    pub status: StatusView,
    pub authenticated_url: Option<Seq<char>>,
}

pub open spec fn opt_adopted(a: Option<AdoptedProcess>) -> Option<AdoptedView> {
    match a {
        Some(a) => Some(a@),
        None => None,
    }
}

impl View for ServiceManager {
    type V = ManagerView;

    open spec fn view(&self) -> ManagerView {
        ManagerView {
            flags: self.flags@,
            owned: self.owned,
            adopted: opt_adopted(self.adopted),
            active_cancel: self.active_cancel,
            session_cancel: self.session_cancel,
            session_credentials: session_monitor::opt_credentials(self.session_credentials),
            active_config: self.active_config,
            quarantine_cancel: self.quarantine_cancel,
            quarantine_active: self.quarantine_active,
            handoff_active: self.handoff_active,
            generation: self.generation,
            status: self.status@,
            authenticated_url: text::opt_text(self.authenticated_url),
        }
    }
}

/// The flags with one of them set.
pub open spec fn with_flag(flags: Seq<bool>, id: Option<usize>) -> Seq<bool> {
    match id {
        Some(i) => if i < flags.len() {
            flags.update(i as int, true)
        } else {
            flags
        },
        None => flags,
    }
}

/// Whether a flag is set; one that was never handed out counts as set.
pub open spec fn is_set(flags: Seq<bool>, id: usize) -> bool {
    id >= flags.len() || flags[id as int]
}

pub open spec fn in_range(flags: Seq<bool>, id: Option<usize>) -> bool {
    id matches Some(i) ==> i < flags.len()
}

impl ManagerView {
    /// Every flag that is remembered was handed out.
    pub open spec fn wf(self) -> bool {
        &&& in_range(self.flags, self.active_cancel)
        &&& in_range(self.flags, self.session_cancel)
        &&& in_range(self.flags, self.quarantine_cancel)
        &&& self.owned matches Some(o) ==> o.cancelled < self.flags.len()
    }

    /// The launcher has a service of its own, or is about to have one again.
    pub open spec fn busy(self) -> bool {
        self.owned is Some || self.adopted is Some || self.handoff_active
    }

    /// The run with this generation and flag is the current one.
    pub open spec fn active(self, generation: u64, cancelled: usize) -> bool {
        !is_set(self.flags, cancelled) && self.generation == generation
    }

    /// A child that has exited is no longer owned.
    pub open spec fn pruned(self, exited: bool) -> ManagerView {
        if exited {
            ManagerView { owned: None, ..self }
        } else {
            self
        }
    }

    /// The search for a late successor of a stopped service is given up.
    pub open spec fn unquarantined(self) -> ManagerView {
        ManagerView {
            flags: with_flag(self.flags, self.quarantine_cancel),
            quarantine_cancel: None,
            quarantine_active: false,
            ..self
        }
    }

    /// A new run begins: it has a generation and two flags of its own, and neither
    /// credentials nor an address with a token.
    pub open spec fn pending(self, config: LauncherConfig) -> ManagerView {
        let flags = with_flag(self.flags, self.session_cancel);
        ManagerView {
            flags: flags.push(false).push(false),
            active_cancel: Some(flags.len() as usize),
            session_cancel: Some((flags.len() + 1) as usize),
            session_credentials: None,
            active_config: Some(config),
            handoff_active: false,
            generation: self.generation.wrapping_add(1),
            authenticated_url: None,
            ..self
        }
    }

    /// A run that did not come about leaves nothing behind.
    pub open spec fn cleared(self, cancelled: usize) -> ManagerView {
        ManagerView {
            flags: with_flag(with_flag(self.flags, Some(cancelled)), self.session_cancel),
            active_cancel: None,
            session_cancel: None,
            session_credentials: None,
            active_config: None,
            handoff_active: false,
            ..self
        }
    }

    pub open spec fn showing(self, next: StatusView) -> ManagerView {
        ManagerView { status: next, ..self }
    }
}

impl ServiceManager {
    pub fn new() -> (r: ServiceManager)
        ensures
            r@ == (ManagerView {
                flags: Seq::empty(),
                owned: None,
                adopted: None,
                active_cancel: None,
                session_cancel: None,
                session_credentials: None,
                active_config: None,
                quarantine_cancel: None,
                quarantine_active: false,
                handoff_active: false,
                generation: 0,
                status: stopped_status(),
                authenticated_url: None,
            }),
            r@.wf(),
    {
        ServiceManager {
            flags: Vec::new(),
            owned: None,
            adopted: None,
            active_cancel: None,
            session_cancel: None,
            session_credentials: None,
            active_config: None,
            quarantine_cancel: None,
            quarantine_active: false,
            handoff_active: false,
            generation: 0,
            status: ServiceStatus::default(),
            authenticated_url: None,
        }
    }

    pub fn status(&self) -> (r: ServiceStatus)
        ensures
            r == self.status,
    {
        self.status.clone()
    }

    /// The address with the launch token, if the service printed one.
    pub fn authenticated_url(&self) -> (r: Option<String>)
        ensures
            r == self.authenticated_url,
    {
        clone_text(&self.authenticated_url)
    }

    pub fn is_cancelled(&self, flag: usize) -> (r: bool)
        ensures
            r == is_set(self@.flags, flag),
    {
        flag >= self.flags.len() || self.flags[flag]
    }

    pub fn lifecycle_active(&self, cancelled: usize, run_generation: u64) -> (r: bool)
        ensures
            r == self@.active(run_generation, cancelled),
    {
        !self.is_cancelled(cancelled) && self.generation == run_generation
    }

    pub fn cancel(&mut self, flag: Option<usize>)
        ensures
            final(self)@ == (ManagerView { flags: with_flag(old(self)@.flags, flag), ..old(self)@ }),
    {
        if let Some(i) = flag {
            if i < self.flags.len() {
                self.flags.set(i, true);
            }
        }
    }

    pub fn prune_exited_child(&mut self, exited: bool)
        ensures
            final(self)@ == old(self)@.pruned(exited),
    {
        if exited {
            self.owned = None;
        }
    }

    pub fn clear_pending_start(&mut self, cancelled: usize)
        ensures
            final(self)@ == old(self)@.cleared(cancelled),
    {
        self.cancel(Some(cancelled));
        self.active_cancel = None;
        let session = self.session_cancel;
        self.session_cancel = None;
        self.cancel(session);
        self.session_credentials = None;
        self.active_config = None;
        self.handoff_active = false;
    }

    pub fn set_status(&mut self, effects: &mut Vec<Effect>, next: ServiceStatus)
        ensures
            final(self)@ == old(self)@.showing(next@),
            effects_view(final(effects)@) == effects_view(old(effects)@) + announced(next@),
    {
        let ghost before = effects_view(effects@);
        if !equal(next.phase.as_str(), "running") {
            effects.push(Effect::TrayIdle);
        }
        effects.push(Effect::Status(next.clone()));
        assert(effects_view(effects@) =~= before + announced(next@));
        self.status = next;
    }

    /// Keeps a cookie with the credentials, while there are any.
    pub fn keep_cookie(&mut self, cookie: String)
        ensures
            final(self)@ == (ManagerView {
                session_credentials: match old(self)@.session_credentials {
                    Some(c) => Some(CredentialsView { cookie: Some(cookie@), ..c }),
                    None => None,
                },
                ..old(self)@
            }),
    {
        let kept = self.session_credentials.take();
        if let Some(c) = kept {
            self.session_credentials = Some(
                SessionCredentials { origin: c.origin, token: c.token, cookie: Some(cookie) },
            );
        }
    }
}

pub fn push_log(effects: &mut Vec<Effect>, level: &'static str, message: String)
    ensures
        effects_view(final(effects)@) == effects_view(old(effects)@).push(
            logged(level@, message@),
        ),
{
    let ghost before = effects_view(effects@);
    effects.push(Effect::Log { level, message });
    assert(effects_view(effects@) =~= before.push(logged(level@, message@)));
}

// ---------------------------------------------------------------------------
// The address that the service prints
// ---------------------------------------------------------------------------

/// The local address on the line with which the service announces itself.
pub open spec fn announced_address(line: Seq<char>) -> Option<Seq<char>> {
    match text::strip_prefix(text::trim(line), "dsh web: "@) {
        Some(rest) => {
            let all = text::trim(rest);
            Some(
                match text::find_text(all, " (LAN:"@) {
                    Some(i) => text::trim(all.take(i)),
                    None => text::trim(all),
                },
            )
        },
        None => None,
    }
}

/// A web address whose query holds a token.
pub open spec fn carries_token(url: adapters::UrlView) -> bool {
    adapters::is_web_scheme(url.scheme) && session_monitor::first_value(
        url.query,
        "token"@,
    ) is Some
}

/// Whether the parts of an address are those of one with a token.
pub fn url_carries_token(url: &UrlParts) -> (r: bool)
    ensures
        r == carries_token(url@),
{
    web_scheme(url.scheme.as_str()) && value_of(&url.query, "token").is_some()
}

/// The address with a token that a line announces.
pub open spec fn announced_token_url(line: Seq<char>) -> Option<Seq<char>> {
    match announced_address(line) {
        Some(first) => match adapters::url_of(first) {
            Ok(parts) => if carries_token(parts) {
                Some(first)
            } else {
                None
            },
            Err(_) => None,
        },
        None => None,
    }
}

pub fn extract_authenticated_url(line: &str) -> (r: Option<String>)
    ensures
        text::opt_text(r) == announced_token_url(line@),
{
    let all = chars_of(line);
    let rest = match after_prefix(trimmed(all.as_slice()), "dsh web: ") {
        Some(rest) => trimmed(rest),
        None => return None,
    };
    let first = match search(rest, " (LAN:") {
        Some(i) => {
            assert(rest@.take(i as int) == rest@.subrange(0, i as int));
            trimmed(vstd::slice::slice_subrange(rest, 0, i))
        },
        None => trimmed(rest),
    };
    let first = string_of(first);
    match parse_url(first.as_str()) {
        Ok(parts) => if url_carries_token(&parts) {
            Some(first)
        } else {
            None
        },
        Err(_) => None,
    }
}

/// Two web addresses have the same origin.
pub open spec fn same_origin(a: Seq<char>, b: Seq<char>) -> bool {
    match (adapters::url_of(a), adapters::url_of(b)) {
        (Ok(a), Ok(b)) => adapters::is_web_scheme(a.scheme) && adapters::is_web_scheme(b.scheme)
            && adapters::web_origin(a) == adapters::web_origin(b),
        _ => false,
    }
}

fn have_same_origin(a: &str, b: &str) -> (r: bool)
    ensures
        r == same_origin(a@, b@),
{
    match (parse_url(a), parse_url(b)) {
        (Ok(at), Ok(bt)) => web_scheme(at.scheme.as_str()) && web_scheme(bt.scheme.as_str())
            && equal(url_origin(a).as_str(), url_origin(b).as_str()),
        _ => false,
    }
}

/// The address that is taken over from a line: one with a token, of the service that was
/// configured.
pub open spec fn captured_url(line: Seq<char>, host: Seq<char>, port: u16) -> Option<Seq<char>> {
    match announced_token_url(line) {
        Some(url) => if same_origin(url, process::service_address(host, port)) {
            Some(url)
        } else {
            None
        },
        None => None,
    }
}

/// What a line that the service printed changes. While the service at hand is another's,
/// no line is one of its own.
pub open spec fn line_captured(m: ManagerView, line: Seq<char>, host: Seq<char>, port: u16) -> ManagerView {
    match captured_url(line, host, port) {
        Some(url) if m.status.phase != "external"@ => ManagerView {
            authenticated_url: Some(url),
            ..m
        },
        _ => m,
    }
}

impl ServiceManager {
    /// Reads a line that the service printed.
    pub fn capture_line(&mut self, line: &str, host: &str, port: u16)
        ensures
            final(self)@ == line_captured(old(self)@, line@, host@, port),
    {
        if equal(self.status.phase.as_str(), "external") {
            return;
        }
        if let Some(url) = extract_authenticated_url(line) {
            if have_same_origin(url.as_str(), service_url(host, port).as_str()) {
                self.authenticated_url = Some(url);
            }
        }
    }
}

// ---------------------------------------------------------------------------
// Starting
// ---------------------------------------------------------------------------

/// What the watchers of one run know of it.
#[derive(Debug)]
pub struct Run {
    pub config: LauncherConfig,
    pub generation: u64,
    pub cancelled: usize,
    pub session_cancel: usize,
    pub url: String,
    pub pid: u32,
}

#[verifier::ext_equal]
pub struct RunView {
    pub config: LauncherConfig,
    pub generation: u64,
    pub cancelled: usize,
    pub session_cancel: usize,
    pub url: Seq<char>,
    pub pid: u32,
}

impl View for Run {
    type V = RunView;

    open spec fn view(&self) -> RunView {
        RunView {
            config: self.config,
            generation: self.generation,
            cancelled: self.cancelled,
            session_cancel: self.session_cancel,
            url: self.url@,
            pid: self.pid,
        }
    }
}

/// How far a start has come.
#[derive(Debug)]
pub enum StartStage {
    /// The DSH command must be found.
    Resolve,
    /// The addresses of the host must be found.
    Address,
    /// Whether anything listens on the port must be found out.
    Probe,
    /// Something listens: whether it is a web service must be found out.
    Health,
    /// The process must be started.
    Spawn,
    Done(Result<ServiceStatus, String>),
}

#[verifier::ext_equal]
pub enum StartStageView {
    Resolve,
    Address,
    Probe,
    Health,
    Spawn,
    Done(Result<StatusView, Seq<char>>),
}

#[derive(Debug)]
pub struct Start {
    pub run: Run,
    /// The DSH command, once it is found.
    pub dsh: Vec<u8>,
    /// The arguments that the process is started with.
    pub args: Vec<String>,
    pub stage: StartStage,
}

#[verifier::ext_equal]
pub struct StartView {
    pub run: RunView,
    pub dsh: Seq<u8>,
    pub args: Seq<Seq<char>>,
    pub stage: StartStageView,
}

pub open spec fn status_outcome(r: Result<ServiceStatus, String>) -> Result<StatusView, Seq<char>> {
    match r {
        Ok(s) => Ok(s@),
        Err(e) => Err(e@),
    }
}

pub open spec fn start_stage_view(s: StartStage) -> StartStageView {
    match s {
        StartStage::Resolve => StartStageView::Resolve,
        StartStage::Address => StartStageView::Address,
        StartStage::Probe => StartStageView::Probe,
        StartStage::Health => StartStageView::Health,
        StartStage::Spawn => StartStageView::Spawn,
        StartStage::Done(r) => StartStageView::Done(status_outcome(r)),
    }
}

impl View for Start {
    type V = StartView;

    open spec fn view(&self) -> StartView {
        StartView {
            run: self.run@,
            dsh: self.dsh@,
            args: text::texts(self.args@),
            stage: start_stage_view(self.stage),
        }
    }
}

/// What was found out for a start.
#[derive(Debug)]
pub enum StartEvent {
    Resolved(Option<Vec<u8>>),
    Addressed(bool),
    Connected(bool),
    Ready(bool),
    Spawned(Result<u32, String>),
}

/// The arguments with which the service is started.
pub open spec fn launch_arguments(config: LauncherConfig, custom: Seq<Seq<char>>) -> Seq<Seq<char>> {
    seq![
        "--profile"@,
        text::trim(config.profile@),
        "--host"@,
        text::trim(config.host@),
        "--port"@,
        text::decimal(config.port as nat),
    ] + custom
}

pub fn launch_args(config: &LauncherConfig, custom: Vec<String>) -> (r: Vec<String>)
    ensures
        text::texts(r@) == launch_arguments(*config, text::texts(custom@)),
{
    let mut args: Vec<String> = Vec::new();
    args.push("--profile".to_string());
    args.push(string_of(trimmed(chars_of(config.profile.as_str()).as_slice())));
    args.push("--host".to_string());
    args.push(string_of(trimmed(chars_of(config.host.as_str()).as_slice())));
    args.push("--port".to_string());
    args.push(number(config.port as u64));
    let ghost fixed = args@;
    let ghost all = custom@;
    let mut custom = custom;
    args.append(&mut custom);
    assert(text::texts(args@) =~= launch_arguments(*config, text::texts(all)));
    args
}

pub open spec fn starting_status(url: Seq<char>, pid: Option<u32>, message: Seq<char>) -> StatusView {
    StatusView { phase: "starting"@, pid, url: Some(url), message }
}

pub open spec fn external_status(url: Seq<char>) -> StatusView {
    StatusView {
        phase: "external"@,
        pid: None,
        url: Some(url),
        message: "检测到端口上已有 Web 服务，启动器不会接管"@,
    }
}

pub open spec fn failed_status(pid: Option<u32>, url: Option<Seq<char>>, message: Seq<char>) -> StatusView {
    StatusView { phase: "failed"@, pid, url, message }
}

/// How a start begins, given the state in which it is asked for: refused while the
/// launcher has a service, else pending.
pub open spec fn start_begun(m: ManagerView, config: LauncherConfig, exited: bool) -> (
    ManagerView,
    Option<StartView>,
) {
    let m = m.pruned(exited).unquarantined();
    if m.busy() {
        (m, None)
    } else {
        let p = m.pending(config);
        (
            p,
            Some(
                StartView {
                    run: RunView {
                        config,
                        generation: p.generation,
                        cancelled: p.active_cancel->0,
                        session_cancel: p.session_cancel->0,
                        url: process::service_address(config.host@, config.port),
                        pid: 0,
                    },
                    dsh: Seq::empty(),
                    args: Seq::empty(),
                    stage: StartStageView::Resolve,
                },
            ),
        )
    }
}

/// A start that ends without a service.
pub open spec fn start_failed(m: ManagerView, s: StartView, message: Seq<char>) -> (
    ManagerView,
    StartView,
    Seq<EffectView>,
) {
    (
        m.cleared(s.run.cancelled),
        StartView { stage: StartStageView::Done(Err(message)), ..s },
        Seq::empty(),
    )
}

/// A start after something was found out. What answers another question changes nothing.
pub open spec fn start_advanced(m: ManagerView, s: StartView, event: StartEvent) -> (
    ManagerView,
    StartView,
    Seq<EffectView>,
) {
    let config = s.run.config;
    match (s.stage, event) {
        (StartStageView::Resolve, StartEvent::Resolved(None)) => start_failed(
            m,
            s,
            "未找到可执行的 dsh，请手动指定路径"@,
        ),
        (StartStageView::Resolve, StartEvent::Resolved(Some(dsh))) => (
            m,
            StartView { dsh: dsh@, stage: StartStageView::Address, ..s },
            Seq::empty(),
        ),
        (StartStageView::Address, StartEvent::Addressed(found)) => if found {
            (m, StartView { stage: StartStageView::Probe, ..s }, Seq::empty())
        } else {
            start_failed(m, s, "主机或端口格式无效"@)
        },
        (StartStageView::Probe, StartEvent::Connected(true)) => (
            m,
            StartView { stage: StartStageView::Health, ..s },
            Seq::empty(),
        ),
        (StartStageView::Probe, StartEvent::Connected(false)) => match process::custom_arguments(
            config.custom_args@,
        ) {
            None => start_failed(m, s, "DSH 参数格式无效：missing closing quote"@),
            Some(custom) => {
                let next = starting_status(s.run.url, None, "正在启动 DSH..."@);
                (
                    ManagerView { authenticated_url: None, ..m }.showing(next),
                    StartView {
                        args: launch_arguments(config, custom),
                        stage: StartStageView::Spawn,
                        ..s
                    },
                    announced(next).push(logged("info"@, "Starting "@ + adapters::lossy(s.dsh))),
                )
            },
        },
        (StartStageView::Health, StartEvent::Ready(true)) => {
            let next = external_status(s.run.url);
            (
                ManagerView { authenticated_url: None, ..m }.showing(next).cleared(
                    s.run.cancelled,
                ),
                StartView { stage: StartStageView::Done(Ok(next)), ..s },
                announced(next) + seq![
                    EffectView::TrayHealthy,
                    logged(
                        "warning"@,
                        "External web service detected on port "@ + text::decimal(
                            config.port as nat,
                        ),
                    ),
                ],
            )
        },
        (StartStageView::Health, StartEvent::Ready(false)) => start_failed(
            m,
            s,
            "端口 "@ + text::decimal(config.port as nat) + " 已被其他程序占用"@,
        ),
        (StartStageView::Spawn, StartEvent::Spawned(Err(error))) => {
            let next = failed_status(None, None, "启动失败："@ + error@);
            (
                m.cleared(s.run.cancelled).showing(next),
                StartView { stage: StartStageView::Done(Err("启动 dsh 失败："@ + error@)), ..s },
                announced(next),
            )
        },
        (StartStageView::Spawn, StartEvent::Spawned(Ok(pid))) => {
            let next = starting_status(s.run.url, Some(pid), "正在等待健康检查..."@);
            (
                ManagerView {
                    adopted: None,
                    owned: Some(OwnedChild { pid, cancelled: s.run.cancelled }),
                    ..m
                }.showing(next),
                StartView {
                    run: RunView { pid, ..s.run },
                    stage: StartStageView::Done(Ok(next)),
                    ..s
                },
                announced(next),
            )
        },
        _ => (m, s, Seq::empty()),
    }
}

impl ServiceManager {
    /// Begins to start the service. `exited` says whether the child that is owned, if any,
    /// has exited.
    pub fn start(&mut self, config: LauncherConfig, exited: bool) -> (r: Result<Start, String>)
        ensures
            ({
                let begun = start_begun(old(self)@, config, exited);
                &&& final(self)@ == begun.0
                &&& match r {
                    Ok(s) => begun.1 == Some(s@),
                    Err(e) => begun.1 is None && e@ == "DSH 服务已由启动器运行"@,
                }
            }),
            r is Err <==> old(self)@.pruned(exited).busy(),
    {
        self.prune_exited_child(exited);
        let quarantine = self.quarantine_cancel;
        self.quarantine_cancel = None;
        self.cancel(quarantine);
        self.quarantine_active = false;
        assert(self@ == old(self)@.pruned(exited).unquarantined());
        if self.owned.is_some() || self.adopted.is_some() || self.handoff_active {
            return Err("DSH 服务已由启动器运行".to_string());
        }
        let ghost before = self@;
        let session = self.session_cancel;
        self.cancel(session);
        let cancelled: usize = self.flags.len();
        self.flags.push(false);
        let session_cancel: usize = self.flags.len();
        self.flags.push(false);
        self.generation = self.generation.wrapping_add(1);
        self.active_cancel = Some(cancelled);
        self.session_cancel = Some(session_cancel);
        self.session_credentials = None;
        self.active_config = Some(config.clone());
        self.handoff_active = false;
        self.authenticated_url = None;
        assert(self@ == before.pending(config));
        let url = service_url(config.host.as_str(), config.port);
        let start = Start {
            run: Run {
                config,
                generation: self.generation,
                cancelled,
                session_cancel,
                url,
                pid: 0,
            },
            dsh: Vec::new(),
            args: Vec::new(),
            stage: StartStage::Resolve,
        };
        assert(text::texts(start.args@) =~= Seq::<Seq<char>>::empty());
        Ok(start)
    }

    fn fail_start(&mut self, start: &mut Start, message: String)
        ensures
            ({
                let f = start_failed(old(self)@, old(start)@, message@);
                final(self)@ == f.0 && final(start)@ == f.1
            }),
    {
        self.clear_pending_start(start.run.cancelled);
        start.stage = StartStage::Done(Err(message));
    }

    /// Goes on with a start.
    pub fn start_next(&mut self, start: &mut Start, event: StartEvent) -> (r: Vec<Effect>)
        ensures
            (final(self)@, final(start)@, effects_view(r@)) == start_advanced(
                old(self)@,
                old(start)@,
                event,
            ),
    {
        let mut effects: Vec<Effect> = Vec::new();
        let ghost want = start_advanced(self@, start@, event);
        assert(effects_view(effects@) =~= Seq::<EffectView>::empty());
        match (&start.stage, event) {
            (StartStage::Resolve, StartEvent::Resolved(None)) => {
                self.fail_start(start, "未找到可执行的 dsh，请手动指定路径".to_string());
            },
            (StartStage::Resolve, StartEvent::Resolved(Some(dsh))) => {
                start.dsh = dsh;
                start.stage = StartStage::Address;
            },
            (StartStage::Address, StartEvent::Addressed(found)) => {
                if found {
                    start.stage = StartStage::Probe;
                } else {
                    self.fail_start(start, "主机或端口格式无效".to_string());
                }
            },
            (StartStage::Probe, StartEvent::Connected(true)) => {
                start.stage = StartStage::Health;
            },
            (StartStage::Probe, StartEvent::Connected(false)) => {
                match parse_custom_args(start.run.config.custom_args.as_str()) {
                    Err(error) => {
                        self.fail_start(start, error);
                    },
                    Ok(custom) => {
                        start.args = launch_args(&start.run.config, custom);
                        start.stage = StartStage::Spawn;
                        self.authenticated_url = None;
                        let next = status_of(
                            "starting",
                            None,
                            Some(start.run.url.clone()),
                            "正在启动 DSH...",
                        );
                        self.set_status(&mut effects, next);
                        push_log(
                            &mut effects,
                            "info",
                            "Starting ".to_string().concat(lossy_text(start.dsh.as_slice()).as_str()),
                        );
                        assert(effects_view(effects@) =~= want.2);
                    },
                }
            },
            (StartStage::Health, StartEvent::Ready(true)) => {
                let next = status_of(
                    "external",
                    None,
                    Some(start.run.url.clone()),
                    "检测到端口上已有 Web 服务，启动器不会接管",
                );
                self.authenticated_url = None;
                self.set_status(&mut effects, next.clone());
                effects.push(Effect::TrayHealthy);
                push_log(
                    &mut effects,
                    "warning",
                    "External web service detected on port ".to_string().concat(
                        number(start.run.config.port as u64).as_str(),
                    ),
                );
                self.clear_pending_start(start.run.cancelled);
                start.stage = StartStage::Done(Ok(next));
                assert(effects_view(effects@) =~= want.2);
            },
            (StartStage::Health, StartEvent::Ready(false)) => {
                let message = "端口 ".to_string().concat(
                    number(start.run.config.port as u64).as_str(),
                ).concat(" 已被其他程序占用");
                self.fail_start(start, message);
            },
            (StartStage::Spawn, StartEvent::Spawned(Err(error))) => {
                self.clear_pending_start(start.run.cancelled);
                let message = "启动失败：".to_string().concat(error.as_str());
                let next = status_of("failed", None, None, message.as_str());
                self.set_status(&mut effects, next);
                start.stage = StartStage::Done(
                    Err("启动 dsh 失败：".to_string().concat(error.as_str())),
                );
                assert(effects_view(effects@) =~= want.2);
            },
            (StartStage::Spawn, StartEvent::Spawned(Ok(pid))) => {
                self.adopted = None;
                self.owned = Some(OwnedChild { pid, cancelled: start.run.cancelled });
                let next = status_of(
                    "starting",
                    Some(pid),
                    Some(start.run.url.clone()),
                    "正在等待健康检查...",
                );
                self.set_status(&mut effects, next.clone());
                start.run.pid = pid;
                start.stage = StartStage::Done(Ok(next));
                assert(effects_view(effects@) =~= want.2);
            },
            _ => {},
        }
        assert(effects_view(effects@) =~= want.2);
        effects
    }
}

// ---------------------------------------------------------------------------
// Stopping
// ---------------------------------------------------------------------------

/// The search for a process that a plugin starts although the service was stopped.
#[derive(Debug)]
pub struct Quarantine {
    /// The surroundings are told what the search does.
    pub with_app: bool,
    pub config: LauncherConfig,
    pub cancelled: usize,
    pub generation: u64,
}

/// How far a stop has come.
#[derive(Debug)]
pub enum StopStage {
    /// The child must be asked to end.
    SignalChild,
    /// Whether the child has ended must be found out.
    WaitChild,
    /// The child must be forced to end.
    KillChild,
    /// Whether the adopted process is still the same must be found out.
    CheckAdopted,
    /// The adopted process must be ended.
    EndAdopted,
    Done(Result<ServiceStatus, String>),
}

#[verifier::ext_equal]
pub enum StopStageView {
    SignalChild,
    WaitChild,
    KillChild,
    CheckAdopted,
    EndAdopted,
    Done(Result<StatusView, Seq<char>>),
}

pub open spec fn stop_stage_view(s: StopStage) -> StopStageView {
    match s {
        StopStage::SignalChild => StopStageView::SignalChild,
        StopStage::WaitChild => StopStageView::WaitChild,
        StopStage::KillChild => StopStageView::KillChild,
        StopStage::CheckAdopted => StopStageView::CheckAdopted,
        StopStage::EndAdopted => StopStageView::EndAdopted,
        StopStage::Done(r) => StopStageView::Done(status_outcome(r)),
    }
}

#[derive(Debug)]
pub struct Stop {
    /// The surroundings are told.
    pub with_app: bool,
    pub owned: Option<OwnedChild>,
    pub adopted: Option<AdoptedProcess>,
    /// The search that begins once the service is stopped.
    pub quarantine: Option<Quarantine>,
    pub stage: StopStage,
}

#[verifier::ext_equal]
pub struct StopView {
    pub with_app: bool,
    pub owned: Option<OwnedChild>,
    pub adopted: Option<AdoptedView>,
    pub quarantine: Option<Quarantine>,
    pub stage: StopStageView,
}

impl View for Stop {
    type V = StopView;

    open spec fn view(&self) -> StopView {
        StopView {
            with_app: self.with_app,
            owned: self.owned,
            adopted: opt_adopted(self.adopted),
            quarantine: self.quarantine,
            stage: stop_stage_view(self.stage),
        }
    }
}

#[derive(Debug)]
pub enum StopEvent {
    Signalled,
    /// Whether the child has exited, and whether time is up.
    Child { exited: Result<bool, String>, expired: bool },
    Killed,
    Seen(Listener),
    Ended(Result<(), String>),
}

impl ManagerView {
    /// The current run is over: whatever belongs to it is told so.
    pub open spec fn ended_run(self) -> ManagerView {
        ManagerView {
            flags: with_flag(
                with_flag(with_flag(self.flags, self.active_cancel), self.session_cancel),
                self.quarantine_cancel,
            ),
            active_cancel: None,
            session_cancel: None,
            session_credentials: None,
            quarantine_cancel: None,
            quarantine_active: false,
            handoff_active: false,
            generation: self.generation.wrapping_add(1),
            ..self
        }
    }
}

/// The service is stopped; a search for late successors begins where a configuration was
/// in use.
pub open spec fn stop_finished(m: ManagerView, s: StopView) -> (ManagerView, StopView) {
    match m.active_config {
        Some(config) => (
            ManagerView {
                flags: m.flags.push(false),
                quarantine_cancel: Some(m.flags.len() as usize),
                quarantine_active: true,
                ..m
            }.showing(stopped_status()),
            StopView {
                quarantine: Some(
                    Quarantine {
                        with_app: s.with_app,
                        config,
                        cancelled: m.flags.len() as usize,
                        generation: m.generation,
                    },
                ),
                stage: StopStageView::Done(Ok(stopped_status())),
                ..s
            },
        ),
        None => (
            m.showing(stopped_status()),
            StopView { stage: StopStageView::Done(Ok(stopped_status())), ..s },
        ),
    }
}

/// The child has ended, or there was none.
pub open spec fn child_stopped(m: ManagerView, s: StopView) -> (ManagerView, StopView) {
    if s.adopted is Some {
        (m, StopView { stage: StopStageView::CheckAdopted, ..s })
    } else {
        stop_finished(m, s)
    }
}

/// How a stop begins. With `with_app` the surroundings are told.
pub open spec fn stop_begun(m: ManagerView, with_app: bool, exited: bool) -> (
    ManagerView,
    StopView,
    Seq<EffectView>,
) {
    let over = m.ended_run().pruned(exited);
    let taken = ManagerView { owned: None, adopted: None, ..over };
    let s = StopView {
        with_app,
        owned: over.owned,
        adopted: over.adopted,
        quarantine: None,
        stage: StopStageView::Done(Ok(stopped_status())),
    };
    let closing = if with_app {
        seq![EffectView::CloseContent]
    } else {
        seq![]
    };
    if over.owned is None && over.adopted is None && over.active_config is None {
        (taken.showing(stopped_status()), s, closing)
    } else {
        let next = StatusView {
            phase: "stopping"@,
            pid: if with_app {
                None
            } else {
                m.status.pid
            },
            url: if with_app {
                None
            } else {
                m.status.url
            },
            message: "正在停止 DSH..."@,
        };
        let told = if with_app {
            closing + announced(next)
        } else {
            closing
        };
        match over.owned {
            Some(child) => (
                ManagerView {
                    flags: with_flag(taken.flags, Some(child.cancelled)),
                    ..taken
                }.showing(next),
                StopView { stage: StopStageView::SignalChild, ..s },
                told,
            ),
            None => {
                let (m2, s2) = child_stopped(taken.showing(next), s);
                (m2, s2, told)
            },
        }
    }
}

/// A stop after something was found out. What answers another question changes nothing.
pub open spec fn stop_advanced(m: ManagerView, s: StopView, event: StopEvent) -> (
    ManagerView,
    StopView,
) {
    match (s.stage, event) {
        (StopStageView::SignalChild, StopEvent::Signalled) => (
            m,
            StopView { stage: StopStageView::WaitChild, ..s },
        ),
        (StopStageView::WaitChild, StopEvent::Child { exited, expired }) => match exited {
            Err(e) => (
                m,
                StopView {
                    stage: StopStageView::Done(Err("检查 DSH 退出状态失败："@ + e@)),
                    ..s
                },
            ),
            Ok(true) => child_stopped(m, s),
            Ok(false) => if expired {
                (m, StopView { stage: StopStageView::KillChild, ..s })
            } else {
                (m, s)
            },
        },
        (StopStageView::KillChild, StopEvent::Killed) => child_stopped(m, s),
        (StopStageView::CheckAdopted, StopEvent::Seen(seen)) => if s.adopted is Some
            && process::still_matches(seen, s.adopted->0.pid, s.adopted->0.command_line) {
            (m, StopView { stage: StopStageView::EndAdopted, ..s })
        } else {
            stop_finished(m, s)
        },
        (StopStageView::EndAdopted, StopEvent::Ended(ended)) => match ended {
            Err(e) => (m, StopView { stage: StopStageView::Done(Err(e@)), ..s }),
            Ok(_) => stop_finished(m, s),
        },
        _ => (m, s),
    }
}

impl ServiceManager {
    fn finish_stop(&mut self, stop: &mut Stop)
        ensures
            (final(self)@, final(stop)@) == stop_finished(old(self)@, old(stop)@),
    {
        let config = match &self.active_config {
            Some(config) => Some(config.clone()),
            None => None,
        };
        if let Some(config) = config {
            let cancelled: usize = self.flags.len();
            self.flags.push(false);
            self.quarantine_cancel = Some(cancelled);
            self.quarantine_active = true;
            stop.quarantine = Some(
                Quarantine {
                    with_app: stop.with_app,
                    config,
                    cancelled,
                    generation: self.generation,
                },
            );
        }
        self.status = ServiceStatus::default();
        stop.stage = StopStage::Done(Ok(ServiceStatus::default()));
    }

    fn child_is_stopped(&mut self, stop: &mut Stop)
        ensures
            (final(self)@, final(stop)@) == child_stopped(old(self)@, old(stop)@),
    {
        if stop.adopted.is_some() {
            stop.stage = StopStage::CheckAdopted;
        } else {
            self.finish_stop(stop);
        }
    }

    /// Begins to stop the service. Nothing of the current run, nor of a search for its
    /// successors, has a say any more.
    pub fn stop(&mut self, with_app: bool, exited: bool) -> (r: (Stop, Vec<Effect>))
        ensures
            (final(self)@, r.0@, effects_view(r.1@)) == stop_begun(old(self)@, with_app, exited),
    {
        let mut effects: Vec<Effect> = Vec::new();
        let ghost begun = stop_begun(self@, with_app, exited);
        self.generation = self.generation.wrapping_add(1);
        let active = self.active_cancel;
        self.active_cancel = None;
        self.cancel(active);
        let session = self.session_cancel;
        self.session_cancel = None;
        self.cancel(session);
        self.session_credentials = None;
        let quarantine = self.quarantine_cancel;
        self.quarantine_cancel = None;
        self.cancel(quarantine);
        self.handoff_active = false;
        self.quarantine_active = false;
        assert(self@ == old(self)@.ended_run());
        if with_app {
            effects.push(Effect::CloseContent);
        }
        self.prune_exited_child(exited);
        let owned = self.owned;
        self.owned = None;
        let adopted = self.adopted.take();
        let mut stop = Stop {
            with_app,
            owned,
            adopted,
            quarantine: None,
            stage: StopStage::Done(Ok(ServiceStatus::default())),
        };
        if stop.owned.is_none() && stop.adopted.is_none() && self.active_config.is_none() {
            self.status = ServiceStatus::default();
            assert(effects_view(effects@) =~= begun.2);
            return (stop, effects);
        }
        if with_app {
            let next = status_of("stopping", None, None, "正在停止 DSH...");
            self.set_status(&mut effects, next);
        } else {
            self.status.phase = "stopping".to_string();
            self.status.message = "正在停止 DSH...".to_string();
        }
        assert(effects_view(effects@) =~= begun.2);
        if let Some(child) = stop.owned {
            self.cancel(Some(child.cancelled));
            stop.stage = StopStage::SignalChild;
        } else {
            self.child_is_stopped(&mut stop);
        }
        (stop, effects)
    }

    /// Goes on with a stop.
    pub fn stop_next(&mut self, stop: &mut Stop, event: StopEvent)
        ensures
            (final(self)@, final(stop)@) == stop_advanced(old(self)@, old(stop)@, event),
    {
        match (&stop.stage, event) {
            (StopStage::SignalChild, StopEvent::Signalled) => {
                stop.stage = StopStage::WaitChild;
            },
            (StopStage::WaitChild, StopEvent::Child { exited, expired }) => match exited {
                Err(e) => {
                    stop.stage = StopStage::Done(
                        Err("检查 DSH 退出状态失败：".to_string().concat(e.as_str())),
                    );
                },
                Ok(true) => {
                    self.child_is_stopped(stop);
                },
                Ok(false) => {
                    if expired {
                        stop.stage = StopStage::KillChild;
                    }
                },
            },
            (StopStage::KillChild, StopEvent::Killed) => {
                self.child_is_stopped(stop);
            },
            (StopStage::CheckAdopted, StopEvent::Seen(seen)) => {
                let same = match &stop.adopted {
                    Some(adopted) => external_process_still_matches(
                        &seen,
                        adopted.pid,
                        adopted.command_line.as_str(),
                    ),
                    None => false,
                };
                if same {
                    stop.stage = StopStage::EndAdopted;
                } else {
                    self.finish_stop(stop);
                }
            },
            (StopStage::EndAdopted, StopEvent::Ended(ended)) => match ended {
                Err(e) => {
                    stop.stage = StopStage::Done(Err(e));
                },
                Ok(_) => {
                    self.finish_stop(stop);
                },
            },
            _ => {},
        }
    }
}

// ---------------------------------------------------------------------------
// Ending a service that the launcher did not start
// ---------------------------------------------------------------------------

/// How far the forced end of an external service has come.
#[derive(Debug)]
pub enum ForceStage {
    /// Who listens, and with which command line, must be found out.
    Identify,
    /// Who listens must be found out once more.
    Recheck,
    /// The process must be ended.
    Terminate,
    /// The addresses of the host must be found.
    Address,
    /// Whether anything still listens must be found out.
    WaitPort,
    Done(Result<ServiceStatus, String>),
}

#[verifier::ext_equal]
pub enum ForceStageView {
    Identify,
    Recheck,
    Terminate,
    Address,
    WaitPort,
    Done(Result<StatusView, Seq<char>>),
}

pub open spec fn force_stage_view(s: ForceStage) -> ForceStageView {
    match s {
        ForceStage::Identify => ForceStageView::Identify,
        ForceStage::Recheck => ForceStageView::Recheck,
        ForceStage::Terminate => ForceStageView::Terminate,
        ForceStage::Address => ForceStageView::Address,
        ForceStage::WaitPort => ForceStageView::WaitPort,
        ForceStage::Done(r) => ForceStageView::Done(status_outcome(r)),
    }
}

#[derive(Debug)]
pub struct ForceStop {
    pub port: u16,
    /// The process that was identified, and its command line.
    pub pid: u32,
    pub command_line: String,
    pub stage: ForceStage,
}

#[verifier::ext_equal]
pub struct ForceView {
    pub port: u16,
    pub pid: u32,
    pub command_line: Seq<char>,
    pub stage: ForceStageView,
}

impl View for ForceStop {
    type V = ForceView;

    open spec fn view(&self) -> ForceView {
        ForceView {
            port: self.port,
            pid: self.pid,
            command_line: self.command_line@,
            stage: force_stage_view(self.stage),
        }
    }
}

#[derive(Debug)]
pub enum ForceEvent {
    Seen(Listener),
    Ended(Result<(), String>),
    Addressed(bool),
    /// Whether something listens, and whether time is up.
    Port { open: bool, expired: bool },
}

pub open spec fn force_done(f: ForceView, r: Result<StatusView, Seq<char>>) -> ForceView {
    ForceView { stage: ForceStageView::Done(r), ..f }
}

/// The forced end after something was found out. What answers another question changes
/// nothing.
pub open spec fn force_advanced(m: ManagerView, f: ForceView, event: ForceEvent) -> (
    ManagerView,
    ForceView,
    Seq<EffectView>,
) {
    match (f.stage, event) {
        (ForceStageView::Identify, ForceEvent::Seen(seen)) => match (seen.pid, seen.command) {
            (Err(e), _) => (m, force_done(f, Err(e@)), Seq::empty()),
            (Ok(_), Err(e)) => (m, force_done(f, Err(e@)), Seq::empty()),
            (Ok(pid), Ok(line)) => if process::is_dsh_line(line@) {
                (
                    m,
                    ForceView { pid, command_line: line@, stage: ForceStageView::Recheck, ..f },
                    Seq::empty(),
                )
            } else {
                (
                    m,
                    force_done(
                        f,
                        Err(
                            "端口 "@ + text::decimal(f.port as nat)
                                + " 的监听进程未通过 DSH 身份校验，已拒绝终止"@,
                        ),
                    ),
                    Seq::empty(),
                )
            },
        },
        (ForceStageView::Recheck, ForceEvent::Seen(seen)) => match seen.pid {
            Err(e) => (m, force_done(f, Err(e@)), Seq::empty()),
            Ok(pid) => if pid == f.pid {
                (
                    m,
                    ForceView { stage: ForceStageView::Terminate, ..f },
                    seq![
                        EffectView::CloseContent,
                        logged(
                            "warning"@,
                            "Force stopping external DSH process "@ + text::decimal(pid as nat),
                        ),
                    ],
                )
            } else {
                (
                    m,
                    force_done(f, Err("监听进程在校验期间发生变化，已拒绝终止"@)),
                    Seq::empty(),
                )
            },
        },
        (ForceStageView::Terminate, ForceEvent::Ended(ended)) => match ended {
            Err(e) => (m, force_done(f, Err(e@)), Seq::empty()),
            Ok(_) => (m, ForceView { stage: ForceStageView::Address, ..f }, Seq::empty()),
        },
        (ForceStageView::Address, ForceEvent::Addressed(found)) => if found {
            (m, ForceView { stage: ForceStageView::WaitPort, ..f }, Seq::empty())
        } else {
            (m, force_done(f, Err("主机或端口格式无效"@)), Seq::empty())
        },
        (ForceStageView::WaitPort, ForceEvent::Port { open, expired }) => if expired {
            (
                m,
                force_done(
                    f,
                    Err(
                        "外部 DSH 进程已终止，但端口 "@ + text::decimal(f.port as nat)
                            + " 仍在监听"@,
                    ),
                ),
                Seq::empty(),
            )
        } else if open {
            (m, f, Seq::empty())
        } else {
            (
                m.showing(stopped_status()),
                force_done(f, Ok(stopped_status())),
                announced(stopped_status()),
            )
        },
        _ => (m, f, Seq::empty()),
    }
}

impl ServiceManager {
    /// Begins to end a service that was found running. Only one that the launcher does not
    /// own and shows as external can be ended this way.
    pub fn force_stop_external(&mut self, config: &LauncherConfig, exited: bool) -> (r: Result<
        ForceStop,
        String,
    >)
        ensures
            final(self)@ == old(self)@.pruned(exited),
            match r {
                Ok(f) => final(self)@.owned is None && old(self)@.status.phase == "external"@ && f@
                    == (ForceView {
                    port: config.port,
                    pid: 0,
                    command_line: Seq::empty(),
                    stage: ForceStageView::Identify,
                }),
                Err(e) => if final(self)@.owned is Some {
                    e@ == "当前 DSH 由启动器管理，请使用普通停止功能"@
                } else {
                    old(self)@.status.phase != "external"@ && e@
                        == "当前未检测到可强制关闭的外部 DSH 服务"@
                },
            },
    {
        self.prune_exited_child(exited);
        if self.owned.is_some() {
            return Err("当前 DSH 由启动器管理，请使用普通停止功能".to_string());
        }
        if !equal(self.status.phase.as_str(), "external") {
            return Err("当前未检测到可强制关闭的外部 DSH 服务".to_string());
        }
        Ok(
            ForceStop {
                port: config.port,
                pid: 0,
                command_line: String::new(),
                stage: ForceStage::Identify,
            },
        )
    }

    /// Goes on with the forced end.
    pub fn force_next(&mut self, force: &mut ForceStop, event: ForceEvent) -> (r: Vec<Effect>)
        ensures
            (final(self)@, final(force)@, effects_view(r@)) == force_advanced(
                old(self)@,
                old(force)@,
                event,
            ),
    {
        let mut effects: Vec<Effect> = Vec::new();
        let ghost want = force_advanced(self@, force@, event);
        assert(effects_view(effects@) =~= Seq::<EffectView>::empty());
        match (&force.stage, event) {
            (ForceStage::Identify, ForceEvent::Seen(seen)) => match (seen.pid, seen.command) {
                (Err(e), _) => {
                    force.stage = ForceStage::Done(Err(e));
                },
                (Ok(_), Err(e)) => {
                    force.stage = ForceStage::Done(Err(e));
                },
                (Ok(pid), Ok(line)) => {
                    if looks_like_dsh_process(line.as_str()) {
                        force.pid = pid;
                        force.command_line = line;
                        force.stage = ForceStage::Recheck;
                    } else {
                        force.stage = ForceStage::Done(
                            Err(
                                "端口 ".to_string().concat(number(force.port as u64).as_str()).concat(
                                    " 的监听进程未通过 DSH 身份校验，已拒绝终止",
                                ),
                            ),
                        );
                    }
                },
            },
            (ForceStage::Recheck, ForceEvent::Seen(seen)) => match seen.pid {
                Err(e) => {
                    force.stage = ForceStage::Done(Err(e));
                },
                Ok(pid) => {
                    if pid == force.pid {
                        effects.push(Effect::CloseContent);
                        push_log(
                            &mut effects,
                            "warning",
                            "Force stopping external DSH process ".to_string().concat(
                                number(pid as u64).as_str(),
                            ),
                        );
                        force.stage = ForceStage::Terminate;
                    } else {
                        force.stage = ForceStage::Done(
                            Err("监听进程在校验期间发生变化，已拒绝终止".to_string()),
                        );
                    }
                },
            },
            (ForceStage::Terminate, ForceEvent::Ended(ended)) => match ended {
                Err(e) => {
                    force.stage = ForceStage::Done(Err(e));
                },
                Ok(_) => {
                    force.stage = ForceStage::Address;
                },
            },
            (ForceStage::Address, ForceEvent::Addressed(found)) => {
                force.stage = if found {
                    ForceStage::WaitPort
                } else {
                    ForceStage::Done(Err("主机或端口格式无效".to_string()))
                };
            },
            (ForceStage::WaitPort, ForceEvent::Port { open, expired }) => {
                if expired {
                    force.stage = ForceStage::Done(
                        Err(
                            "外部 DSH 进程已终止，但端口 ".to_string().concat(
                                number(force.port as u64).as_str(),
                            ).concat(" 仍在监听"),
                        ),
                    );
                } else if !open {
                    self.set_status(&mut effects, ServiceStatus::default());
                    force.stage = ForceStage::Done(Ok(ServiceStatus::default()));
                }
            },
            _ => {},
        }
        assert(effects_view(effects@) =~= want.2);
        effects
    }
}

/// An effect is seen as the effect that it is, and in its place.
pub proof fn an_effect_is_seen_as_it_is(
    v: Seq<Effect>,
    i: int,
    status: ServiceStatus,
    level: &'static str,
    message: String,
    flag: usize,
)
    ensures
        effects_view(v).len() == v.len(),
        0 <= i < v.len() ==> effects_view(v)[i] == effect_view(v[i]),
        effect_view(Effect::Status(status)) == EffectView::Status(
            StatusView {
                phase: status.phase@,
                pid: status.pid,
                url: text::opt_text(status.url),
                message: status.message@,
            },
        ),
        effect_view(Effect::TrayIdle) == EffectView::TrayIdle,
        effect_view(Effect::TrayHealthy) == EffectView::TrayHealthy,
        effect_view(Effect::Log { level, message }) == (EffectView::Log {
            level: level@,
            message: message@,
        }),
        effect_view(Effect::OpenContent(message)) == EffectView::OpenContent(message@),
        effect_view(Effect::CloseContent) == EffectView::CloseContent,
        effect_view(Effect::WatchSessions(flag)) == EffectView::WatchSessions(flag),
{
}

/// Every status but that of a running service takes the activity from the tray.
pub proof fn only_a_running_service_keeps_its_activity(next: StatusView)
    ensures
        announced(next).last() == EffectView::Status(next),
        announced(next).contains(EffectView::TrayIdle) <==> next.phase != "running"@,
{
    let sent = announced(next);
    if next.phase != "running"@ {
        assert(sent[0] == EffectView::TrayIdle);
    } else if sent.contains(EffectView::TrayIdle) {
        assert(sent[0] == EffectView::Status(next));
    }
}

} // verus!
