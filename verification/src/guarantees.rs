//! What holds of the service whatever happens, stated over the steps of its life.

use vstd::prelude::*;

use crate::config::LauncherConfig;
use crate::monitor;
use crate::monitor::{HandoffView, QuarantineView, Sighting, WatchView};
use crate::process;
use crate::process::Listener;
use crate::service;
use crate::service::{
    EffectView, ForceEvent, ForceView, ManagerView, Quarantine, RunView, StartEvent, StartStageView, StartView,
    StopEvent, StopStageView, StopView,
};

verus! {

/// Flags are handed out and set, never taken back or unset.
pub open spec fn grows(a: Seq<bool>, b: Seq<bool>) -> bool {
    a.len() <= b.len() && forall|i: int| 0 <= i < a.len() && a[i] ==> #[trigger] b[i]
}

/// A watcher's flags were handed out.
pub open spec fn known(m: ManagerView, run: RunView) -> bool {
    run.cancelled < m.flags.len() && run.session_cancel < m.flags.len()
}

// ---------------------------------------------------------------------------
// The state stays well formed
// ---------------------------------------------------------------------------

/// Starting keeps the state well formed and never unsets a flag.
pub proof fn starting_keeps_the_state_well_formed(
    m: ManagerView,
    config: LauncherConfig,
    exited: bool,
)
    requires
        m.wf(),
        m.flags.len() + 2 <= usize::MAX,
    ensures
        ({
            let (m2, s) = service::start_begun(m, config, exited);
            &&& m2.wf()
            &&& grows(m.flags, m2.flags)
            &&& s matches Some(s) ==> known(m2, s.run) && m2.runs(s.run)
        }),
{
}

/// Every step of a start keeps the state well formed and never unsets a flag.
pub proof fn a_start_keeps_the_state_well_formed(m: ManagerView, s: StartView, event: StartEvent)
    requires
        m.wf(),
        known(m, s.run),
    ensures
        ({
            let (m2, s2, _) = service::start_advanced(m, s, event);
            m2.wf() && grows(m.flags, m2.flags) && known(m2, s2.run)
        }),
{
}

/// Stopping keeps the state well formed and never unsets a flag.
pub proof fn stopping_keeps_the_state_well_formed(m: ManagerView, with_app: bool, exited: bool)
    requires
        m.wf(),
        m.flags.len() < usize::MAX,
    ensures
        ({
            let (m2, s, _) = service::stop_begun(m, with_app, exited);
            m2.wf() && grows(m.flags, m2.flags)
        }),
{
}

/// Every step of a stop keeps the state well formed and never unsets a flag.
pub proof fn a_stop_keeps_the_state_well_formed(m: ManagerView, s: StopView, event: StopEvent)
    requires
        m.wf(),
        m.flags.len() < usize::MAX,
    ensures
        ({
            let (m2, s2) = service::stop_advanced(m, s, event);
            m2.wf() && grows(m.flags, m2.flags)
        }),
{
}

/// Whatever the watchers of a run see, the state stays well formed and no flag is unset.
pub proof fn watching_keeps_the_state_well_formed(
    m: ManagerView,
    run: RunView,
    w: WatchView,
    old_pid: u32,
    expired: bool,
    flag: bool,
    exit: Option<Seq<char>>,
    seen: Sighting,
    q: Quarantine,
)
    requires
        m.wf(),
        known(m, run),
        w.session_cancel < m.flags.len(),
        m.flags.len() < usize::MAX,
    ensures
        ({
            let a = monitor::startup_polled(m, run, expired, exit, flag).0;
            let b = monitor::token_polled(m, run, expired).0;
            let d = monitor::handoff_polled(m, run, old_pid, expired, seen).0;
            let e = monitor::adopted_polled(m, run, w, seen.first, flag).0;
            let f = monitor::quarantine_polled(m, q, expired, seen.first, seen.second).0;
            &&& a.wf() && grows(m.flags, a.flags)
            &&& b.wf() && grows(m.flags, b.flags)
            &&& d.wf() && grows(m.flags, d.flags)
            &&& e.wf() && grows(m.flags, e.flags)
            &&& f.wf() && grows(m.flags, f.flags)
        }),
        exit matches Some(exit) ==> {
            let c = monitor::child_exited_to(m, run, flag, exit).0;
            c.wf() && grows(m.flags, c.flags)
        },
{
}

/// A run whose flag is set stays over as long as flags are only ever set.
pub proof fn a_run_that_is_over_stays_over(m: ManagerView, m2: ManagerView, run: RunView)
    requires
        known(m, run),
        m.flags[run.cancelled as int],
        grows(m.flags, m2.flags),
    ensures
        !m2.runs(run),
{
}

// ---------------------------------------------------------------------------
// A run that is over has no say
// ---------------------------------------------------------------------------

/// Once the service is being stopped, the run of which it was is over.
pub proof fn stopping_ends_the_run(m: ManagerView, run: RunView, with_app: bool, exited: bool)
    requires
        run.generation == m.generation,
    ensures
        !service::stop_begun(m, with_app, exited).0.runs(run),
{
}

/// Once a new start is pending, the runs before it are over.
pub proof fn starting_ends_the_run_before(
    m: ManagerView,
    run: RunView,
    config: LauncherConfig,
    exited: bool,
)
    requires
        run.generation == m.generation,
        service::start_begun(m, config, exited).1 is Some,
    ensures
        !service::start_begun(m, config, exited).0.runs(run),
{
}

/// The watchers of a run that is over change neither the status that is shown nor what the
/// launcher owns, has adopted, or is configured with.
pub proof fn a_run_that_is_over_has_no_say(
    m: ManagerView,
    run: RunView,
    w: WatchView,
    old_pid: u32,
    expired: bool,
    flag: bool,
    exit: Option<Seq<char>>,
    seen: Sighting,
)
    requires
        !m.runs(run),
    ensures
        same_service(m, monitor::startup_polled(m, run, expired, exit, flag).0),
        same_service(m, monitor::token_polled(m, run, expired).0),
        same_service(m, monitor::handoff_polled(m, run, old_pid, expired, seen).0),
        same_service(m, monitor::adopted_polled(m, run, w, seen.first, flag).0),
        exit matches Some(exit) ==> same_service(
            m,
            monitor::child_exited_to(m, run, flag, exit).0,
        ),
{
    if let Some(exit) = exit {
        let ended = m.sessions_ended(run.session_cancel);
        assert(!ended.runs(run));
    }
}

/// The same status, processes, configuration and address.
pub open spec fn same_service(a: ManagerView, b: ManagerView) -> bool {
    &&& a.status == b.status
    &&& a.owned == b.owned
    &&& a.adopted == b.adopted
    &&& a.active_config == b.active_config
    &&& a.authenticated_url == b.authenticated_url
    &&& a.generation == b.generation
}

// ---------------------------------------------------------------------------
// Starts
// ---------------------------------------------------------------------------

/// Where a start is after a sequence of events.
pub open spec fn start_run(m: ManagerView, s: StartView, events: Seq<StartEvent>) -> (
    ManagerView,
    StartView,
)
    decreases events.len(),
{
    if events.len() == 0 {
        (m, s)
    } else {
        let (m1, s1) = start_run(m, s, events.drop_last());
        let (m2, s2, _) = service::start_advanced(m1, s1, events.last());
        (m2, s2)
    }
}

/// Nothing of a run is left.
pub open spec fn nothing_pending(m: ManagerView) -> bool {
    &&& m.active_cancel is None
    &&& m.session_cancel is None
    &&& m.session_credentials is None
    &&& m.active_config is None
    &&& !m.handoff_active
    &&& m.owned is None
    &&& m.adopted is None
}

spec fn start_ok(m: ManagerView, s: StartView) -> bool {
    match s.stage {
        StartStageView::Done(Err(_)) => nothing_pending(m),
        StartStageView::Done(Ok(st)) => {
            ||| st.phase == "external"@ && st.pid is None && nothing_pending(m)
            ||| st.phase == "starting"@ && st.pid == Some(s.run.pid) && m.owned == Some(
                service::OwnedChild { pid: s.run.pid, cancelled: s.run.cancelled },
            ) && m.adopted is None && m.runs(s.run)
        },
        _ => m.owned is None && m.adopted is None && !m.handoff_active && m.runs(s.run),
    }
}

/// A start ends in one of three ways: it fails and nothing of it is left; a web service
/// was there already, and the launcher has not taken it over; or the launcher owns the
/// process that it started, and the run is the current one.
pub proof fn a_start_owns_its_process_or_nothing(
    m: ManagerView,
    config: LauncherConfig,
    exited: bool,
    events: Seq<StartEvent>,
)
    requires
        service::start_begun(m, config, exited).1 is Some,
        m.flags.len() + 2 <= usize::MAX,
    ensures
        ({
            let (m1, s1) = service::start_begun(m, config, exited);
            let (m2, s2) = start_run(m1, s1->0, events);
            match s2.stage {
                StartStageView::Done(Err(_)) => nothing_pending(m2),
                StartStageView::Done(Ok(st)) => {
                    ||| st.phase == "external"@ && st.pid is None && nothing_pending(m2)
                    ||| st.phase == "starting"@ && st.pid == Some(s2.run.pid) && m2.owned == Some(
                        service::OwnedChild { pid: s2.run.pid, cancelled: s2.run.cancelled },
                    ) && m2.adopted is None && m2.runs(s2.run)
                },
                _ => m2.owned is None && m2.adopted is None,
            }
        }),
{
    let (m1, s1) = service::start_begun(m, config, exited);
    lemma_start_run(m1, s1->0, events);
}

proof fn lemma_start_run(m: ManagerView, s: StartView, events: Seq<StartEvent>)
    requires
        start_ok(m, s),
        known(m, s.run),
    ensures
        ({
            let (m2, s2) = start_run(m, s, events);
            start_ok(m2, s2) && known(m2, s2.run)
        }),
    decreases events.len(),
{
    if events.len() > 0 {
        lemma_start_run(m, s, events.drop_last());
    }
}

/// A start is refused exactly while the launcher has a service of its own.
pub proof fn a_second_start_is_refused(m: ManagerView, config: LauncherConfig, exited: bool)
    ensures
        service::start_begun(m, config, exited).1 is None <==> (m.adopted is Some
            || m.handoff_active || (m.owned is Some && !exited)),
        service::start_begun(m, config, exited).1 is None ==> service::start_begun(
            m,
            config,
            exited,
        ).0.status == m.status,
{
}

/// The web interface is opened once, and at this address.
pub open spec fn shows_page(effects: Seq<EffectView>, url: Seq<char>) -> bool {
    exists|i: int|
        0 <= i < effects.len() && #[trigger] effects[i] == EffectView::OpenContent(url)
            && forall|j: int|
            0 <= j < effects.len() && #[trigger] effects[j] is OpenContent ==> j == i
}

pub open spec fn shows_no_page(effects: Seq<EffectView>) -> bool {
    forall|i: int| 0 <= i < effects.len() ==> !(#[trigger] effects[i] is OpenContent)
}

/// A service that answers is opened at the address with the token that it printed, and at
/// its plain address only if the wait for that one gave out. It is shown as running, at the
/// same address, and its sessions are watched. A run that is over opens nothing.
pub proof fn the_page_is_opened_with_the_token(m: ManagerView, run: RunView, expired: bool)
    ensures
        ({
            let (m2, step, effects) = monitor::token_polled(m, run, expired);
            let current = m.generation == run.generation && run.cancelled < m.flags.len()
                && !m.flags[run.cancelled as int];
            let url = match m.authenticated_url {
                Some(url) => url,
                None => run.url,
            };
            &&& !current ==> shows_no_page(effects) && m2 == m
            &&& current && m.authenticated_url is None && !expired ==> shows_no_page(effects) && m2
                == m && step is AwaitToken
            &&& current && (m.authenticated_url is Some || expired) ==> {
                &&& shows_page(effects, url)
                &&& step is Watch
                &&& m2.status.phase == "running"@
                &&& m2.status.pid == Some(run.pid)
                &&& m2.status.url == Some(url)
                &&& effects.contains(EffectView::Status(m2.status))
                &&& effects.contains(EffectView::WatchSessions(run.session_cancel))
            }
        }),
{
    let (m2, step, effects) = monitor::token_polled(m, run, expired);
    let n = effects.len() as int;
    if m.runs(run) && (m.authenticated_url is Some || expired) {
        let url = match m.authenticated_url {
            Some(url) => url,
            None => run.url,
        };
        assert(effects[n - 1] == EffectView::OpenContent(url));
        assert(effects[n - 2] == EffectView::WatchSessions(run.session_cancel));
        assert(effects[n - 4] == EffectView::Status(m2.status));
    }
}

// ---------------------------------------------------------------------------
// Stops
// ---------------------------------------------------------------------------

/// Where a stop is after a sequence of events.
pub open spec fn stop_run(m: ManagerView, s: StopView, events: Seq<StopEvent>) -> (
    ManagerView,
    StopView,
)
    decreases events.len(),
{
    if events.len() == 0 {
        (m, s)
    } else {
        let (m1, s1) = stop_run(m, s, events.drop_last());
        service::stop_advanced(m1, s1, events.last())
    }
}

spec fn stop_ok(m: ManagerView, s: StopView) -> bool {
    &&& m.owned is None && m.adopted is None && !m.handoff_active && m.active_cancel is None
    &&& m.session_cancel is None && m.session_credentials is None
    &&& s.stage matches StopStageView::Done(Ok(st)) ==> st == service::stopped_status() && m.status
        == service::stopped_status()
}

/// Whatever happens while the service is stopped, the launcher owns nothing from then on;
/// and a stop that succeeds shows the service as stopped.
pub proof fn a_stop_leaves_nothing_owned(
    m: ManagerView,
    with_app: bool,
    exited: bool,
    events: Seq<StopEvent>,
)
    ensures
        ({
            let (m1, s1, _) = service::stop_begun(m, with_app, exited);
            let (m2, s2) = stop_run(m1, s1, events);
            &&& m2.owned is None && m2.adopted is None && !m2.handoff_active
            &&& m2.active_cancel is None && m2.session_cancel is None
            &&& m2.session_credentials is None
            &&& s2.stage matches StopStageView::Done(Ok(st)) ==> st == service::stopped_status()
                && m2.status == service::stopped_status()
        }),
{
    let (m1, s1, _) = service::stop_begun(m, with_app, exited);
    lemma_stop_run(m1, s1, events);
}

proof fn lemma_stop_run(m: ManagerView, s: StopView, events: Seq<StopEvent>)
    requires
        stop_ok(m, s),
    ensures
        ({
            let (m2, s2) = stop_run(m, s, events);
            stop_ok(m2, s2)
        }),
    decreases events.len(),
{
    if events.len() > 0 {
        lemma_stop_run(m, s, events.drop_last());
    }
}

/// After a stop the service can be started again.
pub proof fn a_stopped_service_can_be_started(
    m: ManagerView,
    with_app: bool,
    exited: bool,
    events: Seq<StopEvent>,
    config: LauncherConfig,
)
    ensures
        ({
            let (m1, s1, _) = service::stop_begun(m, with_app, exited);
            let (m2, s2) = stop_run(m1, s1, events);
            service::start_begun(m2, config, false).1 is Some
        }),
{
    a_stop_leaves_nothing_owned(m, with_app, exited, events);
}

// ---------------------------------------------------------------------------
// Successors
// ---------------------------------------------------------------------------

/// One watcher at a time waits for a successor.
pub proof fn one_handoff_at_a_time(m: ManagerView, run: RunView, old_pid: u32)
    ensures
        m.handoff_active ==> monitor::handoff_begun(m, run, old_pid).0 == m
            && !monitor::handoff_begun(m, run, old_pid).1,
        monitor::handoff_begun(m, run, old_pid).1 ==> monitor::handoff_begun(
            m,
            run,
            old_pid,
        ).0.handoff_active,
{
}

/// Only a process other than the old one that listens on the port, runs this configuration
/// of DSH, answers, and was all that twice, is adopted; and only for the current run.
pub proof fn only_a_confirmed_successor_is_adopted(
    m: ManagerView,
    run: RunView,
    old_pid: u32,
    expired: bool,
    seen: Sighting,
)
    ensures
        monitor::handoff_polled(m, run, old_pid, expired, seen).1 matches HandoffView::Adopted(w)
            ==> {
            &&& m.runs(run)
            &&& w.pid != old_pid
            &&& process::still_matches(seen.second, w.pid, w.command_line)
            &&& process::is_dsh_line(w.command_line)
            &&& process::runs_config(w.command_line, run.config)
            &&& seen.ready && seen.still_ready
        },
{
}

/// An adopted process that is seen is kept, however often it was missed before; one that
/// is alive is given up only after four looks in a row that missed it.
pub proof fn a_living_process_is_missed_four_times(
    m: ManagerView,
    run: RunView,
    w: WatchView,
    seen: Listener,
    alive: bool,
)
    requires
        m.runs(run),
    ensures
        process::still_matches(seen, w.pid, w.command_line) ==> monitor::adopted_polled(
            m,
            run,
            w,
            seen,
            alive,
        ).0 == m,
        alive && w.misses < 3 ==> monitor::adopted_polled(m, run, w, seen, alive).0 == m,
{
}

/// A late successor is ended only while the stop that is guarded is the last thing that
/// happened, and only if it was identified twice.
pub proof fn a_late_successor_is_identified_before_it_is_ended(
    m: ManagerView,
    q: Quarantine,
    expired: bool,
    first: Listener,
    second: Listener,
)
    ensures
        monitor::quarantine_polled(m, q, expired, first, second).1 matches QuarantineView::End {
            pid,
            command_line,
        } ==> {
            &&& m.active(q.generation, q.cancelled)
            &&& process::still_matches(second, pid, command_line)
            &&& process::is_dsh_line(command_line)
            &&& process::runs_config(command_line, q.config)
        },
{
}

/// A new start gives up the search for late successors.
pub proof fn a_start_ends_the_quarantine(
    m: ManagerView,
    q: Quarantine,
    config: LauncherConfig,
    exited: bool,
)
    requires
        m.wf(),
        m.quarantine_cancel == Some(q.cancelled),
    ensures
        !service::start_begun(m, config, exited).0.active(q.generation, q.cancelled),
{
}

// ---------------------------------------------------------------------------
// Services of others
// ---------------------------------------------------------------------------

/// No address with a token is known of a service that the launcher did not start.
pub open spec fn external_without_token(m: ManagerView) -> bool {
    m.status.phase == "external"@ ==> m.authenticated_url is None
}

/// While the service at hand is one that the launcher did not start, no address with a token
/// is kept for it: starting, stopping, a forced end and the lines of an earlier process leave
/// it so.
pub proof fn an_external_service_has_no_token(
    m: ManagerView,
    config: LauncherConfig,
    exited: bool,
    with_app: bool,
    start: StartView,
    started: StartEvent,
    stop: StopView,
    stopped: StopEvent,
    force: ForceView,
    forced: ForceEvent,
    line: Seq<char>,
)
    requires
        external_without_token(m),
    ensures
        external_without_token(service::start_begun(m, config, exited).0),
        external_without_token(service::start_advanced(m, start, started).0),
        external_without_token(service::stop_begun(m, with_app, exited).0),
        external_without_token(service::stop_advanced(m, stop, stopped).0),
        external_without_token(service::force_advanced(m, force, forced).0),
        external_without_token(service::line_captured(m, line, config.host@, config.port)),
{
    lemma_phases();
}

/// Whatever the watchers of a run see, no address with a token is kept for a service that
/// the launcher did not start.
pub proof fn watching_an_external_service_finds_no_token(
    m: ManagerView,
    run: RunView,
    w: WatchView,
    old_pid: u32,
    expired: bool,
    flag: bool,
    exit: Option<Seq<char>>,
    seen: Sighting,
    q: Quarantine,
)
    requires
        external_without_token(m),
    ensures
        external_without_token(monitor::startup_polled(m, run, expired, exit, flag).0),
        external_without_token(monitor::token_polled(m, run, expired).0),
        external_without_token(monitor::handoff_polled(m, run, old_pid, expired, seen).0),
        external_without_token(monitor::adopted_polled(m, run, w, seen.first, flag).0),
        external_without_token(
            monitor::quarantine_polled(m, q, expired, seen.first, seen.second).0,
        ),
        exit matches Some(exit) ==> external_without_token(
            monitor::child_exited_to(m, run, flag, exit).0,
        ),
{
    lemma_phases();
}

/// A start forgets the address of the run before.
pub proof fn a_start_forgets_the_token(m: ManagerView, config: LauncherConfig, exited: bool)
    ensures
        ({
            let (m2, s) = service::start_begun(m, config, exited);
            s is Some ==> m2.authenticated_url is None
        }),
{
}

pub proof fn lemma_phases()
    ensures
        "external"@ != "starting"@,
        "external"@ != "stopped"@,
        "external"@ != "stopping"@,
        "external"@ != "failed"@,
        "external"@ != "running"@,
        "external"@ != "restarting"@,
{
    reveal_strlit("external");
    reveal_strlit("starting");
    reveal_strlit("stopped");
    reveal_strlit("stopping");
    reveal_strlit("failed");
    reveal_strlit("running");
    reveal_strlit("restarting");
    assert("external"@[0] == 'e');
    assert("starting"@[0] == 's');
    assert("stopped"@[0] == 's');
    assert("stopping"@[0] == 's');
    assert("failed"@[0] == 'f');
    assert("running"@[0] == 'r');
    assert("restarting"@[0] == 'r');
}

/// The forced end of an external service touches nothing but the status, and shows the
/// service as stopped only once nothing listens any more.
pub proof fn a_forced_end_changes_the_status_only(m: ManagerView, f: ForceView, event: ForceEvent)
    ensures
        ({
            let m2 = service::force_advanced(m, f, event).0;
            &&& m2 == m.showing(m2.status)
            &&& m2.status != m.status ==> (event matches ForceEvent::Port { open, expired } && !open
                && !expired && m2.status == service::stopped_status())
        }),
{
}

} // verus!
