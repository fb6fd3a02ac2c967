use dsh_desktop::config::{LauncherConfig, PlatformTarget};
use dsh_desktop::monitor::{
    AdoptedStep, HandoffStep, QuarantineStep, Sighting, StartupStep, ADOPTED_MISS_LIMIT,
};
use dsh_desktop::process::{
    command_query, external_listener_pid, external_process_command, health_request,
    is_http_response, listener_query, CommandOutcome, Listener, SignalFailure, Termination,
    TerminationAction, TerminationEvent, TerminationStage,
};
use dsh_desktop::service::{
    Effect, ForceEvent, ForceStage, Run, ServiceManager, Start, StartEvent, StartStage, Stop,
    StopEvent, StopStage,
};
use dsh_desktop::session_monitor::{
    exchange_cookie, poll_running, ExchangeOutcome, MonitorAction, MonitorEffect, PollFailure,
    PollOutcome, RunningSnapshot, SessionCredentials, SessionMonitor,
};

fn config() -> LauncherConfig {
    LauncherConfig { dsh_path: "/usr/bin/dsh".into(), ..Default::default() }
}

fn line(config: &LauncherConfig) -> String {
    format!(
        "node /usr/bin/dsh --profile {} --host {} --port {} {}",
        config.profile, config.host, config.port, config.custom_args
    )
}

fn seen(pid: u32, command: &str) -> Listener {
    Listener { pid: Ok(pid), command: Ok(command.to_string()) }
}

fn unseen() -> Listener {
    Listener { pid: Err("none".into()), command: Err("none".into()) }
}

fn status_phases(effects: &[Effect]) -> Vec<String> {
    effects
        .iter()
        .filter_map(|effect| match effect {
            Effect::Status(status) => Some(status.phase.clone()),
            _ => None,
        })
        .collect()
}

/// Starts a service up to its process.
fn started(manager: &mut ServiceManager) -> Start {
    let mut start = manager.start(config(), false).unwrap();
    for event in [
        StartEvent::Resolved(Some("/usr/bin/dsh".into())),
        StartEvent::Addressed(true),
        StartEvent::Connected(false),
        StartEvent::Spawned(Ok(41)),
    ] {
        manager.start_next(&mut start, event);
    }
    start
}

/// Starts a service until it answers with its token.
fn running(manager: &mut ServiceManager) -> Run {
    let start = started(manager);
    let run = start.run;
    let (step, _) = manager.poll_startup(&run, false, None, true);
    assert!(matches!(step, StartupStep::AwaitToken));
    manager.capture_line("dsh web: http://127.0.0.1:3080/?token=tk", "127.0.0.1", 3080);
    let (step, effects) = manager.poll_token(&run, false);
    assert!(matches!(step, StartupStep::Watch));
    assert_eq!(status_phases(&effects), vec!["running"]);
    run
}

#[test]
fn a_start_goes_through_its_stages() {
    let mut manager = ServiceManager::new();
    let mut start = manager.start(config(), false).unwrap();
    assert!(matches!(start.stage, StartStage::Resolve));
    manager.start_next(&mut start, StartEvent::Resolved(Some("/usr/bin/dsh".into())));
    assert!(matches!(start.stage, StartStage::Address));
    manager.start_next(&mut start, StartEvent::Addressed(true));
    assert!(matches!(start.stage, StartStage::Probe));
    manager.start_next(&mut start, StartEvent::Connected(false));
    assert!(matches!(start.stage, StartStage::Spawn));
    assert_eq!(
        start.args,
        vec!["--profile", "web", "--host", "127.0.0.1", "--port", "3080", "--no-open"]
    );
    manager.start_next(&mut start, StartEvent::Spawned(Ok(41)));
    match &start.stage {
        StartStage::Done(Ok(status)) => {
            assert_eq!(status.phase, "starting");
            assert_eq!(status.pid, Some(41));
            assert_eq!(status.url.as_deref(), Some("http://127.0.0.1:3080"));
        }
        other => panic!("{other:?}"),
    }
    assert_eq!(manager.owned.map(|child| child.pid), Some(41));
    assert!(manager.start(config(), false).is_err());
}

#[test]
fn a_start_that_fails_owns_nothing() {
    for (events, expected) in [
        (vec![StartEvent::Resolved(None)], "dsh"),
        (
            vec![StartEvent::Resolved(Some("/usr/bin/dsh".into())), StartEvent::Addressed(false)],
            "主机或端口格式无效",
        ),
        (
            vec![
                StartEvent::Resolved(Some("/usr/bin/dsh".into())),
                StartEvent::Addressed(true),
                StartEvent::Connected(false),
                StartEvent::Spawned(Err("denied".into())),
            ],
            "denied",
        ),
    ] {
        let mut manager = ServiceManager::new();
        let mut start = manager.start(config(), false).unwrap();
        for event in events {
            manager.start_next(&mut start, event);
        }
        match &start.stage {
            StartStage::Done(Err(error)) => assert!(error.contains(expected), "{error}"),
            other => panic!("{other:?}"),
        }
        assert!(manager.owned.is_none());
        assert!(manager.start(config(), false).is_ok());
    }
}

#[test]
fn a_service_that_is_there_already_is_external() {
    let mut manager = ServiceManager::new();
    let mut start = manager.start(config(), false).unwrap();
    for event in [
        StartEvent::Resolved(Some("/usr/bin/dsh".into())),
        StartEvent::Addressed(true),
        StartEvent::Connected(true),
        StartEvent::Ready(true),
    ] {
        manager.start_next(&mut start, event);
    }
    match &start.stage {
        StartStage::Done(Ok(status)) => assert_eq!(status.phase, "external"),
        other => panic!("{other:?}"),
    }
    assert!(manager.owned.is_none());
}

#[test]
fn an_external_service_is_opened_without_a_token() {
    let mut manager = ServiceManager::new();
    running(&mut manager);
    assert!(manager.authenticated_url().is_some());
    let (mut stop, _) = manager.stop(true, false);
    manager.stop_next(&mut stop, StopEvent::Signalled);
    manager.stop_next(&mut stop, StopEvent::Child { exited: Ok(true), expired: false });
    let mut start = manager.start(config(), false).unwrap();
    for event in [
        StartEvent::Resolved(Some("/usr/bin/dsh".into())),
        StartEvent::Addressed(true),
        StartEvent::Connected(true),
        StartEvent::Ready(true),
    ] {
        manager.start_next(&mut start, event);
    }
    assert!(manager.authenticated_url().is_none());
    manager.capture_line("dsh web: http://127.0.0.1:3080/?token=old", "127.0.0.1", 3080);
    assert!(manager.authenticated_url().is_none());
    assert_eq!(manager.open_service_url().unwrap(), "http://127.0.0.1:3080");
}

#[test]
fn a_start_names_the_command_in_the_log() {
    for (dsh, told) in [
        (b"/usr/bin/dsh".to_vec(), "Starting /usr/bin/dsh"),
        (b"/t\xff/dsh".to_vec(), "Starting /t\u{fffd}/dsh"),
    ] {
        let mut manager = ServiceManager::new();
        let mut start = manager.start(config(), false).unwrap();
        let mut logs = Vec::new();
        for event in [
            StartEvent::Resolved(Some(dsh.clone())),
            StartEvent::Addressed(true),
            StartEvent::Connected(false),
            StartEvent::Spawned(Ok(41)),
        ] {
            for effect in manager.start_next(&mut start, event) {
                if let Effect::Log { message, .. } = effect {
                    logs.push(message);
                }
            }
        }
        assert!(logs.iter().any(|log| log == told), "{logs:?}");
        assert_eq!(start.dsh, dsh);
    }
}

#[test]
fn a_stop_that_nobody_sees_is_not_logged() {
    let late = line(&config());
    for with_app in [true, false] {
        let mut manager = ServiceManager::new();
        running(&mut manager);
        let (mut stop, _) = manager.stop(with_app, false);
        manager.stop_next(&mut stop, StopEvent::Signalled);
        manager.stop_next(&mut stop, StopEvent::Child { exited: Ok(true), expired: false });
        let quarantine = stop.quarantine.take().unwrap();
        let (step, effects) =
            manager.poll_quarantine(&quarantine, false, &seen(77, &late), &seen(77, &late));
        assert!(matches!(step, QuarantineStep::End { pid: 77, .. }));
        assert_eq!(effects.is_empty(), !with_app);
    }
}

#[test]
fn a_stop_ends_the_child_and_watches_for_successors() {
    let mut manager = ServiceManager::new();
    let run = running(&mut manager);
    let (mut stop, effects) = manager.stop(true, false);
    assert!(matches!(effects[0], Effect::CloseContent));
    assert!(matches!(stop.stage, StopStage::SignalChild));
    manager.stop_next(&mut stop, StopEvent::Signalled);
    manager.stop_next(&mut stop, StopEvent::Child { exited: Ok(false), expired: false });
    assert!(matches!(stop.stage, StopStage::WaitChild));
    manager.stop_next(&mut stop, StopEvent::Child { exited: Ok(true), expired: false });
    match &stop.stage {
        StopStage::Done(Ok(status)) => assert_eq!(status.phase, "stopped"),
        other => panic!("{other:?}"),
    }
    assert!(manager.owned.is_none());
    assert!(!manager.lifecycle_active(run.cancelled, run.generation));

    let quarantine = stop.quarantine.take().unwrap();
    let late = line(&config());
    let (step, _) =
        manager.poll_quarantine(&quarantine, false, &seen(77, &late), &seen(77, &late));
    match step {
        QuarantineStep::End { pid, command_line } => {
            assert_eq!(pid, 77);
            assert_eq!(command_line, late);
        }
        other => panic!("{other:?}"),
    }
    let (step, _) = manager.poll_quarantine(&quarantine, false, &unseen(), &unseen());
    assert!(matches!(step, QuarantineStep::Again));
    assert!(manager.start(config(), false).is_ok());
    let (step, _) =
        manager.poll_quarantine(&quarantine, false, &seen(77, &late), &seen(77, &late));
    assert!(matches!(step, QuarantineStep::Over));
}

#[test]
fn a_child_that_does_not_end_is_killed() {
    let mut manager = ServiceManager::new();
    running(&mut manager);
    let (mut stop, _): (Stop, _) = manager.stop(false, false);
    manager.stop_next(&mut stop, StopEvent::Signalled);
    manager.stop_next(&mut stop, StopEvent::Child { exited: Ok(false), expired: true });
    assert!(matches!(stop.stage, StopStage::KillChild));
    manager.stop_next(&mut stop, StopEvent::Killed);
    assert!(matches!(stop.stage, StopStage::Done(Ok(_))));
}

#[test]
fn a_restarted_service_is_adopted_and_lost_after_misses() {
    let mut manager = ServiceManager::new();
    let run = running(&mut manager);
    let (handoff, effects) = manager.child_exited(&run, true, "exit status: 0");
    assert!(handoff);
    assert_eq!(status_phases(&effects), vec!["restarting"]);
    let stranger = Sighting {
        first: seen(99, "python -m http.server 3080"),
        ready: true,
        second: seen(99, "python -m http.server 3080"),
        still_ready: true,
    };
    let (step, _) = manager.poll_handoff(&run, 41, false, &stranger);
    assert!(matches!(step, HandoffStep::Again));
    let command = line(&config());
    let successor = Sighting {
        first: seen(99, &command),
        ready: true,
        second: seen(99, &command),
        still_ready: true,
    };
    let (step, effects) = manager.poll_handoff(&run, 41, false, &successor);
    let mut watch = match step {
        HandoffStep::Adopted(watch) => watch,
        other => panic!("{other:?}"),
    };
    assert_eq!(watch.pid, 99);
    assert_eq!(status_phases(&effects), vec!["running"]);
    let (step, _) = manager.poll_adopted(&run, &mut watch, &seen(99, &command), true);
    assert!(matches!(step, AdoptedStep::Again));
    for _ in 1..ADOPTED_MISS_LIMIT {
        let (step, _) = manager.poll_adopted(&run, &mut watch, &unseen(), true);
        assert!(matches!(step, AdoptedStep::Again));
    }
    let (step, _) = manager.poll_adopted(&run, &mut watch, &unseen(), true);
    assert!(matches!(step, AdoptedStep::Handoff));
}

#[test]
fn a_captured_address_must_be_of_the_service() {
    let mut manager = ServiceManager::new();
    manager.capture_line("see http://evil.example:3080/?token=tk", "127.0.0.1", 3080);
    assert!(manager.authenticated_url().is_none());
    manager.capture_line("dsh web: http://127.0.0.1:3080/?token=tk", "127.0.0.1", 3080);
    assert_eq!(
        manager.authenticated_url().as_deref(),
        Some("http://127.0.0.1:3080/?token=tk")
    );
}

#[test]
fn an_external_service_is_ended_only_when_identified() {
    let mut manager = ServiceManager::new();
    assert!(manager.force_stop_external(&config(), false).is_err());
    manager.status.phase = "external".into();
    let mut force = manager.force_stop_external(&config(), false).unwrap();
    assert!(matches!(force.stage, ForceStage::Identify));
    let command = line(&config());
    manager.force_next(&mut force, ForceEvent::Seen(seen(55, &command)));
    manager.force_next(&mut force, ForceEvent::Seen(seen(55, &command)));
    assert!(matches!(force.stage, ForceStage::Terminate));
    assert_eq!(force.pid, 55);
    manager.force_next(&mut force, ForceEvent::Ended(Ok(())));
    manager.force_next(&mut force, ForceEvent::Addressed(true));
    manager.force_next(&mut force, ForceEvent::Port { open: false, expired: false });
    match &force.stage {
        ForceStage::Done(Ok(status)) => assert_eq!(status.phase, "stopped"),
        other => panic!("{other:?}"),
    }

    manager.status.phase = "external".into();
    let mut force = manager.force_stop_external(&config(), false).unwrap();
    manager.force_next(&mut force, ForceEvent::Seen(seen(56, "nginx: master process")));
    assert!(matches!(force.stage, ForceStage::Done(Err(_))));
}

#[test]
fn a_process_that_changed_is_not_ended() {
    let command = line(&config());
    let mut termination = Termination::new(PlatformTarget::Unix, 55, 3080, command.clone());
    assert!(matches!(termination.action(), TerminationAction::Look));
    termination.terminate_external_process(TerminationEvent::Seen(seen(55, "other")));
    match &termination.stage {
        TerminationStage::Ended(Err(error)) => {
            assert_eq!(error, "监听进程在终止前发生变化，已拒绝操作");
        }
        other => panic!("{other:?}"),
    }
    let mut termination = Termination::new(PlatformTarget::Unix, 55, 3080, command.clone());
    termination.terminate_external_process(TerminationEvent::Seen(seen(55, &command)));
    assert!(matches!(termination.action(), TerminationAction::Terminate));
    termination.terminate_external_process(TerminationEvent::Signalled(Ok(())));
    termination.terminate_external_process(TerminationEvent::Polled { gone: false, expired: true });
    termination.terminate_external_process(TerminationEvent::Seen(seen(55, &command)));
    assert!(matches!(termination.action(), TerminationAction::Kill));
    termination.terminate_external_process(TerminationEvent::Signalled(Err(
        SignalFailure::System("EPERM".into()),
    )));
    match &termination.stage {
        TerminationStage::Ended(Err(error)) => assert_eq!(error, "强制终止外部 DSH 失败：EPERM"),
        other => panic!("{other:?}"),
    }
}

#[test]
fn the_listener_is_read_from_the_system_tools() {
    let query = listener_query(PlatformTarget::Unix, 3080);
    assert_eq!(query.program, "lsof");
    assert!(query.args.iter().any(|arg| arg.contains("3080")));
    assert!(!command_query(PlatformTarget::Unix, 7).args.is_empty());
    let one = CommandOutcome::Finished { success: true, stdout: b"4321\n".to_vec() };
    assert_eq!(external_listener_pid(PlatformTarget::Unix, 3080, &one).unwrap(), 4321);
    let two = CommandOutcome::Finished { success: true, stdout: b"1\n2\n".to_vec() };
    assert!(external_listener_pid(PlatformTarget::Unix, 3080, &two).is_err());
    let shown = CommandOutcome::Finished { success: true, stdout: b" node dsh \n".to_vec() };
    assert_eq!(external_process_command(&shown).unwrap(), "node dsh");
    let nothing = CommandOutcome::Finished { success: true, stdout: b" \n".to_vec() };
    assert_eq!(
        external_process_command(&nothing).unwrap_err(),
        "监听进程命令行为空，已拒绝终止"
    );
}

#[test]
fn health_is_asked_for_in_plain_http() {
    assert_eq!(
        health_request("::1", 3080),
        "GET / HTTP/1.0\r\nHost: [::1]:3080\r\n\r\n"
    );
    assert!(is_http_response(b"HTTP/1.1 200"));
    assert!(!is_http_response(b"SSH-2.0-Open"));
}

fn credentials() -> SessionCredentials {
    SessionCredentials {
        origin: "http://127.0.0.1:3080".into(),
        token: Some("tk".into()),
        cookie: None,
    }
}

#[test]
fn sessions_are_polled_with_a_cookie_until_three_failures() {
    let (monitor, _) = SessionMonitor::start(Some(credentials()));
    let mut monitor = monitor.unwrap();
    let (action, _) = monitor.next(false);
    assert!(matches!(action, MonitorAction::Exchange { .. }));
    monitor.exchanged(Ok("dsh-auth=1".into()));
    let (action, _) = monitor.next(false);
    match action {
        MonitorAction::Poll { cookie, rpc_id, .. } => {
            assert_eq!(cookie, "dsh-auth=1");
            let _ = rpc_id;
        }
        other => panic!("{other:?}"),
    }
    let effects = monitor.polled(Ok(RunningSnapshot { main: 1, subagents: 0 }));
    assert!(!effects.is_empty());
    let mut finished = false;
    for _ in 0..3 {
        monitor.polled(Err(PollFailure::Transport("refused".into())));
        let (action, _): (MonitorAction, Vec<MonitorEffect>) = monitor.next(false);
        finished = matches!(action, MonitorAction::Finished);
    }
    assert!(finished);
}

#[test]
fn a_watch_without_credentials_does_not_begin() {
    let (monitor, effects) = SessionMonitor::start(None);
    assert!(monitor.is_none());
    assert!(!effects.is_empty());
}

#[test]
fn answers_of_the_service_are_sorted_out() {
    assert_eq!(
        exchange_cookie(&ExchangeOutcome::Response {
            status: 302,
            set_cookie: Some("a=b; Path=/".into()),
        })
        .unwrap(),
        "a=b"
    );
    assert!(exchange_cookie(&ExchangeOutcome::Response { status: 200, set_cookie: None }).is_err());
    assert_eq!(
        exchange_cookie(&ExchangeOutcome::Failed("refused".into())).unwrap_err(),
        "请求失败：refused"
    );
    let body = r#"{"result":{"ok":true,"value":{"items":[{"running":true}]}}}"#;
    let snapshot = poll_running(&PollOutcome::Body(Ok(body.into())));
    assert!(matches!(snapshot, Ok(RunningSnapshot { main: 1, subagents: 0 })));
    assert!(matches!(
        poll_running(&PollOutcome::Body(Ok("no json".into()))),
        Err(PollFailure::Server(_))
    ));
    assert!(matches!(
        poll_running(&PollOutcome::Body(Ok("{}".into()))),
        Err(PollFailure::Server(_))
    ));
    assert!(matches!(
        poll_running(&PollOutcome::Transport("refused".into())),
        Err(PollFailure::Transport(_))
    ));
}
