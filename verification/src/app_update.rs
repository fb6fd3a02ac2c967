//! The update of the launcher itself, and what keeps it, an upgrade of DSH and the service
//! out of each other's way.

use vstd::prelude::*;

use crate::config;
use crate::config::LauncherConfig;
use crate::text;
use crate::text::equal;

verus! {

#[derive(Debug)]
pub struct AppUpdateProgress {
    /// `progress` or `finished`.
    pub phase: &'static str,
    pub received: u64,
    pub total: Option<u64>,
}

#[derive(Debug)]
pub struct AppUpdateInfo {
    pub version: String,
    pub notes: Option<String>,
}

/// How much of the download has arrived.
#[derive(Debug, Clone, Copy, PartialEq, Eq, Structural)]
pub struct DownloadMeter {
    pub received: u64,
}

impl DownloadMeter {
    /// Before anything has arrived.
    pub fn begin() -> (r: (DownloadMeter, AppUpdateProgress))
        ensures
            r.0.received == 0,
            r.1.phase@ == "progress"@,
            r.1.received == 0,
            r.1.total is None,
    {
        (
            DownloadMeter { received: 0 },
            AppUpdateProgress { phase: "progress", received: 0, total: None },
        )
    }

    /// Another piece has arrived.
    pub fn add_chunk(&mut self, chunk: u64, total: Option<u64>) -> (r: AppUpdateProgress)
        ensures
            final(self).received == (old(self).received + chunk) % 0x1_0000_0000_0000_0000,
            r.phase@ == "progress"@,
            r.received == if old(self).received + chunk > u64::MAX {
                u64::MAX as int
            } else {
                old(self).received + chunk
            },
            r.total == total,
    {
        let received: u64 = self.received.saturating_add(chunk);
        self.received = self.received.wrapping_add(chunk);
        AppUpdateProgress { phase: "progress", received, total }
    }

    /// All of it has arrived.
    pub fn finished() -> (r: AppUpdateProgress)
        ensures
            r.phase@ == "finished"@,
            r.received == 0,
            r.total is None,
    {
        AppUpdateProgress { phase: "finished", received: 0, total: None }
    }
}

// ---------------------------------------------------------------------------
// One thing at a time
// ---------------------------------------------------------------------------

/// What is going on that others must keep out of.
#[derive(Debug, Clone, Copy, PartialEq, Eq, Structural)]
pub struct Interlock {
    /// The launcher is being updated.
    pub app_update: bool,
    /// The service may not be started.
    pub maintenance: bool,
}

impl Interlock {
    pub fn new() -> (r: Interlock)
        ensures
            !r.app_update,
            !r.maintenance,
    {
        Interlock { app_update: false, maintenance: false }
    }

    /// Whether the service may be started, or restarted, with this configuration.
    pub fn check_start(&self, restart: bool, config: &LauncherConfig) -> (r: Result<(), String>)
        ensures
            match r {
                Ok(_) => !self.maintenance && config::config_complaint(*config) is None,
                Err(e) => if self.maintenance {
                    e@ == if restart {
                        "DSH 正在维护升级，暂时不能重启"@
                    } else {
                        "DSH 正在维护升级，暂时不能启动"@
                    }
                } else {
                    config::config_complaint(*config) == Some(e@)
                },
            },
    {
        if self.maintenance {
            return Err(
                if restart {
                    "DSH 正在维护升级，暂时不能重启".to_string()
                } else {
                    "DSH 正在维护升级，暂时不能启动".to_string()
                },
            );
        }
        config.validate()
    }
}

/// A service that the launcher did not start cannot be stopped by it.
pub open spec fn is_external(phase: Seq<char>) -> bool {
    phase == "external"@
}

// ---------------------------------------------------------------------------
// The update of the launcher
// ---------------------------------------------------------------------------

#[derive(Debug, Clone, Copy, PartialEq, Eq, Structural)]
pub enum UpdateStage {
    /// The state of the service must be found out.
    Look,
    /// The service must be stopped.
    Stop,
    /// The update must be looked for.
    Check,
    /// It must be downloaded and installed.
    Install,
    /// It failed: the service must be started again, if it is stopped.
    Recover,
    Done,
}

#[derive(Debug)]
pub struct AppUpdate {
    pub stage: UpdateStage,
    pub error: Option<String>,
}

#[verifier::ext_equal]
pub struct AppUpdateView {
    pub stage: UpdateStage,
    pub error: Option<Seq<char>>,
}

impl View for AppUpdate {
    type V = AppUpdateView;

    open spec fn view(&self) -> AppUpdateView {
        AppUpdateView { stage: self.stage, error: text::opt_text(self.error) }
    }
}

/// What became of the last action.
#[derive(Debug)]
pub enum UpdateEvent {
    /// The service's phase, or why it could not be found out.
    Phase(Result<String, String>),
    Stopped(Result<(), String>),
    /// The updater could not be set up.
    NoUpdater(String),
    /// Whether there is an update, or why that could not be found out.
    Checked(Result<bool, String>),
    Installed(Result<(), String>),
    Recovered,
}

impl AppUpdateView {
    pub open spec fn at(self, stage: UpdateStage) -> AppUpdateView {
        AppUpdateView { stage, ..self }
    }

    pub open spec fn failed(self, message: Seq<char>) -> AppUpdateView {
        AppUpdateView { stage: UpdateStage::Recover, error: Some(message) }
    }
}

/// The update after an event. What answers another question changes nothing.
pub open spec fn update_advanced(v: AppUpdateView, event: UpdateEvent) -> AppUpdateView {
    match (v.stage, event) {
        (UpdateStage::Look, UpdateEvent::Phase(r)) => match r {
            Err(e) => v.failed(e@),
            Ok(phase) => if is_external(phase@) {
                v.failed("检测到 Launcher 无法停止的外部 DSH 服务，请在更新前手动停止"@)
            } else {
                v.at(UpdateStage::Stop)
            },
        },
        (UpdateStage::Stop, UpdateEvent::Stopped(r)) => match r {
            Err(e) => v.failed(e@),
            Ok(_) => v.at(UpdateStage::Check),
        },
        (UpdateStage::Check, UpdateEvent::NoUpdater(e)) => v.failed(
            "初始化应用更新失败："@ + e@,
        ),
        (UpdateStage::Check, UpdateEvent::Checked(r)) => match r {
            Err(e) => v.failed("检查应用更新失败："@ + e@),
            Ok(found) => if found {
                v.at(UpdateStage::Install)
            } else {
                v.failed("当前已是最新版本，无需应用内更新"@)
            },
        },
        (UpdateStage::Install, UpdateEvent::Installed(r)) => match r {
            Err(e) => v.failed("下载或安装应用更新失败："@ + e@),
            Ok(_) => v.at(UpdateStage::Done),
        },
        (UpdateStage::Recover, UpdateEvent::Recovered) => v.at(UpdateStage::Done),
        _ => v,
    }
}

/// What keeps others out, after a step of the update from one stage to another: the step with
/// which the update is done lets them in.
pub open spec fn interlock_after(
    interlock: Interlock,
    before: UpdateStage,
    stage: UpdateStage,
) -> Interlock {
    if before != UpdateStage::Done && stage == UpdateStage::Done {
        Interlock { app_update: false, maintenance: false }
    } else {
        interlock
    }
}

impl AppUpdate {
    fn fail(&mut self, message: String)
        ensures
            final(self)@ == old(self)@.failed(message@),
    {
        self.error = Some(message);
        self.stage = UpdateStage::Recover;
    }

    fn advance(&mut self, event: UpdateEvent)
        ensures
            final(self)@ == update_advanced(old(self)@, event),
    {
        match (self.stage, event) {
            (UpdateStage::Look, UpdateEvent::Phase(r)) => match r {
                Err(e) => self.fail(e),
                Ok(phase) => {
                    if equal(phase.as_str(), "external") {
                        self.fail(
                            "检测到 Launcher 无法停止的外部 DSH 服务，请在更新前手动停止".to_string(),
                        );
                    } else {
                        self.stage = UpdateStage::Stop;
                    }
                },
            },
            (UpdateStage::Stop, UpdateEvent::Stopped(r)) => match r {
                Err(e) => self.fail(e),
                Ok(_) => {
                    self.stage = UpdateStage::Check;
                },
            },
            (UpdateStage::Check, UpdateEvent::NoUpdater(e)) => {
                self.fail("初始化应用更新失败：".to_string().concat(e.as_str()));
            },
            (UpdateStage::Check, UpdateEvent::Checked(r)) => match r {
                Err(e) => self.fail(
                    "检查应用更新失败：".to_string().concat(e.as_str()),
                ),
                Ok(found) => {
                    if found {
                        self.stage = UpdateStage::Install;
                    } else {
                        self.fail("当前已是最新版本，无需应用内更新".to_string());
                    }
                },
            },
            (UpdateStage::Install, UpdateEvent::Installed(r)) => match r {
                Err(e) => self.fail(
                    "下载或安装应用更新失败：".to_string().concat(e.as_str()),
                ),
                Ok(_) => {
                    self.stage = UpdateStage::Done;
                },
            },
            (UpdateStage::Recover, UpdateEvent::Recovered) => {
                self.stage = UpdateStage::Done;
            },
            _ => {},
        }
    }
}

impl Interlock {
    /// Begins an update of the launcher, if nothing else is going on. From now on the
    /// service may not be started.
    pub fn app_update_install(&mut self) -> (r: Result<AppUpdate, String>)
        ensures
            match r {
                Ok(u) => !old(self).app_update && !old(self).maintenance && u@ == (AppUpdateView {
                    stage: UpdateStage::Look,
                    error: None,
                }) && final(self).app_update && final(self).maintenance,
                Err(e) => *final(self) == *old(self) && if old(self).app_update {
                    e@ == "应用更新正在进行中"@
                } else {
                    old(self).maintenance && e@
                        == "DSH 正在维护升级，暂时不能更新 Launcher"@
                },
            },
    {
        if self.app_update {
            return Err("应用更新正在进行中".to_string());
        }
        if self.maintenance {
            return Err("DSH 正在维护升级，暂时不能更新 Launcher".to_string());
        }
        self.app_update = true;
        self.maintenance = true;
        Ok(AppUpdate { stage: UpdateStage::Look, error: None })
    }

    /// Takes note of what became of the last action. When the update is done, others are
    /// let in again.
    pub fn update_next(&mut self, update: &mut AppUpdate, event: UpdateEvent)
        ensures
            final(update)@ == update_advanced(old(update)@, event),
            *final(self) == interlock_after(*old(self), old(update)@.stage, final(update)@.stage),
    {
        let was_done = matches!(update.stage, UpdateStage::Done);
        update.advance(event);
        if !was_done && matches!(update.stage, UpdateStage::Done) {
            self.app_update = false;
            self.maintenance = false;
        }
    }

    /// After an update that failed, the service is started again if it is stopped.
    pub fn starts_again(phase: &str) -> (r: bool)
        ensures
            r == (phase@ == "stopped"@),
    {
        equal(phase, "stopped")
    }
}

/// Where the update and the interlock are after a sequence of events.
pub open spec fn update_run(g: Interlock, v: AppUpdateView, events: Seq<UpdateEvent>) -> (
    Interlock,
    AppUpdateView,
)
    decreases events.len(),
{
    if events.len() == 0 {
        (g, v)
    } else {
        let (g1, v1) = update_run(g, v, events.drop_last());
        let v2 = update_advanced(v1, events.last());
        (interlock_after(g1, v1.stage, v2.stage), v2)
    }
}

/// While the launcher is being updated the service cannot be started, and once the update is
/// done, whether it worked or not, it can be again.
pub proof fn the_service_is_let_in_again(g: Interlock, v: AppUpdateView, events: Seq<UpdateEvent>)
    requires
        g.app_update,
        g.maintenance,
        v.stage == UpdateStage::Look,
    ensures
        ({
            let (g2, v2) = update_run(g, v, events);
            if v2.stage == UpdateStage::Done {
                !g2.app_update && !g2.maintenance
            } else {
                g2.app_update && g2.maintenance
            }
        }),
    decreases events.len(),
{
    if events.len() > 0 {
        the_service_is_let_in_again(g, v, events.drop_last());
    }
}

/// The launcher is replaced only after the service was stopped and an update was found.
pub proof fn only_a_found_update_is_installed(v: AppUpdateView, event: UpdateEvent)
    requires
        update_advanced(v, event).stage == UpdateStage::Install,
        v.stage != UpdateStage::Install,
    ensures
        v.stage == UpdateStage::Check,
        event matches UpdateEvent::Checked(Ok(found)) && found,
{
}

/// An update that fails is not done before the service was looked after; one that works does
/// not start the service.
pub proof fn a_failed_update_recovers(v: AppUpdateView, event: UpdateEvent)
    requires
        v.error is None,
        v.stage != UpdateStage::Recover,
    ensures
        update_advanced(v, event).error is Some <==> update_advanced(v, event).stage
            == UpdateStage::Recover,
{
}

// ---------------------------------------------------------------------------
// The upgrade of DSH
// ---------------------------------------------------------------------------

#[derive(Debug, Clone, Copy, PartialEq, Eq, Structural)]
pub enum MaintenanceStage {
    /// The state of the service must be found out.
    Look,
    Stop,
    Upgrade,
    Done,
}

/// An upgrade of DSH, from the stop of the service to its end.
#[derive(Debug)]
pub struct Maintenance {
    pub stage: MaintenanceStage,
    pub error: Option<String>,
}

#[verifier::ext_equal]
pub struct MaintenanceView {
    pub stage: MaintenanceStage,
    pub error: Option<Seq<char>>,
}

impl View for Maintenance {
    type V = MaintenanceView;

    open spec fn view(&self) -> MaintenanceView {
        MaintenanceView { stage: self.stage, error: text::opt_text(self.error) }
    }
}

#[derive(Debug)]
pub enum MaintenanceEvent {
    Phase(Result<String, String>),
    Stopped(Result<(), String>),
    Upgraded(Result<(), String>),
    /// The task of the upgrade itself broke down.
    Crashed(String),
}

impl MaintenanceView {
    pub open spec fn done(self, error: Option<Seq<char>>) -> MaintenanceView {
        MaintenanceView { stage: MaintenanceStage::Done, error }
    }
}

pub open spec fn maintenance_advanced(v: MaintenanceView, event: MaintenanceEvent) -> MaintenanceView {
    match (v.stage, event) {
        (MaintenanceStage::Look, MaintenanceEvent::Phase(r)) => match r {
            Err(e) => v.done(Some(e@)),
            Ok(phase) => if is_external(phase@) {
                v.done(
                    Some("检测到 Launcher 无法停止的外部 DSH 服务，请先手动停止后再升级"@),
                )
            } else {
                MaintenanceView { stage: MaintenanceStage::Stop, ..v }
            },
        },
        (MaintenanceStage::Stop, MaintenanceEvent::Stopped(r)) => match r {
            Err(e) => v.done(Some(e@)),
            Ok(_) => MaintenanceView { stage: MaintenanceStage::Upgrade, ..v },
        },
        (MaintenanceStage::Upgrade, MaintenanceEvent::Upgraded(r)) => match r {
            Err(e) => v.done(Some(e@)),
            Ok(_) => v.done(None),
        },
        (MaintenanceStage::Upgrade, MaintenanceEvent::Crashed(e)) => v.done(
            Some("升级任务异常结束："@ + e@),
        ),
        _ => v,
    }
}

impl Maintenance {
    fn end(&mut self, error: Option<String>)
        ensures
            final(self)@ == old(self)@.done(text::opt_text(error)),
    {
        self.error = error;
        self.stage = MaintenanceStage::Done;
    }
}

impl Interlock {
    /// Begins an upgrade of DSH. The installation must be one, and nothing else may be going
    /// on.
    pub fn upgrade_managed_dsh(&mut self, status: Result<(), String>) -> (r: Result<
        Maintenance,
        String,
    >)
        ensures
            match r {
                Ok(m) => status is Ok && !old(self).maintenance && m@ == (MaintenanceView {
                    stage: MaintenanceStage::Look,
                    error: None,
                }) && *final(self) == (Interlock { maintenance: true, ..*old(self) }),
                Err(e) => *final(self) == *old(self) && match status {
                    Err(s) => e@ == s@,
                    Ok(_) => old(self).maintenance && e@ == "已有维护升级任务正在进行"@,
                },
            },
    {
        if let Err(e) = status {
            return Err(e);
        }
        if self.maintenance {
            return Err("已有维护升级任务正在进行".to_string());
        }
        self.maintenance = true;
        Ok(Maintenance { stage: MaintenanceStage::Look, error: None })
    }

    /// Takes note of what became of the last action. When the upgrade is done the service
    /// may be started again; the result is what the log says of a failure.
    pub fn upgrade_next(&mut self, upgrade: &mut Maintenance, event: MaintenanceEvent) -> (r:
        Option<String>)
        requires
            old(upgrade)@.stage != MaintenanceStage::Done,
        ensures
            final(upgrade)@ == maintenance_advanced(old(upgrade)@, event),
            *final(self) == if final(upgrade)@.stage == MaintenanceStage::Done {
                (Interlock { maintenance: false, ..*old(self) })
            } else {
                *old(self)
            },
            text::opt_text(r) == if final(upgrade)@.stage == MaintenanceStage::Done {
                final(upgrade)@.error
            } else {
                None
            },
    {
        match (upgrade.stage, event) {
            (MaintenanceStage::Look, MaintenanceEvent::Phase(r)) => match r {
                Err(e) => upgrade.end(Some(e)),
                Ok(phase) => {
                    if equal(phase.as_str(), "external") {
                        upgrade.end(
                            Some(
                                "检测到 Launcher 无法停止的外部 DSH 服务，请先手动停止后再升级".to_string(),
                            ),
                        );
                    } else {
                        upgrade.stage = MaintenanceStage::Stop;
                    }
                },
            },
            (MaintenanceStage::Stop, MaintenanceEvent::Stopped(r)) => match r {
                Err(e) => upgrade.end(Some(e)),
                Ok(_) => {
                    upgrade.stage = MaintenanceStage::Upgrade;
                },
            },
            (MaintenanceStage::Upgrade, MaintenanceEvent::Upgraded(r)) => match r {
                Err(e) => upgrade.end(Some(e)),
                Ok(_) => upgrade.end(None),
            },
            (MaintenanceStage::Upgrade, MaintenanceEvent::Crashed(e)) => {
                upgrade.end(
                    Some("升级任务异常结束：".to_string().concat(e.as_str())),
                );
            },
            _ => {},
        }
        if matches!(upgrade.stage, MaintenanceStage::Done) {
            self.maintenance = false;
            match &upgrade.error {
                Some(e) => Some(e.clone()),
                None => None,
            }
        } else {
            None
        }
    }
}

/// DSH is upgraded only once the service was stopped, and never under one that the launcher
/// did not start.
pub proof fn only_a_stopped_service_is_upgraded(v: MaintenanceView, event: MaintenanceEvent)
    requires
        v.stage != MaintenanceStage::Upgrade,
    ensures
        maintenance_advanced(v, event).stage == MaintenanceStage::Upgrade ==> v.stage
            == MaintenanceStage::Stop && (event matches MaintenanceEvent::Stopped(r) && r is Ok),
        maintenance_advanced(v, event).stage == MaintenanceStage::Stop && v.stage
            != MaintenanceStage::Stop ==> (event matches MaintenanceEvent::Phase(Ok(phase))
            && !is_external(phase@)),
{
}

// ---------------------------------------------------------------------------
// Step by step
// ---------------------------------------------------------------------------

/// An update goes on while everything works: the service is looked at and stopped, the update
/// is looked for, and installed.
pub proof fn an_update_goes_on_step_by_step(v: AppUpdateView, phase: String)
    ensures
        v.stage == UpdateStage::Look && phase@ != "external"@ ==> update_advanced(
            v,
            UpdateEvent::Phase(Ok::<String, String>(phase)),
        ) == (AppUpdateView { stage: UpdateStage::Stop, error: v.error }),
        v.stage == UpdateStage::Stop ==> update_advanced(
            v,
            UpdateEvent::Stopped(Ok::<(), String>(())),
        ) == (AppUpdateView { stage: UpdateStage::Check, error: v.error }),
        v.stage == UpdateStage::Check ==> update_advanced(
            v,
            UpdateEvent::Checked(Ok::<bool, String>(true)),
        ) == (AppUpdateView { stage: UpdateStage::Install, error: v.error }),
        v.stage == UpdateStage::Install ==> update_advanced(
            v,
            UpdateEvent::Installed(Ok::<(), String>(())),
        ) == (AppUpdateView { stage: UpdateStage::Done, error: v.error }),
        v.stage == UpdateStage::Recover ==> update_advanced(v, UpdateEvent::Recovered) == (
        AppUpdateView { stage: UpdateStage::Done, error: v.error }),
{
}

/// An update fails, and the service is looked after, if a step does not work, if the service is
/// not the launcher's own, or if there is no update.
pub proof fn an_update_fails_where_a_step_does(v: AppUpdateView, phase: String, why: String)
    ensures
        ({
            let failed = |event: UpdateEvent|
                update_advanced(v, event).stage == UpdateStage::Recover && update_advanced(
                    v,
                    event,
                ).error is Some;
            &&& v.stage == UpdateStage::Look ==> failed(
                UpdateEvent::Phase(Err::<String, String>(why)),
            )
            &&& v.stage == UpdateStage::Look && phase@ == "external"@ ==> failed(
                UpdateEvent::Phase(Ok::<String, String>(phase)),
            )
            &&& v.stage == UpdateStage::Stop ==> failed(
                UpdateEvent::Stopped(Err::<(), String>(why)),
            )
            &&& v.stage == UpdateStage::Check ==> failed(UpdateEvent::NoUpdater(why)) && failed(
                UpdateEvent::Checked(Err::<bool, String>(why)),
            ) && failed(UpdateEvent::Checked(Ok::<bool, String>(false)))
            &&& v.stage == UpdateStage::Install ==> failed(
                UpdateEvent::Installed(Err::<(), String>(why)),
            )
        }),
{
}

/// An upgrade of DSH goes on from the look at the service to its stop and from there to the
/// upgrade; whatever fails ends it with an error, and only the upgrade itself ends it without
/// one.
pub proof fn a_maintenance_goes_on_step_by_step(v: MaintenanceView, phase: String, why: String)
    requires
        v.error is None,
    ensures
        ({
            let failed = |event: MaintenanceEvent|
                maintenance_advanced(v, event).stage == MaintenanceStage::Done
                    && maintenance_advanced(v, event).error is Some;
            &&& v.stage == MaintenanceStage::Look && phase@ != "external"@ ==> maintenance_advanced(
                v,
                MaintenanceEvent::Phase(Ok::<String, String>(phase)),
            ) == (MaintenanceView { stage: MaintenanceStage::Stop, error: None })
            &&& v.stage == MaintenanceStage::Look && phase@ == "external"@ ==> failed(
                MaintenanceEvent::Phase(Ok::<String, String>(phase)),
            )
            &&& v.stage == MaintenanceStage::Look ==> failed(
                MaintenanceEvent::Phase(Err::<String, String>(why)),
            )
            &&& v.stage == MaintenanceStage::Stop ==> maintenance_advanced(
                v,
                MaintenanceEvent::Stopped(Ok::<(), String>(())),
            ) == (MaintenanceView { stage: MaintenanceStage::Upgrade, error: None })
            &&& v.stage == MaintenanceStage::Stop ==> failed(
                MaintenanceEvent::Stopped(Err::<(), String>(why)),
            )
            &&& v.stage == MaintenanceStage::Upgrade ==> maintenance_advanced(
                v,
                MaintenanceEvent::Upgraded(Ok::<(), String>(())),
            ) == (MaintenanceView { stage: MaintenanceStage::Done, error: None })
            &&& v.stage == MaintenanceStage::Upgrade ==> failed(
                MaintenanceEvent::Upgraded(Err::<(), String>(why)),
            ) && failed(MaintenanceEvent::Crashed(why))
        }),
{
}

} // verus!
