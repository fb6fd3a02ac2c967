//! The upgrade of an installation, and its move to the present layout.
//!
//! The new version is installed and tried out beside the one in use. The one in use is set
//! aside, not removed, until the new one is in place and the marker names it.

use vstd::prelude::*;

use crate::config::PlatformTarget;
use crate::install;
use crate::install::{tell, InstallAction, InstallEvent, InstallNote, NoteView, NpmInstall};
use crate::managed;
use crate::managed::{
    create_wrapper_for, dsh_entry, fetch_latest_dsh, latest_dsh_url, legacy_managed_dsh_path,
    managed_dsh_path, marker_path, read_marker, runtime_dir, status_from, ManagedStatus, Marker, MarkerFile,
};
use crate::path;
use crate::path::child;
use crate::text;
use crate::text::equal;

verus! {

// ---------------------------------------------------------------------------
// Writing the marker
// ---------------------------------------------------------------------------

#[derive(Debug, Clone, Copy, PartialEq, Eq, Structural)]
pub enum MarkerStage {
    /// The temporary file must be written.
    Write,
    /// Whether there is a marker to be replaced must be found out.
    Check,
    Remove,
    Rename,
    Done,
}

/// A marker is written beside its place and renamed into it.
#[derive(Debug)]
pub struct MarkerWrite {
    pub host: PlatformTarget,
    pub root: String,
    pub stage: MarkerStage,
    pub error: Option<String>,
}

#[verifier::ext_equal]
pub struct MarkerWriteView {
    pub host: PlatformTarget,
    pub root: Seq<char>,
    pub stage: MarkerStage,
    pub error: Option<Seq<char>>,
}

impl View for MarkerWrite {
    type V = MarkerWriteView;

    open spec fn view(&self) -> MarkerWriteView {
        MarkerWriteView {
            host: self.host,
            root: self.root@,
            stage: self.stage,
            error: text::opt_text(self.error),
        }
    }
}

pub open spec fn marker_temporary(host: PlatformTarget, root: Seq<char>) -> Seq<char> {
    path::join(host, root, ".dsh-launcher-managed.json.tmp"@)
}

pub open spec fn marker_step(
    v: MarkerWriteView,
    r: Result<(), String>,
    doing: install::Doing,
    next: MarkerStage,
) -> MarkerWriteView {
    match r {
        Ok(_) => MarkerWriteView { stage: next, ..v },
        Err(e) => MarkerWriteView {
            stage: MarkerStage::Done,
            error: Some(install::doing_text(doing) + e@),
            ..v
        },
    }
}

pub open spec fn marker_advanced(v: MarkerWriteView, event: InstallEvent) -> MarkerWriteView {
    match (v.stage, event) {
        (MarkerStage::Write, InstallEvent::Did(r)) => marker_step(
            v,
            r,
            install::Doing::WriteMarker,
            if v.host == PlatformTarget::Windows {
                MarkerStage::Check
            } else {
                MarkerStage::Rename
            },
        ),
        (MarkerStage::Check, InstallEvent::Found(found)) => MarkerWriteView {
            stage: if found {
                MarkerStage::Remove
            } else {
                MarkerStage::Rename
            },
            ..v
        },
        (MarkerStage::Remove, InstallEvent::Did(r)) => marker_step(
            v,
            r,
            install::Doing::ReplaceMarker,
            MarkerStage::Rename,
        ),
        (MarkerStage::Rename, InstallEvent::Did(r)) => marker_step(
            v,
            r,
            install::Doing::SaveMarker,
            MarkerStage::Done,
        ),
        _ => v,
    }
}

/// What the writing of a marker asks for.
#[derive(Debug)]
pub enum MarkerAction {
    /// The marker is written to this file.
    WriteTo(String),
    Exists(String),
    RemoveFile(String),
    Rename { from: String, to: String },
    Finished,
}

pub open spec fn marker_action_is(a: MarkerAction, v: MarkerWriteView) -> bool {
    match v.stage {
        MarkerStage::Write => a matches MarkerAction::WriteTo(f) && f@ == marker_temporary(
            v.host,
            v.root,
        ),
        MarkerStage::Check => a matches MarkerAction::Exists(f) && f@ == managed::marker_of(
            v.host,
            v.root,
        ),
        MarkerStage::Remove => a matches MarkerAction::RemoveFile(f) && f@ == managed::marker_of(
            v.host,
            v.root,
        ),
        MarkerStage::Rename => a matches MarkerAction::Rename { from, to } && from@
            == marker_temporary(v.host, v.root) && to@ == managed::marker_of(v.host, v.root),
        MarkerStage::Done => a is Finished,
    }
}

impl MarkerWrite {
    pub fn write_marker(host: PlatformTarget, root: &str) -> (r: MarkerWrite)
        ensures
            r@ == (MarkerWriteView {
                host,
                root: root@,
                stage: MarkerStage::Write,
                error: None::<Seq<char>>,
            }),
    {
        MarkerWrite { host, root: root.to_string(), stage: MarkerStage::Write, error: None }
    }

    pub fn action(&self) -> (r: MarkerAction)
        ensures
            marker_action_is(r, self@),
    {
        match self.stage {
            MarkerStage::Write => MarkerAction::WriteTo(
                child(self.host, self.root.as_str(), ".dsh-launcher-managed.json.tmp"),
            ),
            MarkerStage::Check => MarkerAction::Exists(marker_path(self.host, self.root.as_str())),
            MarkerStage::Remove => MarkerAction::RemoveFile(
                marker_path(self.host, self.root.as_str()),
            ),
            MarkerStage::Rename => MarkerAction::Rename {
                from: child(self.host, self.root.as_str(), ".dsh-launcher-managed.json.tmp"),
                to: marker_path(self.host, self.root.as_str()),
            },
            MarkerStage::Done => MarkerAction::Finished,
        }
    }

    fn go(&mut self, r: Result<(), String>, doing: install::Doing, next: MarkerStage)
        ensures
            final(self)@ == marker_step(old(self)@, r, doing, next),
    {
        match r {
            Ok(_) => {
                self.stage = next;
            },
            Err(e) => {
                self.error = Some(install::failure(doing, e.as_str()));
                self.stage = MarkerStage::Done;
            },
        }
    }

    pub fn advance(&mut self, event: InstallEvent)
        ensures
            final(self)@ == marker_advanced(old(self)@, event),
    {
        match (self.stage, event) {
            (MarkerStage::Write, InstallEvent::Did(r)) => {
                let next = if matches!(self.host, PlatformTarget::Windows) {
                    MarkerStage::Check
                } else {
                    MarkerStage::Rename
                };
                self.go(r, install::Doing::WriteMarker, next);
            },
            (MarkerStage::Check, InstallEvent::Found(found)) => {
                self.stage = if found {
                    MarkerStage::Remove
                } else {
                    MarkerStage::Rename
                };
            },
            (MarkerStage::Remove, InstallEvent::Did(r)) => {
                self.go(r, install::Doing::ReplaceMarker, MarkerStage::Rename);
            },
            (MarkerStage::Rename, InstallEvent::Did(r)) => {
                self.go(r, install::Doing::SaveMarker, MarkerStage::Done);
            },
            _ => {},
        }
    }
}

// ---------------------------------------------------------------------------
// The upgrade
// ---------------------------------------------------------------------------

#[derive(Debug, Clone, Copy, PartialEq, Eq, Structural)]
pub enum UpgradeStage {
    /// What an earlier upgrade left behind must be removed.
    ClearStaging,
    ClearBackup,
    ClearFailed,
    /// The latest version must be found out.
    Latest,
    Npm,
    /// A command for the new version must be written, to try it out.
    WriteTrial,
    Probe,
    SetAside,
    Enable,
    /// The new version could not be put in place: the old one is put back.
    Restore,
    WriteMarker,
    /// The marker could not be written: the new version is taken out.
    TakeOut,
    PutBack,
    /// The old version could not be put back: the new one is.
    Reinstate,
    RemoveTakenOut,
    RemoveBackup,
    RemoveTrial,
    RemoveStaging,
    Done,
}

#[derive(Debug)]
pub struct Upgrade {
    pub host: PlatformTarget,
    pub root: String,
    pub marker: Marker,
    /// The version that is being installed.
    pub expected: String,
    pub stage: UpgradeStage,
    pub error: Option<String>,
}

#[verifier::ext_equal]
pub struct UpgradeView {
    pub host: PlatformTarget,
    pub root: Seq<char>,
    pub schema: u8,
    pub node_version: Seq<char>,
    pub dsh_version: Seq<char>,
    pub use_mirror: bool,
    pub expected: Seq<char>,
    pub stage: UpgradeStage,
    pub error: Option<Seq<char>>,
}

impl View for Upgrade {
    type V = UpgradeView;

    open spec fn view(&self) -> UpgradeView {
        UpgradeView {
            host: self.host,
            root: self.root@,
            schema: self.marker.schema,
            node_version: self.marker.node_version@,
            dsh_version: self.marker.dsh_version@,
            use_mirror: self.marker.use_mirror,
            expected: self.expected@,
            stage: self.stage,
            error: text::opt_text(self.error),
        }
    }
}

impl UpgradeView {
    pub open spec fn at(self, stage: UpgradeStage) -> UpgradeView {
        UpgradeView { stage, ..self }
    }

    /// Failed: what is left of the trial must be removed.
    pub open spec fn failed(self, message: Seq<char>) -> UpgradeView {
        UpgradeView { stage: UpgradeStage::RemoveTrial, error: Some(message), ..self }
    }

    /// The reason of the failure so far.
    pub open spec fn cause(self) -> Seq<char> {
        match self.error {
            Some(e) => e,
            None => Seq::empty(),
        }
    }

    pub open spec fn staging(self) -> Seq<char> {
        path::join(self.host, self.root, ".dsh-upgrade-staging"@)
    }

    pub open spec fn backup(self) -> Seq<char> {
        path::join(self.host, self.root, ".dsh-upgrade-backup"@)
    }

    pub open spec fn taken_out(self) -> Seq<char> {
        path::join(self.host, self.root, ".dsh-upgrade-failed"@)
    }

    pub open spec fn current(self) -> Seq<char> {
        managed::runtime_of(self.host, self.root)
    }

    pub open spec fn trial(self) -> Seq<char> {
        path::join(
            self.host,
            self.root,
            if self.host == PlatformTarget::Windows {
                ".dsh-upgrade-check.cmd"@
            } else {
                ".dsh-upgrade-check"@
            },
        )
    }
}

/// How an upgrade begins.
pub open spec fn upgrade_begins(
    v: UpgradeView,
    host: PlatformTarget,
    root: Seq<char>,
    file: MarkerFile,
) -> bool {
    &&& v.host == host
    &&& v.root == root
    &&& match managed::usable_marker(file) {
        Ok(m) => {
            &&& v.stage == UpgradeStage::ClearStaging
            &&& v.error is None
            &&& v.schema == m.schema
            &&& v.node_version == m.node_version@
            &&& v.dsh_version == m.dsh_version@
            &&& v.use_mirror == m.use_mirror
        },
        Err(e) => v.stage == UpgradeStage::Done && v.error == Some(e),
    }
}

pub open spec fn upgrade_step(
    v: UpgradeView,
    r: Result<(), String>,
    next: UpgradeStage,
) -> UpgradeView {
    match r {
        Ok(_) => v.at(next),
        Err(e) => v.failed(e@),
    }
}

/// The upgrade after an event. What answers another question changes nothing.
pub open spec fn upgrade_advanced(v: UpgradeView, event: InstallEvent) -> (UpgradeView, Seq<
    NoteView,
>) {
    match (v.stage, event) {
        (UpgradeStage::ClearStaging, InstallEvent::Did(_)) => (
            v.at(UpgradeStage::ClearBackup),
            seq![],
        ),
        (UpgradeStage::ClearBackup, InstallEvent::Did(_)) => (
            v.at(UpgradeStage::ClearFailed),
            seq![],
        ),
        (UpgradeStage::ClearFailed, InstallEvent::Did(_)) => (
            v.at(UpgradeStage::Latest),
            seq![install::progress("upgrade"@, "服务已停止，正在升级 DSH..."@, 20)],
        ),
        (UpgradeStage::Latest, InstallEvent::Latest(answer)) => match managed::latest_of(answer) {
            Err(e) => (v.failed(e), seq![]),
            Ok(version) => (
                UpgradeView { expected: version, stage: UpgradeStage::Npm, ..v },
                seq![],
            ),
        },
        (UpgradeStage::Npm, InstallEvent::Ran(r)) => (
            upgrade_step(v, r, UpgradeStage::WriteTrial),
            seq![],
        ),
        (UpgradeStage::WriteTrial, InstallEvent::Ran(r)) => (
            upgrade_step(v, r, UpgradeStage::Probe),
            seq![],
        ),
        (UpgradeStage::Probe, InstallEvent::Text(r)) => match r {
            Err(e) => (v.failed(e@), seq![]),
            Ok(actual) => if actual@ == v.expected {
                (v.at(UpgradeStage::SetAside), seq![])
            } else {
                (
                    v.failed("DSH 版本校验失败：期望 "@ + v.expected + "，实际 "@ + actual@),
                    seq![],
                )
            },
        },
        (UpgradeStage::SetAside, InstallEvent::Did(r)) => match r {
            Ok(_) => (v.at(UpgradeStage::Enable), seq![]),
            Err(e) => (
                v.failed(
                    "切换 DSH 版本失败："@ + e@ + "。如遇文件占用，请停止服务后重试"@,
                ),
                seq![],
            ),
        },
        (UpgradeStage::Enable, InstallEvent::Did(r)) => match r {
            Ok(_) => (
                UpgradeView { dsh_version: v.expected, stage: UpgradeStage::WriteMarker, ..v },
                seq![],
            ),
            Err(e) => (
                UpgradeView {
                    error: Some("启用新版 DSH 失败："@ + e@),
                    stage: UpgradeStage::Restore,
                    ..v
                },
                seq![],
            ),
        },
        (UpgradeStage::Restore, InstallEvent::Did(_)) => (
            v.at(UpgradeStage::RemoveTrial),
            seq![],
        ),
        (UpgradeStage::WriteMarker, InstallEvent::Ran(r)) => match r {
            Ok(_) => (v.at(UpgradeStage::RemoveBackup), seq![]),
            Err(e) => (
                UpgradeView { error: Some(e@), stage: UpgradeStage::TakeOut, ..v },
                seq![],
            ),
        },
        (UpgradeStage::TakeOut, InstallEvent::Did(r)) => match r {
            Ok(_) => (v.at(UpgradeStage::PutBack), seq![]),
            Err(e) => (
                v.failed(
                    v.cause() + "；回滚准备失败："@ + e@ + "。旧版仍保留在 "@ + v.backup(),
                ),
                seq![],
            ),
        },
        (UpgradeStage::PutBack, InstallEvent::Did(r)) => match r {
            Ok(_) => (v.at(UpgradeStage::RemoveTakenOut), seq![]),
            Err(e) => (
                UpgradeView {
                    error: Some(
                        v.cause() + "；恢复旧版失败："@ + e@ + "。旧版仍保留在 "@ + v.backup(),
                    ),
                    stage: UpgradeStage::Reinstate,
                    ..v
                },
                seq![],
            ),
        },
        (UpgradeStage::Reinstate, InstallEvent::Did(_)) => (
            v.at(UpgradeStage::RemoveTrial),
            seq![],
        ),
        (UpgradeStage::RemoveTakenOut, InstallEvent::Did(_)) => (
            v.at(UpgradeStage::RemoveTrial),
            seq![],
        ),
        (UpgradeStage::RemoveBackup, InstallEvent::Did(_)) => (
            v.at(UpgradeStage::RemoveTrial),
            seq![install::progress("complete"@, "DSH 升级完成，将在下次启动时生效"@, 100)],
        ),
        (UpgradeStage::RemoveTrial, InstallEvent::Did(_)) => (
            v.at(UpgradeStage::RemoveStaging),
            seq![],
        ),
        (UpgradeStage::RemoveStaging, InstallEvent::Did(_)) => (v.at(UpgradeStage::Done), seq![]),
        _ => (v, seq![]),
    }
}

pub open spec fn moves(a: InstallAction, old_place: Seq<char>, new_place: Seq<char>) -> bool {
    a matches InstallAction::Rename { from, to } && from@ == old_place && to@ == new_place
}

pub open spec fn removes(a: InstallAction, place: Seq<char>) -> bool {
    a matches InstallAction::RemoveDir(d) && d@ == place
}

pub open spec fn upgrade_action_is(a: InstallAction, v: UpgradeView) -> bool {
    match v.stage {
        UpgradeStage::ClearStaging => removes(a, v.staging()),
        UpgradeStage::ClearBackup => removes(a, v.backup()),
        UpgradeStage::ClearFailed => removes(a, v.taken_out()),
        UpgradeStage::Latest => a matches InstallAction::LatestDsh(u) && u@ == managed::latest_url(
            v.use_mirror,
        ),
        UpgradeStage::Npm => a matches InstallAction::Npm(npm) && install::npm_begins(
            npm,
            v.host,
            path::join(v.host, v.root, "node"@),
            v.staging(),
            v.use_mirror,
            v.expected,
        ),
        UpgradeStage::WriteTrial => a matches InstallAction::WriteScript { file, script } && file@
            == v.trial() && script@ == managed::entry_script(v.host, v.root, v.staging()),
        UpgradeStage::Probe => a matches InstallAction::Probe(f) && f@ == v.trial(),
        UpgradeStage::SetAside => moves(a, v.current(), v.backup()),
        UpgradeStage::Enable => moves(a, v.staging(), v.current()),
        UpgradeStage::Restore => moves(a, v.backup(), v.current()),
        UpgradeStage::WriteMarker => a matches InstallAction::WriteMarker(m) && m.schema
            == v.schema && m.node_version@ == v.node_version && m.dsh_version@ == v.dsh_version
            && m.use_mirror == v.use_mirror,
        UpgradeStage::TakeOut => moves(a, v.current(), v.taken_out()),
        UpgradeStage::PutBack => moves(a, v.backup(), v.current()),
        UpgradeStage::Reinstate => moves(a, v.taken_out(), v.current()),
        UpgradeStage::RemoveTakenOut => removes(a, v.taken_out()),
        UpgradeStage::RemoveBackup => removes(a, v.backup()),
        UpgradeStage::RemoveTrial => a matches InstallAction::RemoveFile(f) && f@ == v.trial(),
        UpgradeStage::RemoveStaging => removes(a, v.staging()),
        UpgradeStage::Done => a is Finished,
    }
}

impl Upgrade {
    /// Begins the upgrade of the installation that the marker describes.
    pub fn upgrade_managed(host: PlatformTarget, root: &str, file: MarkerFile) -> (r: Upgrade)
        ensures
            upgrade_begins(r@, host, root@, file),
    {
        match read_marker(file) {
            Ok(marker) => Upgrade {
                host,
                root: root.to_string(),
                marker,
                expected: String::new(),
                stage: UpgradeStage::ClearStaging,
                error: None,
            },
            Err(e) => Upgrade {
                host,
                root: root.to_string(),
                marker: Marker {
                    schema: managed::MANAGED_SCHEMA,
                    node_version: String::new(),
                    dsh_version: String::new(),
                    use_mirror: false,
                },
                expected: String::new(),
                stage: UpgradeStage::Done,
                error: Some(e),
            },
        }
    }

    fn staging(&self) -> (r: String)
        ensures
            r@ == self@.staging(),
    {
        child(self.host, self.root.as_str(), ".dsh-upgrade-staging")
    }

    fn backup(&self) -> (r: String)
        ensures
            r@ == self@.backup(),
    {
        child(self.host, self.root.as_str(), ".dsh-upgrade-backup")
    }

    fn taken_out(&self) -> (r: String)
        ensures
            r@ == self@.taken_out(),
    {
        child(self.host, self.root.as_str(), ".dsh-upgrade-failed")
    }

    fn current(&self) -> (r: String)
        ensures
            r@ == self@.current(),
    {
        runtime_dir(self.host, self.root.as_str())
    }

    fn trial(&self) -> (r: String)
        ensures
            r@ == self@.trial(),
    {
        if matches!(self.host, PlatformTarget::Windows) {
            child(self.host, self.root.as_str(), ".dsh-upgrade-check.cmd")
        } else {
            child(self.host, self.root.as_str(), ".dsh-upgrade-check")
        }
    }

    fn cause(&self) -> (r: String)
        ensures
            r@ == self@.cause(),
    {
        match &self.error {
            Some(e) => e.clone(),
            None => String::new(),
        }
    }

    /// How the upgrade ended, once it has.
    pub fn outcome(&self) -> (r: Result<ManagedStatus, String>)
        ensures
            match self@.error {
                Some(e) => r matches Err(m) && m@ == e,
                None => r matches Ok(s) && s.managed_root@ == self@.root && s.dsh_path@
                    == managed::entry_of(self@.host, self@.root) && s.dsh_version@
                    == self@.dsh_version && s.node_version@ == self@.node_version,
            },
    {
        match &self.error {
            Some(e) => Err(e.clone()),
            None => Ok(status_from(self.host, self.root.as_str(), self.marker.clone())),
        }
    }

    pub fn action(&self) -> (r: InstallAction)
        ensures
            upgrade_action_is(r, self@),
    {
        match self.stage {
            UpgradeStage::ClearStaging => InstallAction::RemoveDir(self.staging()),
            UpgradeStage::ClearBackup => InstallAction::RemoveDir(self.backup()),
            UpgradeStage::ClearFailed => InstallAction::RemoveDir(self.taken_out()),
            UpgradeStage::Latest => InstallAction::LatestDsh(
                latest_dsh_url(self.marker.use_mirror),
            ),
            UpgradeStage::Npm => InstallAction::Npm(
                NpmInstall::new(
                    self.host,
                    child(self.host, self.root.as_str(), "node"),
                    self.staging(),
                    self.marker.use_mirror,
                    self.expected.clone(),
                ),
            ),
            UpgradeStage::WriteTrial => InstallAction::WriteScript {
                file: self.trial(),
                script: create_wrapper_for(
                    self.host,
                    self.root.as_str(),
                    self.staging().as_str(),
                ),
            },
            UpgradeStage::Probe => InstallAction::Probe(self.trial()),
            UpgradeStage::SetAside => InstallAction::Rename {
                from: self.current(),
                to: self.backup(),
            },
            UpgradeStage::Enable => InstallAction::Rename {
                from: self.staging(),
                to: self.current(),
            },
            UpgradeStage::Restore => InstallAction::Rename {
                from: self.backup(),
                to: self.current(),
            },
            UpgradeStage::WriteMarker => InstallAction::WriteMarker(self.marker.clone()),
            UpgradeStage::TakeOut => InstallAction::Rename {
                from: self.current(),
                to: self.taken_out(),
            },
            UpgradeStage::PutBack => InstallAction::Rename {
                from: self.backup(),
                to: self.current(),
            },
            UpgradeStage::Reinstate => InstallAction::Rename {
                from: self.taken_out(),
                to: self.current(),
            },
            UpgradeStage::RemoveTakenOut => InstallAction::RemoveDir(self.taken_out()),
            UpgradeStage::RemoveBackup => InstallAction::RemoveDir(self.backup()),
            UpgradeStage::RemoveTrial => InstallAction::RemoveFile(self.trial()),
            UpgradeStage::RemoveStaging => InstallAction::RemoveDir(self.staging()),
            UpgradeStage::Done => InstallAction::Finished,
        }
    }

    fn fail(&mut self, message: String)
        ensures
            final(self)@ == old(self)@.failed(message@),
    {
        self.error = Some(message);
        self.stage = UpgradeStage::RemoveTrial;
    }

    fn go(&mut self, r: Result<(), String>, next: UpgradeStage)
        ensures
            final(self)@ == upgrade_step(old(self)@, r, next),
    {
        match r {
            Ok(_) => {
                self.stage = next;
            },
            Err(e) => self.fail(e),
        }
    }

    /// Takes note of what became of the last action.
    pub fn advance(&mut self, event: InstallEvent) -> (r: Vec<InstallNote>)
        ensures
            (final(self)@, install::notes_view(r@)) == upgrade_advanced(old(self)@, event),
    {
        let mut notes: Vec<InstallNote> = Vec::new();
        let ghost want = upgrade_advanced(self@, event);
        assert(install::notes_view(notes@) =~= Seq::<NoteView>::empty());
        match (self.stage, event) {
            (UpgradeStage::ClearStaging, InstallEvent::Did(_)) => {
                self.stage = UpgradeStage::ClearBackup;
            },
            (UpgradeStage::ClearBackup, InstallEvent::Did(_)) => {
                self.stage = UpgradeStage::ClearFailed;
            },
            (UpgradeStage::ClearFailed, InstallEvent::Did(_)) => {
                tell(
                    &mut notes,
                    InstallNote::Progress {
                        phase: "upgrade",
                        message: "服务已停止，正在升级 DSH...",
                        percent: 20,
                    },
                );
                self.stage = UpgradeStage::Latest;
            },
            (UpgradeStage::Latest, InstallEvent::Latest(answer)) => match fetch_latest_dsh(answer) {
                Err(e) => self.fail(e),
                Ok(version) => {
                    self.expected = version;
                    self.stage = UpgradeStage::Npm;
                },
            },
            (UpgradeStage::Npm, InstallEvent::Ran(r)) => {
                self.go(r, UpgradeStage::WriteTrial);
            },
            (UpgradeStage::WriteTrial, InstallEvent::Ran(r)) => {
                self.go(r, UpgradeStage::Probe);
            },
            (UpgradeStage::Probe, InstallEvent::Text(r)) => match r {
                Err(e) => self.fail(e),
                Ok(actual) => {
                    if equal(actual.as_str(), self.expected.as_str()) {
                        self.stage = UpgradeStage::SetAside;
                    } else {
                        let message = "DSH 版本校验失败：期望 ".to_string().concat(
                            self.expected.as_str(),
                        ).concat("，实际 ").concat(actual.as_str());
                        self.fail(message);
                    }
                },
            },
            (UpgradeStage::SetAside, InstallEvent::Did(r)) => match r {
                Ok(_) => {
                    self.stage = UpgradeStage::Enable;
                },
                Err(e) => self.fail(
                    "切换 DSH 版本失败：".to_string().concat(e.as_str()).concat(
                        "。如遇文件占用，请停止服务后重试",
                    ),
                ),
            },
            (UpgradeStage::Enable, InstallEvent::Did(r)) => match r {
                Ok(_) => {
                    self.marker.dsh_version = self.expected.clone();
                    self.stage = UpgradeStage::WriteMarker;
                },
                Err(e) => {
                    self.error = Some(
                        "启用新版 DSH 失败：".to_string().concat(e.as_str()),
                    );
                    self.stage = UpgradeStage::Restore;
                },
            },
            (UpgradeStage::Restore, InstallEvent::Did(_)) => {
                self.stage = UpgradeStage::RemoveTrial;
            },
            (UpgradeStage::WriteMarker, InstallEvent::Ran(r)) => match r {
                Ok(_) => {
                    self.stage = UpgradeStage::RemoveBackup;
                },
                Err(e) => {
                    self.error = Some(e);
                    self.stage = UpgradeStage::TakeOut;
                },
            },
            (UpgradeStage::TakeOut, InstallEvent::Did(r)) => match r {
                Ok(_) => {
                    self.stage = UpgradeStage::PutBack;
                },
                Err(e) => {
                    let message = self.cause().concat("；回滚准备失败：").concat(
                        e.as_str(),
                    ).concat("。旧版仍保留在 ").concat(self.backup().as_str());
                    self.fail(message);
                },
            },
            (UpgradeStage::PutBack, InstallEvent::Did(r)) => match r {
                Ok(_) => {
                    self.stage = UpgradeStage::RemoveTakenOut;
                },
                Err(e) => {
                    let message = self.cause().concat("；恢复旧版失败：").concat(
                        e.as_str(),
                    ).concat("。旧版仍保留在 ").concat(self.backup().as_str());
                    self.error = Some(message);
                    self.stage = UpgradeStage::Reinstate;
                },
            },
            (UpgradeStage::Reinstate, InstallEvent::Did(_)) => {
                self.stage = UpgradeStage::RemoveTrial;
            },
            (UpgradeStage::RemoveTakenOut, InstallEvent::Did(_)) => {
                self.stage = UpgradeStage::RemoveTrial;
            },
            (UpgradeStage::RemoveBackup, InstallEvent::Did(_)) => {
                tell(
                    &mut notes,
                    InstallNote::Progress {
                        phase: "complete",
                        message: "DSH 升级完成，将在下次启动时生效",
                        percent: 100,
                    },
                );
                self.stage = UpgradeStage::RemoveTrial;
            },
            (UpgradeStage::RemoveTrial, InstallEvent::Did(_)) => {
                self.stage = UpgradeStage::RemoveStaging;
            },
            (UpgradeStage::RemoveStaging, InstallEvent::Did(_)) => {
                self.stage = UpgradeStage::Done;
            },
            _ => {},
        }
        assert(install::notes_view(notes@) =~= want.1);
        notes
    }
}

// ---------------------------------------------------------------------------
// The version in use is never lost
// ---------------------------------------------------------------------------

/// A runtime: the one that was in use, or the one that the upgrade brings.
#[derive(Debug, Clone, Copy, PartialEq, Eq, Structural)]
pub enum Version {
    Old,
    New,
}

/// Which runtime is in which directory.
pub struct UpgradeDisk {
    pub current: Option<Version>,
    pub staging: Option<Version>,
    pub backup: Option<Version>,
    pub taken_out: Option<Version>,
    /// The marker names the new version.
    pub named: bool,
}

/// What the action of a stage that ended this way leaves on disk.
pub open spec fn upgrade_disk(d: UpgradeDisk, stage: UpgradeStage, event: InstallEvent) -> UpgradeDisk {
    match (stage, event) {
        (UpgradeStage::ClearStaging, InstallEvent::Did(Ok(_))) => UpgradeDisk {
            staging: None,
            ..d
        },
        (UpgradeStage::ClearBackup, InstallEvent::Did(Ok(_))) => UpgradeDisk { backup: None, ..d },
        (UpgradeStage::ClearFailed, InstallEvent::Did(Ok(_))) => UpgradeDisk {
            taken_out: None,
            ..d
        },
        (UpgradeStage::Npm, InstallEvent::Ran(_)) => UpgradeDisk {
            staging: Some(Version::New),
            ..d
        },
        (UpgradeStage::SetAside, InstallEvent::Did(Ok(_))) => UpgradeDisk {
            backup: d.current,
            current: None,
            ..d
        },
        (UpgradeStage::Enable, InstallEvent::Did(Ok(_))) => UpgradeDisk {
            current: d.staging,
            staging: None,
            ..d
        },
        (UpgradeStage::Restore, InstallEvent::Did(Ok(_))) => UpgradeDisk {
            current: d.backup,
            backup: None,
            ..d
        },
        (UpgradeStage::WriteMarker, InstallEvent::Ran(Ok(_))) => UpgradeDisk {
            named: true,
            ..d
        },
        (UpgradeStage::TakeOut, InstallEvent::Did(Ok(_))) => UpgradeDisk {
            taken_out: d.current,
            current: None,
            ..d
        },
        (UpgradeStage::PutBack, InstallEvent::Did(Ok(_))) => UpgradeDisk {
            current: d.backup,
            backup: None,
            ..d
        },
        (UpgradeStage::Reinstate, InstallEvent::Did(Ok(_))) => UpgradeDisk {
            current: d.taken_out,
            taken_out: None,
            ..d
        },
        (UpgradeStage::RemoveTakenOut, InstallEvent::Did(Ok(_))) => UpgradeDisk {
            taken_out: None,
            ..d
        },
        (UpgradeStage::RemoveBackup, InstallEvent::Did(Ok(_))) => UpgradeDisk {
            backup: None,
            ..d
        },
        (UpgradeStage::RemoveStaging, InstallEvent::Did(Ok(_))) => UpgradeDisk {
            staging: None,
            ..d
        },
        _ => d,
    }
}

/// Where the upgrade and the disk are after a sequence of events.
pub open spec fn upgrade_run(v: UpgradeView, d: UpgradeDisk, events: Seq<InstallEvent>) -> (
    UpgradeView,
    UpgradeDisk,
)
    decreases events.len(),
{
    if events.len() == 0 {
        (v, d)
    } else {
        let (v1, d1) = upgrade_run(v, d, events.drop_last());
        (upgrade_advanced(v1, events.last()).0, upgrade_disk(d1, v1.stage, events.last()))
    }
}

spec fn upgrade_safe(v: UpgradeView, d: UpgradeDisk) -> bool {
    match v.stage {
        UpgradeStage::ClearStaging | UpgradeStage::ClearBackup | UpgradeStage::ClearFailed
        | UpgradeStage::Latest | UpgradeStage::Npm => v.error is None && d.current == Some(
            Version::Old,
        ) && !d.named,
        UpgradeStage::WriteTrial | UpgradeStage::Probe | UpgradeStage::SetAside => v.error is None
            && d.current == Some(Version::Old) && d.staging == Some(Version::New) && !d.named,
        UpgradeStage::Enable => v.error is None && d.backup == Some(Version::Old) && d.staging
            == Some(Version::New) && !d.named,
        UpgradeStage::Restore => v.error is Some && d.backup == Some(Version::Old) && !d.named,
        UpgradeStage::WriteMarker => v.error is None && d.current == Some(Version::New) && d.backup
            == Some(Version::Old) && !d.named,
        UpgradeStage::TakeOut | UpgradeStage::PutBack | UpgradeStage::Reinstate => v.error is Some
            && d.backup == Some(Version::Old) && !d.named,
        UpgradeStage::RemoveTakenOut => v.error is Some && d.current == Some(Version::Old)
            && !d.named,
        UpgradeStage::RemoveBackup => v.error is None && d.current == Some(Version::New)
            && d.named,
        UpgradeStage::RemoveTrial | UpgradeStage::RemoveStaging | UpgradeStage::Done => match v.error {
            None => d.current == Some(Version::New) && d.named,
            Some(_) => (d.current == Some(Version::Old) || d.backup == Some(Version::Old))
                && !d.named,
        },
    }
}

proof fn lemma_upgrade_run(v: UpgradeView, d: UpgradeDisk, events: Seq<InstallEvent>)
    requires
        upgrade_safe(v, d),
    ensures
        ({
            let (v2, d2) = upgrade_run(v, d, events);
            upgrade_safe(v2, d2)
        }),
    decreases events.len(),
{
    if events.len() > 0 {
        lemma_upgrade_run(v, d, events.drop_last());
    }
}

/// Whatever happens on the way, the version that was in use is still in its place or in the
/// backup until the marker names the new one, and then the new one is in its place.
pub proof fn the_version_in_use_is_never_lost(
    v: UpgradeView,
    d: UpgradeDisk,
    events: Seq<InstallEvent>,
)
    requires
        v.stage == UpgradeStage::ClearStaging,
        v.error is None,
        d.current == Some(Version::Old),
        !d.named,
    ensures
        ({
            let (v2, d2) = upgrade_run(v, d, events);
            if d2.named {
                d2.current == Some(Version::New)
            } else {
                d2.current == Some(Version::Old) || d2.backup == Some(Version::Old)
            }
        }),
{
    lemma_upgrade_run(v, d, events);
}

/// An upgrade that ends without an error has put the new version in place and named it; one
/// that ends with an error has not named it.
pub proof fn an_upgrade_is_complete_or_refused(
    v: UpgradeView,
    d: UpgradeDisk,
    events: Seq<InstallEvent>,
)
    requires
        v.stage == UpgradeStage::ClearStaging,
        v.error is None,
        d.current == Some(Version::Old),
        !d.named,
    ensures
        ({
            let (v2, d2) = upgrade_run(v, d, events);
            v2.stage == UpgradeStage::Done ==> if v2.error is None {
                d2.current == Some(Version::New) && d2.named
            } else {
                !d2.named
            }
        }),
{
    lemma_upgrade_run(v, d, events);
}

spec fn upgrade_keeps(a: UpgradeView, v: UpgradeView) -> bool {
    &&& v.host == a.host && v.root == a.root && v.schema == a.schema
    &&& v.node_version == a.node_version && v.use_mirror == a.use_mirror
    &&& match v.stage {
        UpgradeStage::WriteMarker | UpgradeStage::RemoveBackup => v.error is None && v.dsh_version
            == v.expected,
        UpgradeStage::RemoveTrial | UpgradeStage::RemoveStaging | UpgradeStage::Done => v.error is None
            ==> v.dsh_version == v.expected,
        UpgradeStage::Restore | UpgradeStage::TakeOut | UpgradeStage::PutBack
        | UpgradeStage::Reinstate | UpgradeStage::RemoveTakenOut => v.error is Some,
        _ => v.error is None,
    }
}

proof fn lemma_upgrade_keeps(a: UpgradeView, v: UpgradeView, d: UpgradeDisk, events: Seq<InstallEvent>)
    requires
        upgrade_keeps(a, v),
    ensures
        upgrade_keeps(a, upgrade_run(v, d, events).0),
    decreases events.len(),
{
    if events.len() > 0 {
        lemma_upgrade_keeps(a, v, d, events.drop_last());
    }
}

/// An upgrade keeps the version of Node and the source of the installation; the version that
/// it names at the end is the one that it asked for and npm installed.
pub proof fn an_upgrade_changes_the_version_of_dsh_only(
    v: UpgradeView,
    d: UpgradeDisk,
    events: Seq<InstallEvent>,
)
    requires
        v.stage == UpgradeStage::ClearStaging,
        v.error is None,
    ensures
        ({
            let v2 = upgrade_run(v, d, events).0;
            &&& v2.root == v.root && v2.schema == v.schema
            &&& v2.node_version == v.node_version
            &&& v2.use_mirror == v.use_mirror
            &&& v2.stage == UpgradeStage::Done && v2.error is None ==> v2.dsh_version
                == v2.expected
        }),
{
    lemma_upgrade_keeps(v, v, d, events);
}

/// The version that an upgrade installs is the latest of the source that the marker names.
pub proof fn the_latest_version_is_brought(v: UpgradeView, event: InstallEvent)
    requires
        upgrade_advanced(v, event).0.stage == UpgradeStage::Npm,
        v.stage != UpgradeStage::Npm,
    ensures
        v.stage == UpgradeStage::Latest,
        event matches InstallEvent::Latest(answer) && managed::latest_of(answer) == Ok::<
            Seq<char>,
            Seq<char>,
        >(upgrade_advanced(v, event).0.expected),
        upgrade_advanced(v, event).0.use_mirror == v.use_mirror,
{
}

/// The version in use is set aside only once the new one has reported the version that was
/// meant to be installed.
pub proof fn only_a_tried_version_replaces_the_one_in_use(v: UpgradeView, event: InstallEvent)
    requires
        upgrade_advanced(v, event).0.stage == UpgradeStage::SetAside,
        v.stage != UpgradeStage::SetAside,
    ensures
        v.stage == UpgradeStage::Probe,
        event matches InstallEvent::Text(Ok(actual)) && actual@ == v.expected,
{
}

// ---------------------------------------------------------------------------
// The move to the present layout
// ---------------------------------------------------------------------------

#[derive(Debug, Clone, Copy, PartialEq, Eq, Structural)]
pub enum MigrateStage {
    /// Whether this is an installation must be found out.
    CheckMarker,
    /// Whether there is a runtime under its first name must be found out.
    CheckLegacy,
    /// Whether there is one under its present name must be found out.
    CheckRuntime,
    Move,
    /// Whether the runtime holds DSH must be found out.
    CheckScript,
    /// Whether there is an entry must be found out.
    CheckEntry,
    WriteEntry,
    /// The entry could not be written; whether something is in its place must be found out.
    CheckLeft,
    /// What is there of the entry must be removed.
    RemoveLeft,
    MoveBack,
    /// Whether there is an entry under its first name must be found out.
    CheckLegacyEntry,
    WriteLegacyEntry,
    Done,
}

#[derive(Debug)]
pub struct Migrate {
    pub host: PlatformTarget,
    pub root: String,
    pub renamed: bool,
    pub stage: MigrateStage,
    pub error: Option<String>,
}

#[verifier::ext_equal]
pub struct MigrateView {
    pub host: PlatformTarget,
    pub root: Seq<char>,
    pub renamed: bool,
    pub stage: MigrateStage,
    pub error: Option<Seq<char>>,
}

impl View for Migrate {
    type V = MigrateView;

    open spec fn view(&self) -> MigrateView {
        MigrateView {
            host: self.host,
            root: self.root@,
            renamed: self.renamed,
            stage: self.stage,
            error: text::opt_text(self.error),
        }
    }
}

impl MigrateView {
    pub open spec fn at(self, stage: MigrateStage) -> MigrateView {
        MigrateView { stage, ..self }
    }

    pub open spec fn failed(self, message: Seq<char>) -> MigrateView {
        MigrateView { stage: MigrateStage::Done, error: Some(message), ..self }
    }

    pub open spec fn legacy(self) -> Seq<char> {
        path::join(self.host, self.root, "dsh"@)
    }

    pub open spec fn runtime(self) -> Seq<char> {
        managed::runtime_of(self.host, self.root)
    }

    /// Nothing of the entry is left; a runtime that was renamed gets its first name back.
    pub open spec fn undone(self) -> MigrateView {
        self.at(
            if self.renamed {
                MigrateStage::MoveBack
            } else {
                MigrateStage::Done
            },
        )
    }

    /// The runtime and the entry are in order; the entry under its first name is next. It is
    /// written where the runtime was just renamed, and where there is one.
    pub open spec fn settled(self) -> MigrateView {
        self.at(
            if self.renamed {
                MigrateStage::WriteLegacyEntry
            } else {
                MigrateStage::CheckLegacyEntry
            },
        )
    }
}

pub open spec fn migration_of(host: PlatformTarget, root: Seq<char>) -> MigrateView {
    MigrateView { host, root, renamed: false, stage: MigrateStage::CheckMarker, error: None }
}

/// The migration after an event. What answers another question changes nothing.
pub open spec fn migrate_advanced(v: MigrateView, event: InstallEvent) -> MigrateView {
    match (v.stage, event) {
        (MigrateStage::CheckMarker, InstallEvent::Found(found)) => v.at(
            if found {
                MigrateStage::CheckLegacy
            } else {
                MigrateStage::Done
            },
        ),
        (MigrateStage::CheckLegacy, InstallEvent::Found(found)) => v.at(
            if found {
                MigrateStage::CheckRuntime
            } else {
                MigrateStage::CheckScript
            },
        ),
        (MigrateStage::CheckRuntime, InstallEvent::Found(found)) => if found {
            v.failed(
                "托管目录状态异常："@ + v.legacy() + " 与 "@ + v.runtime()
                    + " 同时存在，请手动整理后重试"@,
            )
        } else {
            v.at(MigrateStage::Move)
        },
        (MigrateStage::Move, InstallEvent::Did(r)) => match r {
            Ok(_) => MigrateView { renamed: true, stage: MigrateStage::CheckScript, ..v },
            Err(e) => v.failed("迁移托管目录布局失败："@ + e@),
        },
        (MigrateStage::CheckScript, InstallEvent::Found(found)) => if found {
            v.at(MigrateStage::CheckEntry)
        } else {
            v.settled()
        },
        (MigrateStage::CheckEntry, InstallEvent::Found(found)) => if found {
            v.settled()
        } else {
            v.at(MigrateStage::WriteEntry)
        },
        (MigrateStage::WriteEntry, InstallEvent::Ran(r)) => match r {
            Ok(_) => v.settled(),
            Err(e) => v.failed("重建 dsh 入口失败："@ + e@).at(MigrateStage::CheckLeft),
        },
        (MigrateStage::CheckLeft, InstallEvent::Found(found)) => if found {
            v.at(MigrateStage::RemoveLeft)
        } else {
            v.undone()
        },
        (MigrateStage::RemoveLeft, InstallEvent::Did(_)) => v.undone(),
        (MigrateStage::MoveBack, InstallEvent::Did(_)) => v.at(MigrateStage::Done),
        (MigrateStage::CheckLegacyEntry, InstallEvent::Found(found)) => v.at(
            if found {
                MigrateStage::WriteLegacyEntry
            } else {
                MigrateStage::Done
            },
        ),
        (MigrateStage::WriteLegacyEntry, InstallEvent::Ran(_)) => v.at(MigrateStage::Done),
        _ => v,
    }
}

/// What the migration asks for.
#[derive(Debug)]
pub enum MigrateAction {
    IsFile(String),
    IsDir(String),
    Exists(String),
    Rename { from: String, to: String },
    RemoveFile(String),
    WriteScript { file: String, script: String },
    Finished,
}

pub open spec fn migrate_action_is(a: MigrateAction, v: MigrateView) -> bool {
    match v.stage {
        MigrateStage::CheckMarker => a matches MigrateAction::IsFile(f) && f@
            == managed::marker_of(v.host, v.root),
        MigrateStage::CheckLegacy => a matches MigrateAction::IsDir(f) && f@ == v.legacy(),
        MigrateStage::CheckRuntime => a matches MigrateAction::Exists(f) && f@ == v.runtime(),
        MigrateStage::Move => a matches MigrateAction::Rename { from, to } && from@ == v.legacy()
            && to@ == v.runtime(),
        MigrateStage::CheckScript => a matches MigrateAction::IsFile(f) && f@
            == managed::script_of(v.host, v.runtime()),
        MigrateStage::CheckEntry => a matches MigrateAction::IsFile(f) && f@ == managed::entry_of(
            v.host,
            v.root,
        ),
        MigrateStage::WriteEntry => a matches MigrateAction::WriteScript { file, script } && file@
            == managed::entry_of(v.host, v.root) && script@ == managed::entry_script(
            v.host,
            v.root,
            v.runtime(),
        ),
        MigrateStage::CheckLeft => a matches MigrateAction::Exists(f) && f@ == managed::entry_of(
            v.host,
            v.root,
        ),
        MigrateStage::RemoveLeft => a matches MigrateAction::RemoveFile(f) && f@
            == managed::entry_of(v.host, v.root),
        MigrateStage::MoveBack => a matches MigrateAction::Rename { from, to } && from@
            == v.runtime() && to@ == v.legacy(),
        MigrateStage::CheckLegacyEntry => a matches MigrateAction::IsFile(f) && f@
            == managed::legacy_entry_of(v.host, v.root),
        MigrateStage::WriteLegacyEntry => a matches MigrateAction::WriteScript { file, script }
            && file@ == managed::legacy_entry_of(v.host, v.root) && script@
            == managed::entry_script(v.host, v.root, v.runtime()),
        MigrateStage::Done => a is Finished,
    }
}

impl Migrate {
    /// Begins to bring an installation to the present layout.
    pub fn migrate_layout(host: PlatformTarget, root: &str) -> (r: Migrate)
        ensures
            r@ == migration_of(host, root@),
    {
        Migrate {
            host,
            root: root.to_string(),
            renamed: false,
            stage: MigrateStage::CheckMarker,
            error: None,
        }
    }

    fn legacy(&self) -> (r: String)
        ensures
            r@ == self@.legacy(),
    {
        child(self.host, self.root.as_str(), "dsh")
    }

    fn runtime(&self) -> (r: String)
        ensures
            r@ == self@.runtime(),
    {
        runtime_dir(self.host, self.root.as_str())
    }

    fn script(&self) -> (r: String)
        ensures
            r@ == managed::entry_script(self@.host, self@.root, self@.runtime()),
    {
        create_wrapper_for(self.host, self.root.as_str(), self.runtime().as_str())
    }

    /// The entry of the installation, once the migration has ended.
    pub fn outcome(&self) -> (r: Result<String, String>)
        ensures
            match self@.error {
                Some(e) => r matches Err(m) && m@ == e,
                None => r matches Ok(p) && p@ == managed::entry_of(self@.host, self@.root),
            },
    {
        match &self.error {
            Some(e) => Err(e.clone()),
            None => Ok(managed_dsh_path(self.host, self.root.as_str())),
        }
    }

    pub fn action(&self) -> (r: MigrateAction)
        ensures
            migrate_action_is(r, self@),
    {
        match self.stage {
            MigrateStage::CheckMarker => MigrateAction::IsFile(
                marker_path(self.host, self.root.as_str()),
            ),
            MigrateStage::CheckLegacy => MigrateAction::IsDir(self.legacy()),
            MigrateStage::CheckRuntime => MigrateAction::Exists(self.runtime()),
            MigrateStage::Move => MigrateAction::Rename {
                from: self.legacy(),
                to: self.runtime(),
            },
            MigrateStage::CheckScript => MigrateAction::IsFile(
                dsh_entry(self.host, self.runtime().as_str()),
            ),
            MigrateStage::CheckEntry => MigrateAction::IsFile(
                managed_dsh_path(self.host, self.root.as_str()),
            ),
            MigrateStage::WriteEntry => MigrateAction::WriteScript {
                file: managed_dsh_path(self.host, self.root.as_str()),
                script: self.script(),
            },
            MigrateStage::CheckLeft => MigrateAction::Exists(
                managed_dsh_path(self.host, self.root.as_str()),
            ),
            MigrateStage::RemoveLeft => MigrateAction::RemoveFile(
                managed_dsh_path(self.host, self.root.as_str()),
            ),
            MigrateStage::MoveBack => MigrateAction::Rename {
                from: self.runtime(),
                to: self.legacy(),
            },
            MigrateStage::CheckLegacyEntry => MigrateAction::IsFile(
                legacy_managed_dsh_path(self.host, self.root.as_str()),
            ),
            MigrateStage::WriteLegacyEntry => MigrateAction::WriteScript {
                file: legacy_managed_dsh_path(self.host, self.root.as_str()),
                script: self.script(),
            },
            MigrateStage::Done => MigrateAction::Finished,
        }
    }

    fn fail(&mut self, message: String)
        ensures
            final(self)@ == old(self)@.failed(message@),
    {
        self.error = Some(message);
        self.stage = MigrateStage::Done;
    }

    fn undo(&mut self)
        ensures
            final(self)@ == old(self)@.undone(),
    {
        self.stage = if self.renamed {
            MigrateStage::MoveBack
        } else {
            MigrateStage::Done
        };
    }

    fn settle(&mut self)
        ensures
            final(self)@ == old(self)@.settled(),
    {
        self.stage = if self.renamed {
            MigrateStage::WriteLegacyEntry
        } else {
            MigrateStage::CheckLegacyEntry
        };
    }

    /// Takes note of what became of the last action.
    pub fn advance(&mut self, event: InstallEvent)
        ensures
            final(self)@ == migrate_advanced(old(self)@, event),
    {
        match (self.stage, event) {
            (MigrateStage::CheckMarker, InstallEvent::Found(found)) => {
                self.stage = if found {
                    MigrateStage::CheckLegacy
                } else {
                    MigrateStage::Done
                };
            },
            (MigrateStage::CheckLegacy, InstallEvent::Found(found)) => {
                self.stage = if found {
                    MigrateStage::CheckRuntime
                } else {
                    MigrateStage::CheckScript
                };
            },
            (MigrateStage::CheckRuntime, InstallEvent::Found(found)) => {
                if found {
                    let message = "托管目录状态异常：".to_string().concat(
                        self.legacy().as_str(),
                    ).concat(" 与 ").concat(self.runtime().as_str()).concat(
                        " 同时存在，请手动整理后重试",
                    );
                    self.fail(message);
                } else {
                    self.stage = MigrateStage::Move;
                }
            },
            (MigrateStage::Move, InstallEvent::Did(r)) => match r {
                Ok(_) => {
                    self.renamed = true;
                    self.stage = MigrateStage::CheckScript;
                },
                Err(e) => self.fail(
                    "迁移托管目录布局失败：".to_string().concat(e.as_str()),
                ),
            },
            (MigrateStage::CheckScript, InstallEvent::Found(found)) => {
                if found {
                    self.stage = MigrateStage::CheckEntry;
                } else {
                    self.settle();
                }
            },
            (MigrateStage::CheckEntry, InstallEvent::Found(found)) => {
                if found {
                    self.settle();
                } else {
                    self.stage = MigrateStage::WriteEntry;
                }
            },
            (MigrateStage::WriteEntry, InstallEvent::Ran(r)) => match r {
                Ok(_) => self.settle(),
                Err(e) => {
                    self.fail("重建 dsh 入口失败：".to_string().concat(e.as_str()));
                    self.stage = MigrateStage::CheckLeft;
                },
            },
            (MigrateStage::CheckLeft, InstallEvent::Found(found)) => {
                if found {
                    self.stage = MigrateStage::RemoveLeft;
                } else {
                    self.undo();
                }
            },
            (MigrateStage::RemoveLeft, InstallEvent::Did(_)) => {
                self.undo();
            },
            (MigrateStage::MoveBack, InstallEvent::Did(_)) => {
                self.stage = MigrateStage::Done;
            },
            (MigrateStage::CheckLegacyEntry, InstallEvent::Found(found)) => {
                self.stage = if found {
                    MigrateStage::WriteLegacyEntry
                } else {
                    MigrateStage::Done
                };
            },
            (MigrateStage::WriteLegacyEntry, InstallEvent::Ran(_)) => {
                self.stage = MigrateStage::Done;
            },
            _ => {},
        }
    }
}

/// What is in the place of an entry.
#[derive(Debug, Clone, Copy, PartialEq, Eq, Structural)]
pub enum Entry {
    Missing,
    /// It was written in part, or not at all.
    Doubtful,
    /// It is there, with contents of its own.
    Present,
    /// It is there, with the script that starts the runtime under its present name.
    Current,
}

/// Where the runtime of an installation is, and what its entries are.
pub struct LayoutDisk {
    pub marker: bool,
    pub legacy: bool,
    pub runtime: bool,
    /// The runtime, wherever it is, holds DSH.
    pub script: bool,
    pub entry: Entry,
    /// The entry under its first name.
    pub legacy_entry: Entry,
}

/// A script that was written, or that could not be.
pub open spec fn entry_written(r: Result<(), String>) -> Entry {
    if r is Ok {
        Entry::Current
    } else {
        Entry::Doubtful
    }
}

/// What the action of a stage that ended this way leaves on disk. Where something may be
/// there in part, to look for it settles whether it is.
pub open spec fn layout_disk(d: LayoutDisk, stage: MigrateStage, event: InstallEvent) -> LayoutDisk {
    match (stage, event) {
        (MigrateStage::Move, InstallEvent::Did(Ok(_))) => LayoutDisk {
            legacy: false,
            runtime: true,
            ..d
        },
        (MigrateStage::WriteEntry, InstallEvent::Ran(r)) => LayoutDisk {
            entry: entry_written(r),
            ..d
        },
        (MigrateStage::CheckLeft, InstallEvent::Found(false)) => LayoutDisk {
            entry: Entry::Missing,
            ..d
        },
        (MigrateStage::RemoveLeft, InstallEvent::Did(Ok(_))) => LayoutDisk {
            entry: Entry::Missing,
            ..d
        },
        (MigrateStage::MoveBack, InstallEvent::Did(Ok(_))) => LayoutDisk {
            legacy: true,
            runtime: false,
            ..d
        },
        (MigrateStage::WriteLegacyEntry, InstallEvent::Ran(r)) => LayoutDisk {
            legacy_entry: entry_written(r),
            ..d
        },
        _ => d,
    }
}

/// The event tells the truth about the disk, and what was done can be undone: what is there
/// in part can be removed, and what was renamed can be renamed back.
pub open spec fn layout_truthful(d: LayoutDisk, stage: MigrateStage, event: InstallEvent) -> bool {
    match (stage, event) {
        (MigrateStage::CheckMarker, InstallEvent::Found(found)) => found == d.marker,
        (MigrateStage::CheckLegacy, InstallEvent::Found(found)) => found == d.legacy,
        (MigrateStage::CheckRuntime, InstallEvent::Found(found)) => found == d.runtime,
        (MigrateStage::CheckScript, InstallEvent::Found(found)) => found == (d.runtime
            && d.script),
        (MigrateStage::CheckEntry, InstallEvent::Found(found)) => found == (d.entry
            != Entry::Missing),
        (MigrateStage::RemoveLeft, InstallEvent::Did(r)) => r is Ok,
        (MigrateStage::MoveBack, InstallEvent::Did(r)) => r is Ok,
        (MigrateStage::CheckLegacyEntry, InstallEvent::Found(found)) => found == (d.legacy_entry
            != Entry::Missing),
        _ => true,
    }
}

/// Where the migration and the disk are after a sequence of events.
pub open spec fn migrate_run(v: MigrateView, d: LayoutDisk, events: Seq<InstallEvent>) -> (
    MigrateView,
    LayoutDisk,
)
    decreases events.len(),
{
    if events.len() == 0 {
        (v, d)
    } else {
        let (v1, d1) = migrate_run(v, d, events.drop_last());
        (migrate_advanced(v1, events.last()), layout_disk(d1, v1.stage, events.last()))
    }
}

pub open spec fn all_layout_truthful(
    v: MigrateView,
    d: LayoutDisk,
    events: Seq<InstallEvent>,
) -> bool
    decreases events.len(),
{
    events.len() == 0 || {
        let (v1, d1) = migrate_run(v, d, events.drop_last());
        all_layout_truthful(v, d, events.drop_last()) && layout_truthful(
            d1,
            v1.stage,
            events.last(),
        )
    }
}

/// No script could not be written.
pub open spec fn every_script_is_written(events: Seq<InstallEvent>) -> bool {
    forall|i: int|
        0 <= i < events.len() ==> (#[trigger] events[i] matches InstallEvent::Ran(r) ==> r is Ok)
}

/// The layout is the present one: no runtime under its first name, and an entry wherever
/// there is something to enter.
pub open spec fn is_present_layout(d: LayoutDisk) -> bool {
    !d.legacy && (d.runtime && d.script ==> d.entry == Entry::Present || d.entry == Entry::Current)
}

/// The state on the way from the disk `b`.
spec fn migrate_safe(v: MigrateView, b: LayoutDisk, d: LayoutDisk) -> bool {
    let moved = !d.legacy && d.runtime && b.legacy && !b.runtime;
    let in_place = d.runtime == b.runtime && d.legacy == b.legacy && !d.legacy;
    let here = if v.renamed {
        moved
    } else {
        in_place
    };
    &&& d.marker == b.marker
    &&& d.script == b.script
    &&& match v.stage {
        MigrateStage::CheckMarker => v.error is None && !v.renamed && d == b,
        MigrateStage::CheckLegacy => v.error is None && !v.renamed && d == b && b.marker,
        MigrateStage::CheckRuntime => v.error is None && !v.renamed && d == b && b.marker
            && b.legacy,
        MigrateStage::Move => v.error is None && !v.renamed && d == b && b.marker && b.legacy
            && !b.runtime,
        MigrateStage::CheckScript => v.error is None && b.marker && here && d.entry == b.entry
            && d.legacy_entry == b.legacy_entry,
        MigrateStage::CheckEntry => v.error is None && b.marker && d.runtime && d.script && here
            && d.entry == b.entry && d.legacy_entry == b.legacy_entry,
        MigrateStage::WriteEntry => v.error is None && b.marker && d.runtime && d.script
            && d.entry == Entry::Missing && here && d.entry == b.entry && d.legacy_entry
            == b.legacy_entry,
        MigrateStage::CheckLeft | MigrateStage::RemoveLeft => v.error is Some && here && b.entry
            == Entry::Missing && d.legacy_entry == b.legacy_entry,
        MigrateStage::MoveBack => v.error is Some && v.renamed && moved && d.entry == b.entry
            && d.legacy_entry == b.legacy_entry,
        MigrateStage::CheckLegacyEntry | MigrateStage::WriteLegacyEntry => v.error is None
            && is_present_layout(d),
        MigrateStage::Done => if v.error is None {
            d.marker ==> is_present_layout(d)
        } else {
            d == b
        },
    }
}

proof fn lemma_migrate_run(v: MigrateView, b: LayoutDisk, events: Seq<InstallEvent>)
    requires
        migrate_safe(v, b, b),
        b.entry != Entry::Doubtful,
        all_layout_truthful(v, b, events),
    ensures
        ({
            let (v2, d2) = migrate_run(v, b, events);
            migrate_safe(v2, b, d2)
        }),
    decreases events.len(),
{
    if events.len() > 0 {
        lemma_migrate_run(v, b, events.drop_last());
    }
}

/// A migration that succeeds leaves an installation in the present layout; one that fails,
/// though it may have written an entry in part, leaves the layout as it was.
pub proof fn a_migration_is_complete_or_undone(
    host: PlatformTarget,
    root: Seq<char>,
    before: LayoutDisk,
    events: Seq<InstallEvent>,
)
    requires
        before.entry != Entry::Doubtful,
        all_layout_truthful(migration_of(host, root), before, events),
    ensures
        ({
            let (v, d) = migrate_run(migration_of(host, root), before, events);
            v.stage == MigrateStage::Done ==> if v.error is None {
                before.marker ==> is_present_layout(d)
            } else {
                d == before
            }
        }),
{
    lemma_migrate_run(migration_of(host, root), before, events);
}

/// A directory that is no installation is left alone.
pub proof fn what_is_not_managed_is_not_migrated(
    host: PlatformTarget,
    root: Seq<char>,
    before: LayoutDisk,
    events: Seq<InstallEvent>,
)
    requires
        !before.marker,
        all_layout_truthful(migration_of(host, root), before, events),
    ensures
        migrate_run(migration_of(host, root), before, events).1 == before,
{
    lemma_stays(migration_of(host, root), before, events);
}

proof fn lemma_stays(v: MigrateView, before: LayoutDisk, events: Seq<InstallEvent>)
    requires
        v.stage == MigrateStage::CheckMarker || v.stage == MigrateStage::Done,
        !before.marker,
        all_layout_truthful(v, before, events),
    ensures
        ({
            let (v2, d2) = migrate_run(v, before, events);
            d2 == before && v2.error == v.error && (v2.stage == MigrateStage::CheckMarker
                || v2.stage == MigrateStage::Done)
        }),
    decreases events.len(),
{
    if events.len() > 0 {
        lemma_stays(v, before, events.drop_last());
    }
}

/// The entry under its first name, once the migration has come to it: there is none, or it
/// holds the script that starts the runtime.
spec fn forwards(v: MigrateView, d: LayoutDisk) -> bool {
    &&& v.renamed ==> v.stage != MigrateStage::CheckLegacyEntry
    &&& v.stage == MigrateStage::CheckLeft || v.stage == MigrateStage::RemoveLeft || v.stage
        == MigrateStage::MoveBack ==> v.error is Some
    &&& v.stage == MigrateStage::Done && v.error is None && d.marker ==> d.legacy_entry
        == Entry::Missing || d.legacy_entry == Entry::Current
}

proof fn lemma_forwards(v: MigrateView, b: LayoutDisk, events: Seq<InstallEvent>)
    requires
        v.stage == MigrateStage::CheckMarker,
        v.error is None,
        !v.renamed,
        all_layout_truthful(v, b, events),
        every_script_is_written(events),
    ensures
        ({
            let (v2, d2) = migrate_run(v, b, events);
            forwards(v2, d2) && d2.marker == b.marker
        }),
    decreases events.len(),
{
    if events.len() > 0 {
        let before = events.drop_last();
        assert forall|i: int| 0 <= i < before.len() implies (#[trigger] before[i] matches InstallEvent::Ran(
            r,
        ) ==> r is Ok) by {
            assert(before[i] == events[i]);
        }
        lemma_forwards(v, b, before);
        assert(events.last() == events[events.len() - 1]);
    }
}

/// A migration may be run again: after one that succeeded, and wrote what it set out to write,
/// a second one succeeds as well and leaves everything as it is, the contents of the entries
/// too.
pub proof fn a_second_migration_changes_nothing(
    host: PlatformTarget,
    root: Seq<char>,
    before: LayoutDisk,
    first: Seq<InstallEvent>,
    second: Seq<InstallEvent>,
)
    requires
        before.entry != Entry::Doubtful,
        all_layout_truthful(migration_of(host, root), before, first),
        every_script_is_written(first),
        ({
            let (v, d) = migrate_run(migration_of(host, root), before, first);
            &&& v.stage == MigrateStage::Done && v.error is None
            &&& all_layout_truthful(migration_of(host, root), d, second)
        }),
        every_script_is_written(second),
    ensures
        ({
            let between = migrate_run(migration_of(host, root), before, first).1;
            let (v, d) = migrate_run(migration_of(host, root), between, second);
            d == between && v.error is None
        }),
{
    let start = migration_of(host, root);
    let between = migrate_run(start, before, first).1;
    lemma_migrate_run(start, before, first);
    lemma_forwards(start, before, first);
    if between.marker {
        lemma_settled_stays(start, between, second);
    } else {
        lemma_stays(start, between, second);
    }
}

spec fn only_looks(v: MigrateView) -> bool {
    &&& v.error is None
    &&& !v.renamed
    &&& match v.stage {
        MigrateStage::CheckMarker | MigrateStage::CheckLegacy | MigrateStage::CheckScript
        | MigrateStage::CheckEntry | MigrateStage::CheckLegacyEntry
        | MigrateStage::WriteLegacyEntry | MigrateStage::Done => true,
        _ => false,
    }
}

proof fn lemma_settled_stays(v: MigrateView, before: LayoutDisk, events: Seq<InstallEvent>)
    requires
        only_looks(v),
        v.stage == MigrateStage::CheckMarker,
        is_present_layout(before),
        before.legacy_entry == Entry::Missing || before.legacy_entry == Entry::Current,
        all_layout_truthful(v, before, events),
        every_script_is_written(events),
    ensures
        ({
            let (v2, d2) = migrate_run(v, before, events);
            &&& d2 == before && only_looks(v2)
            &&& v2.stage == MigrateStage::CheckEntry ==> before.runtime && before.script
            &&& v2.stage == MigrateStage::WriteLegacyEntry ==> before.legacy_entry
                == Entry::Current
        }),
    decreases events.len(),
{
    if events.len() > 0 {
        let earlier = events.drop_last();
        assert forall|i: int| 0 <= i < earlier.len() implies (#[trigger] earlier[i] matches InstallEvent::Ran(
            r,
        ) ==> r is Ok) by {
            assert(earlier[i] == events[i]);
        }
        lemma_settled_stays(v, before, earlier);
        assert(events.last() == events[events.len() - 1]);
    }
}

} // verus!
