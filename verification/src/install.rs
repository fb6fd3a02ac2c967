//! The installation of Node and DSH into an empty directory.
//!
//! Everything is fetched and tried out in a staging directory first. The marker is written
//! last; an installation that fails before it leaves nothing behind.

use vstd::prelude::*;

use crate::config::PlatformTarget;
use crate::managed;
use crate::managed::{
    archive_top_dir, check_install_root, create_wrapper_for, dsh_entry, expected_checksum,
    fetch_latest_dsh, fetch_node_release, latest_dsh_url, managed_dsh_path, node_archive_name,
    node_executable, node_file_key, npm_cli, runtime_dir, status_from, validate_install_root,
    verify_sha256, LatestAnswer, ManagedStatus, Marker, NodeRelease, RootState,
};
use crate::path;
use crate::path::child;
use crate::text;
use crate::text::{chars_of, equal, string_of, stripped_start};

verus! {

// ---------------------------------------------------------------------------
// What may go wrong outside
// ---------------------------------------------------------------------------

/// What was being done when something failed.
#[derive(Debug, Clone, Copy)]
pub enum Doing {
    Request,
    ReadResponse,
    ReadNodeList,
    MakeStaging,
    DownloadNode,
    CreateDownload,
    ReadDownload,
    SaveDownload,
    OpenDownload,
    HashDownload,
    MakeExtracted,
    OpenArchive,
    ReadArchive,
    ReadEntry,
    ReadEntryPath,
    ReadZip,
    ReadZipEntry,
    MakeEntryDir,
    MakeEntryFile,
    WriteEntryFile,
    Extract,
    MakePrefix,
    MakeGlobalPrefix,
    RunNpm,
    WatchNpm,
    Tidy,
    EnableNode,
    EnableDsh,
    WriteScript,
    MarkScript,
    WriteMarker,
    ReplaceMarker,
    SaveMarker,
}

pub open spec fn doing_text(d: Doing) -> Seq<char> {
    match d {
        Doing::Request => "网络请求失败："@,
        Doing::ReadResponse => "读取网络响应失败："@,
        Doing::ReadNodeList => "解析 Node 版本列表失败："@,
        Doing::MakeStaging => "创建安装临时目录失败："@,
        Doing::DownloadNode => "下载 Node 失败："@,
        Doing::CreateDownload => "创建下载文件失败："@,
        Doing::ReadDownload => "读取 Node 下载内容失败："@,
        Doing::SaveDownload => "保存 Node 下载文件失败："@,
        Doing::OpenDownload => "读取 Node 下载文件失败："@,
        Doing::HashDownload => "计算 Node 校验值失败："@,
        Doing::MakeExtracted => "创建解压目录失败："@,
        Doing::OpenArchive => "打开 Node 压缩包失败："@,
        Doing::ReadArchive => "读取 Node 压缩包失败："@,
        Doing::ReadEntry => "读取 Node 压缩项失败："@,
        Doing::ReadEntryPath => "读取 Node 压缩路径失败："@,
        Doing::ReadZip => "读取 Node zip 失败："@,
        Doing::ReadZipEntry => "读取 Node zip 项失败："@,
        Doing::MakeEntryDir => "创建 Node 解压目录失败："@,
        Doing::MakeEntryFile => "创建 Node 解压文件失败："@,
        Doing::WriteEntryFile => "解压 Node 文件失败："@,
        Doing::Extract => "解压 Node 失败："@,
        Doing::MakePrefix => "创建 DSH 安装目录失败："@,
        Doing::MakeGlobalPrefix => "创建 DSH 全局安装目录失败："@,
        Doing::RunNpm => "执行 npm 安装失败："@,
        Doing::WatchNpm => "检查 npm 安装状态失败："@,
        Doing::Tidy => "整理 DSH 安装目录失败："@,
        Doing::EnableNode => "启用 Node 失败："@,
        Doing::EnableDsh => "启用 DSH 失败："@,
        Doing::WriteScript => "创建 DSH 启动脚本失败："@,
        Doing::MarkScript => "设置 DSH 启动脚本权限失败："@,
        Doing::WriteMarker => "写入托管环境标记失败："@,
        Doing::ReplaceMarker => "替换旧托管环境标记失败："@,
        Doing::SaveMarker => "保存托管环境标记失败："@,
    }
}

/// What is said of a failure.
pub fn failure(d: Doing, error: &str) -> (r: String)
    ensures
        r@ == doing_text(d) + error@,
{
    let what = match d {
        Doing::Request => "网络请求失败：",
        Doing::ReadResponse => "读取网络响应失败：",
        Doing::ReadNodeList => "解析 Node 版本列表失败：",
        Doing::MakeStaging => "创建安装临时目录失败：",
        Doing::DownloadNode => "下载 Node 失败：",
        Doing::CreateDownload => "创建下载文件失败：",
        Doing::ReadDownload => "读取 Node 下载内容失败：",
        Doing::SaveDownload => "保存 Node 下载文件失败：",
        Doing::OpenDownload => "读取 Node 下载文件失败：",
        Doing::HashDownload => "计算 Node 校验值失败：",
        Doing::MakeExtracted => "创建解压目录失败：",
        Doing::OpenArchive => "打开 Node 压缩包失败：",
        Doing::ReadArchive => "读取 Node 压缩包失败：",
        Doing::ReadEntry => "读取 Node 压缩项失败：",
        Doing::ReadEntryPath => "读取 Node 压缩路径失败：",
        Doing::ReadZip => "读取 Node zip 失败：",
        Doing::ReadZipEntry => "读取 Node zip 项失败：",
        Doing::MakeEntryDir => "创建 Node 解压目录失败：",
        Doing::MakeEntryFile => "创建 Node 解压文件失败：",
        Doing::WriteEntryFile => "解压 Node 文件失败：",
        Doing::Extract => "解压 Node 失败：",
        Doing::MakePrefix => "创建 DSH 安装目录失败：",
        Doing::MakeGlobalPrefix => "创建 DSH 全局安装目录失败：",
        Doing::RunNpm => "执行 npm 安装失败：",
        Doing::WatchNpm => "检查 npm 安装状态失败：",
        Doing::Tidy => "整理 DSH 安装目录失败：",
        Doing::EnableNode => "启用 Node 失败：",
        Doing::EnableDsh => "启用 DSH 失败：",
        Doing::WriteScript => "创建 DSH 启动脚本失败：",
        Doing::MarkScript => "设置 DSH 启动脚本权限失败：",
        Doing::WriteMarker => "写入托管环境标记失败：",
        Doing::ReplaceMarker => "替换旧托管环境标记失败：",
        Doing::SaveMarker => "保存托管环境标记失败：",
    };
    what.to_string().concat(error)
}

/// One installation or upgrade at a time.
#[derive(Debug)]
pub struct OperationGuard {
    pub active: bool,
}

impl OperationGuard {
    pub fn acquire(&mut self) -> (r: Result<(), String>)
        ensures
            final(self).active,
            match r {
                Ok(_) => !old(self).active,
                Err(e) => old(self).active && e@ == "已有安装或升级任务正在进行"@,
            },
    {
        if self.active {
            return Err("已有安装或升级任务正在进行".to_string());
        }
        self.active = true;
        Ok(())
    }

    pub fn release(&mut self)
        ensures
            !final(self).active,
    {
        self.active = false;
    }
}

// ---------------------------------------------------------------------------
// npm
// ---------------------------------------------------------------------------

/// How many seconds npm may take, and after how many its work is mentioned.
pub const NPM_INSTALL_TIMEOUT_SECS: u64 = 1200;

pub const NPM_HEARTBEAT_SECS: u64 = 15;

pub const NPM_POLL_MILLIS: u64 = 250;

pub open spec fn registry(use_mirror: bool) -> Seq<char> {
    if use_mirror {
        "https://registry.npmmirror.com"@
    } else {
        "https://registry.npmjs.org"@
    }
}

/// The arguments with which Node runs npm to install one version of DSH.
pub open spec fn npm_arguments(
    host: PlatformTarget,
    node_root: Seq<char>,
    prefix: Seq<char>,
    use_mirror: bool,
    version: Seq<char>,
) -> Seq<Seq<char>> {
    seq![
        path::join(
            host,
            node_root,
            if host == PlatformTarget::Windows {
                "node_modules/npm/bin/npm-cli.js"@
            } else {
                "lib/node_modules/npm/bin/npm-cli.js"@
            },
        ),
        "install"@,
        "--global"@,
        "--no-audit"@,
        "--no-fund"@,
        "--no-progress"@,
        "--foreground-scripts"@,
        "--package-lock=false"@,
        "--strict-ssl"@,
        "--fetch-timeout=60000"@,
        "--fetch-retries=2"@,
        "--registry"@,
        registry(use_mirror),
        "--cache"@,
        path::join(host, prefix, ".npm-cache"@),
        "--prefix"@,
        prefix,
        "@deepseek-ai/dsh@"@ + version,
    ]
}

pub fn registry_of(use_mirror: bool) -> (r: &'static str)
    ensures
        r@ == registry(use_mirror),
{
    if use_mirror {
        managed::NPM_MIRROR_REGISTRY
    } else {
        managed::NPM_OFFICIAL_REGISTRY
    }
}

pub fn npm_args(
    host: PlatformTarget,
    node_root: &str,
    prefix: &str,
    use_mirror: bool,
    version: &str,
) -> (r: Vec<String>)
    ensures
        text::texts(r@) == npm_arguments(host, node_root@, prefix@, use_mirror, version@),
{
    let mut a: Vec<String> = Vec::new();
    a.push(npm_cli(host, node_root));
    a.push("install".to_string());
    a.push("--global".to_string());
    a.push("--no-audit".to_string());
    a.push("--no-fund".to_string());
    a.push("--no-progress".to_string());
    a.push("--foreground-scripts".to_string());
    a.push("--package-lock=false".to_string());
    a.push("--strict-ssl".to_string());
    a.push("--fetch-timeout=60000".to_string());
    a.push("--fetch-retries=2".to_string());
    a.push("--registry".to_string());
    a.push(registry_of(use_mirror).to_string());
    a.push("--cache".to_string());
    a.push(child(host, prefix, ".npm-cache"));
    a.push("--prefix".to_string());
    a.push(prefix.to_string());
    a.push("@deepseek-ai/dsh@".to_string().concat(version));
    assert(text::texts(a@) =~= npm_arguments(host, node_root@, prefix@, use_mirror, version@));
    a
}

/// How far npm's part has come.
#[derive(Debug)]
pub enum NpmStage {
    MakePrefix,
    MakeLib,
    Spawn,
    Wait,
    /// npm took too long and must be ended.
    Kill,
    MoveModules,
    RemoveLib,
    RemoveBin,
    RemoveCache,
    CheckEntry,
    Done(Result<(), String>),
}

#[verifier::ext_equal]
pub enum NpmStageView {
    MakePrefix,
    MakeLib,
    Spawn,
    Wait,
    Kill,
    MoveModules,
    RemoveLib,
    RemoveBin,
    RemoveCache,
    CheckEntry,
    Done(Result<(), Seq<char>>),
}

pub open spec fn npm_stage_view(s: NpmStage) -> NpmStageView {
    match s {
        NpmStage::MakePrefix => NpmStageView::MakePrefix,
        NpmStage::MakeLib => NpmStageView::MakeLib,
        NpmStage::Spawn => NpmStageView::Spawn,
        NpmStage::Wait => NpmStageView::Wait,
        NpmStage::Kill => NpmStageView::Kill,
        NpmStage::MoveModules => NpmStageView::MoveModules,
        NpmStage::RemoveLib => NpmStageView::RemoveLib,
        NpmStage::RemoveBin => NpmStageView::RemoveBin,
        NpmStage::RemoveCache => NpmStageView::RemoveCache,
        NpmStage::CheckEntry => NpmStageView::CheckEntry,
        NpmStage::Done(r) => NpmStageView::Done(crate::process::outcome(r)),
    }
}

/// What npm's part asks for.
#[derive(Debug)]
pub enum NpmAction {
    MakeDir(String),
    /// Run Node with the arguments, in the prefix.
    Run { program: String, args: Vec<String> },
    Watch,
    Kill,
    Rename { from: String, to: String },
    RemoveDir(String),
    IsFile(String),
    Finished,
}

#[derive(Debug)]
pub enum NpmEvent {
    /// How an action ended; the error is the system's own.
    Did(Result<(), String>),
    /// Whether npm has exited, with which status and whether well; or whether time is up.
    Exited { success: bool, status: String },
    Running { expired: bool },
    Found(bool),
}

#[derive(Debug)]
pub struct NpmInstall {
    pub host: PlatformTarget,
    pub node_root: String,
    pub prefix: String,
    pub use_mirror: bool,
    pub version: String,
    pub stage: NpmStage,
}

/// The part of npm before anything was done: this version, from this source, with Node here
/// and into this directory.
pub open spec fn npm_begins(
    npm: NpmInstall,
    host: PlatformTarget,
    node_root: Seq<char>,
    prefix: Seq<char>,
    use_mirror: bool,
    version: Seq<char>,
) -> bool {
    &&& npm.host == host
    &&& npm.node_root@ == node_root
    &&& npm.prefix@ == prefix
    &&& npm.use_mirror == use_mirror
    &&& npm.version@ == version
    &&& npm.stage is MakePrefix
}

/// Where npm's part is after an event. What answers another question changes nothing.
pub open spec fn npm_advanced(host: PlatformTarget, s: NpmStageView, event: NpmEvent) -> NpmStageView {
    match (s, event) {
        (NpmStageView::MakePrefix, NpmEvent::Did(r)) => match r {
            Ok(_) => if host == PlatformTarget::Windows {
                NpmStageView::Spawn
            } else {
                NpmStageView::MakeLib
            },
            Err(e) => NpmStageView::Done(Err(doing_text(Doing::MakePrefix) + e@)),
        },
        (NpmStageView::MakeLib, NpmEvent::Did(r)) => match r {
            Ok(_) => NpmStageView::Spawn,
            Err(e) => NpmStageView::Done(Err(doing_text(Doing::MakeGlobalPrefix) + e@)),
        },
        (NpmStageView::Spawn, NpmEvent::Did(r)) => match r {
            Ok(_) => NpmStageView::Wait,
            Err(e) => NpmStageView::Done(Err(doing_text(Doing::RunNpm) + e@)),
        },
        (NpmStageView::Wait, NpmEvent::Did(Err(e))) => NpmStageView::Done(
            Err(doing_text(Doing::WatchNpm) + e@),
        ),
        (NpmStageView::Wait, NpmEvent::Running { expired }) => if expired {
            NpmStageView::Kill
        } else {
            NpmStageView::Wait
        },
        (NpmStageView::Wait, NpmEvent::Exited { success, status }) => if !success {
            NpmStageView::Done(Err("npm 退出状态："@ + status@ + "；详细信息见日志区"@))
        } else if host == PlatformTarget::Windows {
            NpmStageView::RemoveCache
        } else {
            NpmStageView::MoveModules
        },
        (NpmStageView::Kill, NpmEvent::Did(_)) => NpmStageView::Done(
            Err("npm 安装 DSH 超过 20 分钟，已终止"@),
        ),
        (NpmStageView::MoveModules, NpmEvent::Did(r)) => match r {
            Ok(_) => NpmStageView::RemoveLib,
            Err(e) => NpmStageView::Done(Err(doing_text(Doing::Tidy) + e@)),
        },
        (NpmStageView::RemoveLib, NpmEvent::Did(_)) => NpmStageView::RemoveBin,
        (NpmStageView::RemoveBin, NpmEvent::Did(_)) => NpmStageView::RemoveCache,
        (NpmStageView::RemoveCache, NpmEvent::Did(_)) => NpmStageView::CheckEntry,
        (NpmStageView::CheckEntry, NpmEvent::Found(found)) => if found {
            NpmStageView::Done(Ok(()))
        } else {
            NpmStageView::Done(Err("安装结束但 DSH 入口文件缺失"@))
        },
        _ => s,
    }
}

impl NpmInstall {
    pub fn new(
        host: PlatformTarget,
        node_root: String,
        prefix: String,
        use_mirror: bool,
        version: String,
    ) -> (r: NpmInstall)
        ensures
            npm_begins(r, host, node_root@, prefix@, use_mirror, version@),
    {
        NpmInstall { host, node_root, prefix, use_mirror, version, stage: NpmStage::MakePrefix }
    }

    pub open spec fn action_is(self, a: NpmAction) -> bool {
        match self.stage {
            NpmStage::MakePrefix => a matches NpmAction::MakeDir(d) && d@ == self.prefix@,
            NpmStage::MakeLib => a matches NpmAction::MakeDir(d) && d@ == path::join(
                self.host,
                self.prefix@,
                "lib"@,
            ),
            NpmStage::Spawn => a matches NpmAction::Run { program, args } && program@
                == managed::node_program(self.host, self.node_root@) && text::texts(args@)
                == npm_arguments(
                self.host,
                self.node_root@,
                self.prefix@,
                self.use_mirror,
                self.version@,
            ),
            NpmStage::Wait => a is Watch,
            NpmStage::Kill => a is Kill,
            NpmStage::MoveModules => a matches NpmAction::Rename { from, to } && from@
                == path::join(self.host, self.prefix@, "lib/node_modules"@) && to@ == path::join(
                self.host,
                self.prefix@,
                "node_modules"@,
            ),
            NpmStage::RemoveLib => a matches NpmAction::RemoveDir(d) && d@ == path::join(
                self.host,
                self.prefix@,
                "lib"@,
            ),
            NpmStage::RemoveBin => a matches NpmAction::RemoveDir(d) && d@ == path::join(
                self.host,
                self.prefix@,
                "bin"@,
            ),
            NpmStage::RemoveCache => a matches NpmAction::RemoveDir(d) && d@ == path::join(
                self.host,
                self.prefix@,
                ".npm-cache"@,
            ),
            NpmStage::CheckEntry => a matches NpmAction::IsFile(f) && f@ == managed::script_of(
                self.host,
                self.prefix@,
            ),
            NpmStage::Done(_) => a is Finished,
        }
    }

    pub fn action(&self) -> (r: NpmAction)
        ensures
            self.action_is(r),
    {
        let p = self.prefix.as_str();
        match self.stage {
            NpmStage::MakePrefix => NpmAction::MakeDir(self.prefix.clone()),
            NpmStage::MakeLib => NpmAction::MakeDir(child(self.host, p, "lib")),
            NpmStage::Spawn => NpmAction::Run {
                program: node_executable(self.host, self.node_root.as_str()),
                args: npm_args(
                    self.host,
                    self.node_root.as_str(),
                    p,
                    self.use_mirror,
                    self.version.as_str(),
                ),
            },
            NpmStage::Wait => NpmAction::Watch,
            NpmStage::Kill => NpmAction::Kill,
            NpmStage::MoveModules => NpmAction::Rename {
                from: child(self.host, p, "lib/node_modules"),
                to: child(self.host, p, "node_modules"),
            },
            NpmStage::RemoveLib => NpmAction::RemoveDir(child(self.host, p, "lib")),
            NpmStage::RemoveBin => NpmAction::RemoveDir(child(self.host, p, "bin")),
            NpmStage::RemoveCache => NpmAction::RemoveDir(child(self.host, p, ".npm-cache")),
            NpmStage::CheckEntry => NpmAction::IsFile(dsh_entry(self.host, p)),
            NpmStage::Done(_) => NpmAction::Finished,
        }
    }

    fn fail(&mut self, message: String)
        ensures
            npm_stage_view(final(self).stage) == NpmStageView::Done(Err(message@)),
            final(self).host == old(self).host,
            final(self).node_root == old(self).node_root,
            final(self).prefix == old(self).prefix,
            final(self).use_mirror == old(self).use_mirror,
            final(self).version == old(self).version,
    {
        self.stage = NpmStage::Done(Err(message));
    }

    /// Takes note of what became of the last action.
    pub fn npm_install(&mut self, event: NpmEvent)
        ensures
            npm_stage_view(final(self).stage) == npm_advanced(
                old(self).host,
                npm_stage_view(old(self).stage),
                event,
            ),
            final(self).host == old(self).host,
            final(self).node_root == old(self).node_root,
            final(self).prefix == old(self).prefix,
            final(self).use_mirror == old(self).use_mirror,
            final(self).version == old(self).version,
    {
        let windows = matches!(self.host, PlatformTarget::Windows);
        match (&self.stage, event) {
            (NpmStage::MakePrefix, NpmEvent::Did(r)) => match r {
                Ok(_) => {
                    self.stage = if windows {
                        NpmStage::Spawn
                    } else {
                        NpmStage::MakeLib
                    };
                },
                Err(e) => self.fail(failure(Doing::MakePrefix, e.as_str())),
            },
            (NpmStage::MakeLib, NpmEvent::Did(r)) => match r {
                Ok(_) => {
                    self.stage = NpmStage::Spawn;
                },
                Err(e) => self.fail(failure(Doing::MakeGlobalPrefix, e.as_str())),
            },
            (NpmStage::Spawn, NpmEvent::Did(r)) => match r {
                Ok(_) => {
                    self.stage = NpmStage::Wait;
                },
                Err(e) => self.fail(failure(Doing::RunNpm, e.as_str())),
            },
            (NpmStage::Wait, NpmEvent::Did(r)) => match r {
                Ok(_) => {},
                Err(e) => self.fail(failure(Doing::WatchNpm, e.as_str())),
            },
            (NpmStage::Wait, NpmEvent::Running { expired }) => {
                if expired {
                    self.stage = NpmStage::Kill;
                }
            },
            (NpmStage::Wait, NpmEvent::Exited { success, status }) => {
                if !success {
                    self.fail(
                        "npm 退出状态：".to_string().concat(status.as_str()).concat(
                            "；详细信息见日志区",
                        ),
                    );
                } else {
                    self.stage = if windows {
                        NpmStage::RemoveCache
                    } else {
                        NpmStage::MoveModules
                    };
                }
            },
            (NpmStage::Kill, NpmEvent::Did(_)) => {
                self.fail("npm 安装 DSH 超过 20 分钟，已终止".to_string());
            },
            (NpmStage::MoveModules, NpmEvent::Did(r)) => match r {
                Ok(_) => {
                    self.stage = NpmStage::RemoveLib;
                },
                Err(e) => self.fail(failure(Doing::Tidy, e.as_str())),
            },
            (NpmStage::RemoveLib, NpmEvent::Did(_)) => {
                self.stage = NpmStage::RemoveBin;
            },
            (NpmStage::RemoveBin, NpmEvent::Did(_)) => {
                self.stage = NpmStage::RemoveCache;
            },
            (NpmStage::RemoveCache, NpmEvent::Did(_)) => {
                self.stage = NpmStage::CheckEntry;
            },
            (NpmStage::CheckEntry, NpmEvent::Found(found)) => {
                if found {
                    self.stage = NpmStage::Done(Ok(()));
                } else {
                    self.fail("安装结束但 DSH 入口文件缺失".to_string());
                }
            },
            _ => {},
        }
    }
}

/// What the log says before npm is run.
pub fn npm_source_message(use_mirror: bool) -> (r: String)
    ensures
        r@ == "正在使用 npm 源安装 DSH："@ + registry(use_mirror),
{
    "正在使用 npm 源安装 DSH：".to_string().concat(registry_of(use_mirror))
}

// ---------------------------------------------------------------------------
// The installation
// ---------------------------------------------------------------------------

#[derive(Debug, Clone, Copy, PartialEq, Eq, Structural)]
pub enum InstallStage {
    /// The directory must be made and listed.
    Prepare,
    /// The Node releases must be listed.
    List,
    MakeStaging,
    Download,
    /// The list of checksums must be fetched.
    Checksums,
    /// The download must be read and verified.
    Verify,
    MakeExtracted,
    Extract,
    /// Whether the archive held Node must be found out.
    CheckNode,
    /// The latest version of DSH must be found out.
    Latest,
    Npm,
    MoveNode,
    MoveRuntime,
    /// The runtime could not be moved: Node must be moved back.
    UndoNode,
    WriteEntry,
    /// The version of what was installed must be found out.
    Probe,
    WriteMarker,
    RemoveStaging,
    /// Whether there is a marker must be found out.
    CheckMarker,
    RemoveNode,
    RemoveRuntime,
    RemoveEntry,
    Done,
}

#[derive(Debug)]
pub struct Install {
    pub host: PlatformTarget,
    pub arm: bool,
    pub root: String,
    pub use_mirror: bool,
    /// The version of Node, as its release names it.
    pub node_version: String,
    pub checksum: String,
    /// The version of DSH that is installed.
    pub dsh_version: String,
    pub stage: InstallStage,
    pub error: Option<String>,
}

#[verifier::ext_equal]
pub struct InstallView {
    pub host: PlatformTarget,
    pub arm: bool,
    pub root: Seq<char>,
    pub use_mirror: bool,
    pub node_version: Seq<char>,
    pub checksum: Seq<char>,
    pub dsh_version: Seq<char>,
    pub stage: InstallStage,
    pub error: Option<Seq<char>>,
}

impl View for Install {
    type V = InstallView;

    open spec fn view(&self) -> InstallView {
        InstallView {
            host: self.host,
            arm: self.arm,
            root: self.root@,
            use_mirror: self.use_mirror,
            node_version: self.node_version@,
            checksum: self.checksum@,
            dsh_version: self.dsh_version@,
            stage: self.stage,
            error: text::opt_text(self.error),
        }
    }
}

/// What became of the last action.
#[derive(Debug)]
pub enum InstallEvent {
    Root(RootState),
    Releases(Result<Vec<NodeRelease>, String>),
    /// Whether a plain action worked, with the system's error.
    Did(Result<(), String>),
    /// Whether a longer action worked, with what is to be said of its failure.
    Ran(Result<(), String>),
    Text(Result<String, String>),
    /// What the source of DSH says of the latest version.
    Latest(LatestAnswer),
    Bytes(Result<Vec<u8>, String>),
    Found(bool),
}

/// What the user is told on the way.
#[derive(Debug)]
pub enum InstallNote {
    Progress { phase: &'static str, message: &'static str, percent: u8 },
    Log(&'static str),
}

pub enum NoteView {
    Progress { phase: Seq<char>, message: Seq<char>, percent: u8 },
    Log(Seq<char>),
}

pub open spec fn note_view(n: InstallNote) -> NoteView {
    match n {
        InstallNote::Progress { phase, message, percent } => NoteView::Progress {
            phase: phase@,
            message: message@,
            percent,
        },
        InstallNote::Log(m) => NoteView::Log(m@),
    }
}

pub open spec fn notes_view(v: Seq<InstallNote>) -> Seq<NoteView> {
    v.map_values(|n: InstallNote| note_view(n))
}

pub open spec fn progress(phase: Seq<char>, message: Seq<char>, percent: u8) -> NoteView {
    NoteView::Progress { phase, message, percent }
}

impl InstallView {
    pub open spec fn at(self, stage: InstallStage) -> InstallView {
        InstallView { stage, ..self }
    }

    /// Refused before anything was done: there is nothing to clean up.
    pub open spec fn refused(self, message: Seq<char>) -> InstallView {
        InstallView { stage: InstallStage::Done, error: Some(message), ..self }
    }

    /// Failed: what was done must be cleaned up.
    pub open spec fn failed(self, message: Seq<char>) -> InstallView {
        InstallView { stage: InstallStage::RemoveStaging, error: Some(message), ..self }
    }

    pub open spec fn archive(self) -> Seq<char> {
        managed::archive_name(self.host, self.arm, self.node_version)
    }

    pub open spec fn staging(self) -> Seq<char> {
        path::join(self.host, self.root, ".dsh-launcher-staging"@)
    }

    pub open spec fn extracted(self) -> Seq<char> {
        path::join(self.host, self.staging(), "extracted"@)
    }

    pub open spec fn extracted_node(self) -> Seq<char> {
        path::join(
            self.host,
            self.extracted(),
            managed::without_suffixes(
                managed::without_suffixes(self.archive(), ".tar.gz"@),
                ".zip"@,
            ),
        )
    }

    pub open spec fn staged_dsh(self) -> Seq<char> {
        path::join(self.host, self.staging(), "dsh-runtime"@)
    }

    pub open spec fn node(self) -> Seq<char> {
        path::join(self.host, self.root, "node"@)
    }
}

/// How an installation begins.
pub open spec fn install_of(
    host: PlatformTarget,
    arm: bool,
    root: Seq<char>,
    use_mirror: bool,
) -> InstallView {
    let v = InstallView {
        host,
        arm,
        root,
        use_mirror,
        node_version: Seq::empty(),
        checksum: Seq::empty(),
        dsh_version: Seq::empty(),
        stage: InstallStage::Prepare,
        error: None,
    };
    if path::is_absolute(host, root) {
        v
    } else {
        v.refused("安装目录必须是绝对路径"@)
    }
}

/// Where the installation goes after an action that only may work or fail.
pub open spec fn next_or_failed(
    v: InstallView,
    r: Result<(), String>,
    doing: Option<Doing>,
    next: InstallStage,
) -> InstallView {
    match r {
        Ok(_) => v.at(next),
        Err(e) => v.failed(
            match doing {
                Some(d) => doing_text(d) + e@,
                None => e@,
            },
        ),
    }
}

/// The installation after an event. What answers another question changes nothing.
pub open spec fn install_advanced(v: InstallView, event: InstallEvent) -> (InstallView, Seq<
    NoteView,
>) {
    match (v.stage, event) {
        (InstallStage::Prepare, InstallEvent::Root(state)) => match managed::root_complaint(
            v.host,
            v.root,
            state,
        ) {
            Some(e) => (v.refused(e), seq![]),
            None => (
                v.at(InstallStage::List),
                seq![progress("metadata"@, "正在获取最新 Node LTS..."@, 5)],
            ),
        },
        (InstallStage::List, InstallEvent::Releases(r)) => match r {
            Err(e) => (v.refused(e@), seq![]),
            Ok(releases) => {
                let key = managed::file_key(v.host, v.arm);
                let i = first_wanted(releases@, key);
                if 0 <= i < releases.len() {
                    (
                        InstallView {
                            node_version: releases@[i].version@,
                            stage: InstallStage::MakeStaging,
                            ..v
                        },
                        seq![],
                    )
                } else {
                    (
                        v.refused("Node 官方未提供当前平台架构的 LTS 包："@ + key),
                        seq![],
                    )
                }
            },
        },
        (InstallStage::MakeStaging, InstallEvent::Did(r)) => (
            next_or_failed(v, r, Some(Doing::MakeStaging), InstallStage::Download),
            if r is Ok {
                seq![
                    progress("download"@, "正在下载 Node LTS..."@, 15),
                    NoteView::Log(
                        if v.use_mirror {
                            "Node 使用国内镜像下载，SHA-256 校验清单仍来自 Node 官方"@
                        } else {
                            "Node 使用官方源下载"@
                        },
                    ),
                ]
            } else {
                seq![]
            },
        ),
        (InstallStage::Download, InstallEvent::Ran(r)) => (
            next_or_failed(v, r, None, InstallStage::Checksums),
            seq![],
        ),
        (InstallStage::Checksums, InstallEvent::Text(r)) => match r {
            Err(e) => (v.failed(e@), seq![]),
            Ok(list) => (
                match managed::checksum_in(text::lines(list@), v.archive()) {
                    Some(hash) => InstallView { checksum: hash, stage: InstallStage::Verify, ..v },
                    None => v.failed("Node 校验清单中没有目标文件"@),
                },
                seq![progress("verify"@, "正在校验 Node 下载文件..."@, 45)],
            ),
        },
        (InstallStage::Verify, InstallEvent::Bytes(r)) => match r {
            Err(e) => (v.failed(e@), seq![]),
            Ok(bytes) => if managed::checksum_matches(bytes@, v.checksum) {
                (
                    v.at(InstallStage::MakeExtracted),
                    seq![progress("extract"@, "正在解压 Node..."@, 55)],
                )
            } else {
                (v.failed("Node 下载文件 SHA-256 校验失败"@), seq![])
            },
        },
        (InstallStage::MakeExtracted, InstallEvent::Did(r)) => (
            next_or_failed(v, r, Some(Doing::MakeExtracted), InstallStage::Extract),
            seq![],
        ),
        (InstallStage::Extract, InstallEvent::Ran(r)) => (
            next_or_failed(v, r, None, InstallStage::CheckNode),
            seq![],
        ),
        (InstallStage::CheckNode, InstallEvent::Found(found)) => if found {
            (
                v.at(InstallStage::Latest),
                seq![progress("install"@, "正在安装 DSH..."@, 70)],
            )
        } else {
            (v.failed("Node 压缩包缺少可执行文件"@), seq![])
        },
        (InstallStage::Latest, InstallEvent::Latest(answer)) => match managed::latest_of(answer) {
            Err(e) => (v.failed(e), seq![]),
            Ok(version) => (
                InstallView { dsh_version: version, stage: InstallStage::Npm, ..v },
                seq![],
            ),
        },
        (InstallStage::Npm, InstallEvent::Ran(r)) => (
            next_or_failed(v, r, None, InstallStage::MoveNode),
            seq![],
        ),
        (InstallStage::MoveNode, InstallEvent::Did(r)) => (
            next_or_failed(v, r, Some(Doing::EnableNode), InstallStage::MoveRuntime),
            seq![],
        ),
        (InstallStage::MoveRuntime, InstallEvent::Did(r)) => match r {
            Ok(_) => (v.at(InstallStage::WriteEntry), seq![]),
            Err(e) => (
                InstallView {
                    stage: InstallStage::UndoNode,
                    error: Some(doing_text(Doing::EnableDsh) + e@),
                    ..v
                },
                seq![],
            ),
        },
        (InstallStage::UndoNode, InstallEvent::Did(_)) => (
            v.at(InstallStage::RemoveStaging),
            seq![],
        ),
        (InstallStage::WriteEntry, InstallEvent::Ran(r)) => (
            next_or_failed(v, r, None, InstallStage::Probe),
            seq![],
        ),
        (InstallStage::Probe, InstallEvent::Text(r)) => match r {
            Err(e) => (v.failed(e@), seq![]),
            Ok(actual) => if actual@ == v.dsh_version {
                (v.at(InstallStage::WriteMarker), seq![])
            } else {
                (
                    v.failed(
                        "DSH 版本校验失败：期望 "@ + v.dsh_version + "，实际 "@ + actual@,
                    ),
                    seq![],
                )
            },
        },
        (InstallStage::WriteMarker, InstallEvent::Ran(r)) => (
            next_or_failed(v, r, None, InstallStage::RemoveStaging),
            if r is Ok {
                seq![progress("complete"@, "Node 与 DSH 安装完成"@, 100)]
            } else {
                seq![]
            },
        ),
        (InstallStage::RemoveStaging, InstallEvent::Did(_)) => (
            v.at(
                if v.error is Some {
                    InstallStage::CheckMarker
                } else {
                    InstallStage::Done
                },
            ),
            seq![],
        ),
        (InstallStage::CheckMarker, InstallEvent::Found(found)) => (
            v.at(
                if found {
                    InstallStage::Done
                } else {
                    InstallStage::RemoveNode
                },
            ),
            seq![],
        ),
        (InstallStage::RemoveNode, InstallEvent::Did(_)) => (
            v.at(InstallStage::RemoveRuntime),
            seq![],
        ),
        (InstallStage::RemoveRuntime, InstallEvent::Did(_)) => (
            v.at(InstallStage::RemoveEntry),
            seq![],
        ),
        (InstallStage::RemoveEntry, InstallEvent::Did(_)) => (v.at(InstallStage::Done), seq![]),
        _ => (v, seq![]),
    }
}

/// The first release that is wanted; the number of releases where none is.
pub open spec fn first_wanted(releases: Seq<NodeRelease>, key: Seq<char>) -> int
    decreases releases.len(),
{
    if releases.len() == 0 || managed::is_wanted(releases[0], key) {
        0
    } else {
        1 + first_wanted(releases.skip(1), key)
    }
}

proof fn lemma_first_wanted(releases: Seq<NodeRelease>, key: Seq<char>, i: int)
    requires
        0 <= i <= releases.len(),
        forall|j: int| 0 <= j < i ==> !managed::is_wanted(#[trigger] releases[j], key),
        i < releases.len() ==> managed::is_wanted(releases[i], key),
    ensures
        first_wanted(releases, key) == i,
    decreases releases.len(),
{
    if releases.len() > 0 && i > 0 {
        assert(!managed::is_wanted(releases[0], key));
        let rest = releases.skip(1);
        assert forall|j: int| 0 <= j < i - 1 implies !managed::is_wanted(
            #[trigger] rest[j],
            key,
        ) by {
            assert(rest[j] == releases[j + 1]);
        }
        assert(i < releases.len() ==> rest[i - 1] == releases[i]);
        lemma_first_wanted(rest, key, i - 1);
    }
}

/// What the installation asks for.
#[derive(Debug)]
pub enum InstallAction {
    PrepareRoot,
    /// The Node releases, from this address.
    FetchReleases(&'static str),
    MakeDir(String),
    Download { url: String, to: String },
    FetchText(String),
    ReadFile(String),
    Extract { archive: String, to: String },
    IsFile(String),
    /// The latest version of DSH, from this address.
    LatestDsh(&'static str),
    /// Install DSH with npm, as this says.
    Npm(NpmInstall),
    Rename { from: String, to: String },
    WriteScript { file: String, script: String },
    Probe(String),
    WriteMarker(Marker),
    RemoveDir(String),
    RemoveFile(String),
    Finished,
}

pub open spec fn node_dist(use_mirror: bool) -> Seq<char> {
    if use_mirror {
        "https://npmmirror.com/mirrors/node"@
    } else {
        "https://nodejs.org/dist"@
    }
}

/// The marker of what was installed.
pub open spec fn is_new_marker(v: InstallView, m: Marker) -> bool {
    &&& m.schema == 1
    &&& m.node_version@ == text::strip_start_of(v.node_version, seq!['v'])
    &&& m.dsh_version@ == v.dsh_version
    &&& m.use_mirror == v.use_mirror
}

pub open spec fn install_action_is(a: InstallAction, v: InstallView) -> bool {
    match v.stage {
        InstallStage::Prepare => a is PrepareRoot,
        InstallStage::List => a matches InstallAction::FetchReleases(u) && u@ == (
        if v.use_mirror {
            "https://npmmirror.com/mirrors/node/index.json"@
        } else {
            "https://nodejs.org/dist/index.json"@
        }),
        InstallStage::MakeStaging => a matches InstallAction::MakeDir(d) && d@ == v.staging(),
        InstallStage::Download => a matches InstallAction::Download { url, to } && url@
            == node_dist(v.use_mirror) + "/"@ + v.node_version + "/"@ + v.archive() && to@
            == path::join(v.host, v.staging(), v.archive()),
        InstallStage::Checksums => a matches InstallAction::FetchText(u) && u@
            == "https://nodejs.org/dist"@ + "/"@ + v.node_version + "/"@ + "SHASUMS256.txt"@,
        InstallStage::Verify => a matches InstallAction::ReadFile(f) && f@ == path::join(
            v.host,
            v.staging(),
            v.archive(),
        ),
        InstallStage::MakeExtracted => a matches InstallAction::MakeDir(d) && d@ == v.extracted(),
        InstallStage::Extract => a matches InstallAction::Extract { archive, to } && archive@
            == path::join(v.host, v.staging(), v.archive()) && to@ == v.extracted(),
        InstallStage::CheckNode => a matches InstallAction::IsFile(f) && f@
            == managed::node_program(v.host, v.extracted_node()),
        InstallStage::Latest => a matches InstallAction::LatestDsh(u) && u@ == managed::latest_url(
            v.use_mirror,
        ),
        InstallStage::Npm => a matches InstallAction::Npm(npm) && npm_begins(
            npm,
            v.host,
            v.extracted_node(),
            v.staged_dsh(),
            v.use_mirror,
            v.dsh_version,
        ),
        InstallStage::MoveNode => a matches InstallAction::Rename { from, to } && from@
            == v.extracted_node() && to@ == v.node(),
        InstallStage::MoveRuntime => a matches InstallAction::Rename { from, to } && from@
            == v.staged_dsh() && to@ == managed::runtime_of(v.host, v.root),
        InstallStage::UndoNode => a matches InstallAction::Rename { from, to } && from@ == v.node()
            && to@ == v.extracted_node(),
        InstallStage::WriteEntry => a matches InstallAction::WriteScript { file, script } && file@
            == managed::entry_of(v.host, v.root) && script@ == managed::entry_script(
            v.host,
            v.root,
            managed::runtime_of(v.host, v.root),
        ),
        InstallStage::Probe => a matches InstallAction::Probe(f) && f@ == managed::entry_of(
            v.host,
            v.root,
        ),
        InstallStage::WriteMarker => a matches InstallAction::WriteMarker(m) && is_new_marker(
            v,
            m,
        ),
        InstallStage::RemoveStaging => a matches InstallAction::RemoveDir(d) && d@ == v.staging(),
        InstallStage::CheckMarker => a matches InstallAction::IsFile(f) && f@
            == managed::marker_of(v.host, v.root),
        InstallStage::RemoveNode => a matches InstallAction::RemoveDir(d) && d@ == v.node(),
        InstallStage::RemoveRuntime => a matches InstallAction::RemoveDir(d) && d@
            == managed::runtime_of(v.host, v.root),
        InstallStage::RemoveEntry => a matches InstallAction::RemoveFile(f) && f@
            == managed::entry_of(v.host, v.root),
        InstallStage::Done => a is Finished,
    }
}

pub(crate) fn tell(notes: &mut Vec<InstallNote>, n: InstallNote)
    ensures
        notes_view(final(notes)@) == notes_view(old(notes)@).push(note_view(n)),
{
    let ghost before = notes_view(notes@);
    notes.push(n);
    assert(notes_view(notes@) =~= before.push(note_view(n)));
}

impl Install {
    /// Begins an installation, if the place may be tried at all.
    pub fn install_managed(host: PlatformTarget, arm: bool, root: &str, use_mirror: bool) -> (r:
        Install)
        ensures
            r@ == install_of(host, arm, root@, use_mirror),
    {
        let (stage, error) = match check_install_root(host, root) {
            Ok(_) => (InstallStage::Prepare, None),
            Err(e) => (InstallStage::Done, Some(e)),
        };
        Install {
            host,
            arm,
            root: root.to_string(),
            use_mirror,
            node_version: String::new(),
            checksum: String::new(),
            dsh_version: String::new(),
            stage,
            error,
        }
    }

    fn staging(&self) -> (r: String)
        ensures
            r@ == self@.staging(),
    {
        child(self.host, self.root.as_str(), ".dsh-launcher-staging")
    }

    fn archive(&self) -> (r: String)
        ensures
            r@ == self@.archive(),
    {
        node_archive_name(self.host, self.arm, self.node_version.as_str())
    }

    fn archive_file(&self) -> (r: String)
        ensures
            r@ == path::join(self@.host, self@.staging(), self@.archive()),
    {
        child(self.host, self.staging().as_str(), self.archive().as_str())
    }

    fn extracted(&self) -> (r: String)
        ensures
            r@ == self@.extracted(),
    {
        child(self.host, self.staging().as_str(), "extracted")
    }

    fn extracted_node(&self) -> (r: String)
        ensures
            r@ == self@.extracted_node(),
    {
        child(
            self.host,
            self.extracted().as_str(),
            archive_top_dir(self.archive().as_str()).as_str(),
        )
    }

    fn staged_dsh(&self) -> (r: String)
        ensures
            r@ == self@.staged_dsh(),
    {
        child(self.host, self.staging().as_str(), "dsh-runtime")
    }

    fn node(&self) -> (r: String)
        ensures
            r@ == self@.node(),
    {
        child(self.host, self.root.as_str(), "node")
    }

    pub fn marker(&self) -> (r: Marker)
        ensures
            is_new_marker(self@, r),
    {
        let v: Vec<char> = vec!['v'];
        assert(v@ =~= seq!['v']);
        let chars = chars_of(self.node_version.as_str());
        Marker {
            schema: managed::MANAGED_SCHEMA,
            node_version: string_of(stripped_start(chars.as_slice(), v.as_slice())),
            dsh_version: self.dsh_version.clone(),
            use_mirror: self.use_mirror,
        }
    }

    /// How the installation ended, once it has.
    pub fn outcome(&self) -> (r: Result<ManagedStatus, String>)
        ensures
            match self@.error {
                Some(e) => r matches Err(m) && m@ == e,
                None => r matches Ok(s) && s.managed_root@ == self@.root && s.dsh_path@
                    == managed::entry_of(self@.host, self@.root) && s.dsh_version@
                    == self@.dsh_version && s.node_version@ == text::strip_start_of(
                    self@.node_version,
                    seq!['v'],
                ),
            },
    {
        match &self.error {
            Some(e) => Err(e.clone()),
            None => Ok(status_from(self.host, self.root.as_str(), self.marker())),
        }
    }

    pub fn action(&self) -> (r: InstallAction)
        ensures
            install_action_is(r, self@),
    {
        match self.stage {
            InstallStage::Prepare => InstallAction::PrepareRoot,
            InstallStage::List => InstallAction::FetchReleases(
                if self.use_mirror {
                    managed::NODE_MIRROR_INDEX_URL
                } else {
                    managed::NODE_INDEX_URL
                },
            ),
            InstallStage::MakeStaging => InstallAction::MakeDir(self.staging()),
            InstallStage::Download => {
                let dist = if self.use_mirror {
                    managed::NODE_MIRROR_DIST
                } else {
                    managed::NODE_OFFICIAL_DIST
                };
                InstallAction::Download {
                    url: dist.to_string().concat("/").concat(self.node_version.as_str()).concat(
                        "/",
                    ).concat(self.archive().as_str()),
                    to: self.archive_file(),
                }
            },
            InstallStage::Checksums => InstallAction::FetchText(
                managed::NODE_OFFICIAL_DIST.to_string().concat("/").concat(
                    self.node_version.as_str(),
                ).concat("/").concat("SHASUMS256.txt"),
            ),
            InstallStage::Verify => InstallAction::ReadFile(self.archive_file()),
            InstallStage::MakeExtracted => InstallAction::MakeDir(self.extracted()),
            InstallStage::Extract => InstallAction::Extract {
                archive: self.archive_file(),
                to: self.extracted(),
            },
            InstallStage::CheckNode => InstallAction::IsFile(
                node_executable(self.host, self.extracted_node().as_str()),
            ),
            InstallStage::Latest => InstallAction::LatestDsh(latest_dsh_url(self.use_mirror)),
            InstallStage::Npm => InstallAction::Npm(
                NpmInstall::new(
                    self.host,
                    self.extracted_node(),
                    self.staged_dsh(),
                    self.use_mirror,
                    self.dsh_version.clone(),
                ),
            ),
            InstallStage::MoveNode => InstallAction::Rename {
                from: self.extracted_node(),
                to: self.node(),
            },
            InstallStage::MoveRuntime => InstallAction::Rename {
                from: self.staged_dsh(),
                to: runtime_dir(self.host, self.root.as_str()),
            },
            InstallStage::UndoNode => InstallAction::Rename {
                from: self.node(),
                to: self.extracted_node(),
            },
            InstallStage::WriteEntry => {
                let runtime = runtime_dir(self.host, self.root.as_str());
                InstallAction::WriteScript {
                    file: managed_dsh_path(self.host, self.root.as_str()),
                    script: create_wrapper_for(
                        self.host,
                        self.root.as_str(),
                        runtime.as_str(),
                    ),
                }
            },
            InstallStage::Probe => InstallAction::Probe(
                managed_dsh_path(self.host, self.root.as_str()),
            ),
            InstallStage::WriteMarker => InstallAction::WriteMarker(self.marker()),
            InstallStage::RemoveStaging => InstallAction::RemoveDir(self.staging()),
            InstallStage::CheckMarker => InstallAction::IsFile(
                managed::marker_path(self.host, self.root.as_str()),
            ),
            InstallStage::RemoveNode => InstallAction::RemoveDir(self.node()),
            InstallStage::RemoveRuntime => InstallAction::RemoveDir(
                runtime_dir(self.host, self.root.as_str()),
            ),
            InstallStage::RemoveEntry => InstallAction::RemoveFile(
                managed_dsh_path(self.host, self.root.as_str()),
            ),
            InstallStage::Done => InstallAction::Finished,
        }
    }

    fn refuse(&mut self, message: String)
        ensures
            final(self)@ == old(self)@.refused(message@),
    {
        self.error = Some(message);
        self.stage = InstallStage::Done;
    }

    fn fail(&mut self, message: String)
        ensures
            final(self)@ == old(self)@.failed(message@),
    {
        self.error = Some(message);
        self.stage = InstallStage::RemoveStaging;
    }

    fn go(&mut self, r: Result<(), String>, doing: Option<Doing>, next: InstallStage)
        ensures
            final(self)@ == next_or_failed(old(self)@, r, doing, next),
    {
        match r {
            Ok(_) => {
                self.stage = next;
            },
            Err(e) => {
                let message = match doing {
                    Some(d) => failure(d, e.as_str()),
                    None => e,
                };
                self.fail(message);
            },
        }
    }

    /// Takes note of what became of the last action.
    pub fn advance(&mut self, event: InstallEvent) -> (r: Vec<InstallNote>)
        ensures
            (final(self)@, notes_view(r@)) == install_advanced(old(self)@, event),
    {
        let mut notes: Vec<InstallNote> = Vec::new();
        let ghost want = install_advanced(self@, event);
        assert(notes_view(notes@) =~= Seq::<NoteView>::empty());
        match (self.stage, event) {
            (InstallStage::Prepare, InstallEvent::Root(state)) => {
                match validate_install_root(self.host, self.root.as_str(), &state) {
                    Err(e) => self.refuse(e),
                    Ok(_) => {
                        tell(
                            &mut notes,
                            InstallNote::Progress {
                                phase: "metadata",
                                message: "正在获取最新 Node LTS...",
                                percent: 5,
                            },
                        );
                        self.stage = InstallStage::List;
                    },
                }
            },
            (InstallStage::List, InstallEvent::Releases(r)) => match r {
                Err(e) => self.refuse(e),
                Ok(releases) => {
                    let key = node_file_key(self.host, self.arm);
                    match fetch_node_release(&releases, key) {
                        Ok(i) => {
                            proof {
                                lemma_first_wanted(releases@, key@, i as int);
                            }
                            self.node_version = releases[i].version.clone();
                            self.stage = InstallStage::MakeStaging;
                        },
                        Err(e) => {
                            proof {
                                lemma_first_wanted(releases@, key@, releases@.len() as int);
                            }
                            self.refuse(e);
                        },
                    }
                },
            },
            (InstallStage::MakeStaging, InstallEvent::Did(r)) => {
                if r.is_ok() {
                    tell(
                        &mut notes,
                        InstallNote::Progress {
                            phase: "download",
                            message: "正在下载 Node LTS...",
                            percent: 15,
                        },
                    );
                    tell(
                        &mut notes,
                        InstallNote::Log(
                            if self.use_mirror {
                                "Node 使用国内镜像下载，SHA-256 校验清单仍来自 Node 官方"
                            } else {
                                "Node 使用官方源下载"
                            },
                        ),
                    );
                }
                self.go(r, Some(Doing::MakeStaging), InstallStage::Download);
            },
            (InstallStage::Download, InstallEvent::Ran(r)) => {
                self.go(r, None, InstallStage::Checksums);
            },
            (InstallStage::Checksums, InstallEvent::Text(r)) => match r {
                Err(e) => self.fail(e),
                Ok(list) => {
                    tell(
                        &mut notes,
                        InstallNote::Progress {
                            phase: "verify",
                            message: "正在校验 Node 下载文件...",
                            percent: 45,
                        },
                    );
                    match expected_checksum(list.as_str(), self.archive().as_str()) {
                        Ok(hash) => {
                            self.checksum = hash;
                            self.stage = InstallStage::Verify;
                        },
                        Err(e) => self.fail(e),
                    }
                },
            },
            (InstallStage::Verify, InstallEvent::Bytes(r)) => match r {
                Err(e) => self.fail(e),
                Ok(bytes) => match verify_sha256(bytes.as_slice(), self.checksum.as_str()) {
                    Ok(_) => {
                        tell(
                            &mut notes,
                            InstallNote::Progress {
                                phase: "extract",
                                message: "正在解压 Node...",
                                percent: 55,
                            },
                        );
                        self.stage = InstallStage::MakeExtracted;
                    },
                    Err(e) => self.fail(e),
                },
            },
            (InstallStage::MakeExtracted, InstallEvent::Did(r)) => {
                self.go(r, Some(Doing::MakeExtracted), InstallStage::Extract);
            },
            (InstallStage::Extract, InstallEvent::Ran(r)) => {
                self.go(r, None, InstallStage::CheckNode);
            },
            (InstallStage::CheckNode, InstallEvent::Found(found)) => {
                if found {
                    tell(
                        &mut notes,
                        InstallNote::Progress {
                            phase: "install",
                            message: "正在安装 DSH...",
                            percent: 70,
                        },
                    );
                    self.stage = InstallStage::Latest;
                } else {
                    self.fail("Node 压缩包缺少可执行文件".to_string());
                }
            },
            (InstallStage::Latest, InstallEvent::Latest(answer)) => match fetch_latest_dsh(answer) {
                Err(e) => self.fail(e),
                Ok(version) => {
                    self.dsh_version = version;
                    self.stage = InstallStage::Npm;
                },
            },
            (InstallStage::Npm, InstallEvent::Ran(r)) => {
                self.go(r, None, InstallStage::MoveNode);
            },
            (InstallStage::MoveNode, InstallEvent::Did(r)) => {
                self.go(r, Some(Doing::EnableNode), InstallStage::MoveRuntime);
            },
            (InstallStage::MoveRuntime, InstallEvent::Did(r)) => match r {
                Ok(_) => {
                    self.stage = InstallStage::WriteEntry;
                },
                Err(e) => {
                    self.error = Some(failure(Doing::EnableDsh, e.as_str()));
                    self.stage = InstallStage::UndoNode;
                },
            },
            (InstallStage::UndoNode, InstallEvent::Did(_)) => {
                self.stage = InstallStage::RemoveStaging;
            },
            (InstallStage::WriteEntry, InstallEvent::Ran(r)) => {
                self.go(r, None, InstallStage::Probe);
            },
            (InstallStage::Probe, InstallEvent::Text(r)) => match r {
                Err(e) => self.fail(e),
                Ok(actual) => {
                    if equal(actual.as_str(), self.dsh_version.as_str()) {
                        self.stage = InstallStage::WriteMarker;
                    } else {
                        let message = "DSH 版本校验失败：期望 ".to_string().concat(
                            self.dsh_version.as_str(),
                        ).concat("，实际 ").concat(actual.as_str());
                        self.fail(message);
                    }
                },
            },
            (InstallStage::WriteMarker, InstallEvent::Ran(r)) => {
                if r.is_ok() {
                    tell(
                        &mut notes,
                        InstallNote::Progress {
                            phase: "complete",
                            message: "Node 与 DSH 安装完成",
                            percent: 100,
                        },
                    );
                }
                self.go(r, None, InstallStage::RemoveStaging);
            },
            (InstallStage::RemoveStaging, InstallEvent::Did(_)) => {
                self.stage = if self.error.is_some() {
                    InstallStage::CheckMarker
                } else {
                    InstallStage::Done
                };
            },
            (InstallStage::CheckMarker, InstallEvent::Found(found)) => {
                self.stage = if found {
                    InstallStage::Done
                } else {
                    InstallStage::RemoveNode
                };
            },
            (InstallStage::RemoveNode, InstallEvent::Did(_)) => {
                self.stage = InstallStage::RemoveRuntime;
            },
            (InstallStage::RemoveRuntime, InstallEvent::Did(_)) => {
                self.stage = InstallStage::RemoveEntry;
            },
            (InstallStage::RemoveEntry, InstallEvent::Did(_)) => {
                self.stage = InstallStage::Done;
            },
            _ => {},
        }
        assert(notes_view(notes@) =~= want.1);
        notes
    }
}

// ---------------------------------------------------------------------------
// What an installation leaves behind
// ---------------------------------------------------------------------------

/// What is in the directory of the installation.
pub struct InstallDisk {
    /// Something is in the staging directory.
    pub staging: bool,
    pub node: bool,
    pub runtime: bool,
    pub entry: bool,
    pub marker: bool,
}

pub open spec fn nothing_installed() -> InstallDisk {
    InstallDisk { staging: false, node: false, runtime: false, entry: false, marker: false }
}

pub open spec fn all_installed() -> InstallDisk {
    InstallDisk { staging: false, node: true, runtime: true, entry: true, marker: true }
}

/// What the action of a stage that ended this way leaves on disk. A script that could not
/// be written may be there in part, and so may a directory that could not be made.
pub open spec fn install_disk(d: InstallDisk, stage: InstallStage, event: InstallEvent) -> InstallDisk {
    match (stage, event) {
        (InstallStage::MakeStaging, InstallEvent::Did(_)) => InstallDisk { staging: true, ..d },
        (InstallStage::RemoveStaging, InstallEvent::Did(Ok(_))) => InstallDisk {
            staging: false,
            ..d
        },
        (InstallStage::MoveNode, InstallEvent::Did(Ok(_))) => InstallDisk { node: true, ..d },
        (InstallStage::MoveRuntime, InstallEvent::Did(Ok(_))) => InstallDisk {
            runtime: true,
            ..d
        },
        (InstallStage::UndoNode, InstallEvent::Did(Ok(_))) => InstallDisk { node: false, ..d },
        (InstallStage::WriteEntry, InstallEvent::Ran(_)) => InstallDisk { entry: true, ..d },
        (InstallStage::WriteMarker, InstallEvent::Ran(Ok(_))) => InstallDisk {
            marker: true,
            ..d
        },
        (InstallStage::RemoveNode, InstallEvent::Did(Ok(_))) => InstallDisk { node: false, ..d },
        (InstallStage::RemoveRuntime, InstallEvent::Did(Ok(_))) => InstallDisk {
            runtime: false,
            ..d
        },
        (InstallStage::RemoveEntry, InstallEvent::Did(Ok(_))) => InstallDisk { entry: false, ..d },
        _ => d,
    }
}

/// The event tells the truth about the disk, and what is there can be removed.
pub open spec fn truthful(d: InstallDisk, stage: InstallStage, event: InstallEvent) -> bool {
    match (stage, event) {
        (InstallStage::RemoveStaging, InstallEvent::Did(r)) => r is Ok || !d.staging,
        (InstallStage::CheckMarker, InstallEvent::Found(found)) => found == d.marker,
        (InstallStage::RemoveNode, InstallEvent::Did(r)) => r is Ok || !d.node,
        (InstallStage::RemoveRuntime, InstallEvent::Did(r)) => r is Ok || !d.runtime,
        (InstallStage::RemoveEntry, InstallEvent::Did(r)) => r is Ok || !d.entry,
        _ => true,
    }
}

/// Where the installation and the disk are after a sequence of events.
pub open spec fn install_run(v: InstallView, d: InstallDisk, events: Seq<InstallEvent>) -> (
    InstallView,
    InstallDisk,
)
    decreases events.len(),
{
    if events.len() == 0 {
        (v, d)
    } else {
        let (v1, d1) = install_run(v, d, events.drop_last());
        (install_advanced(v1, events.last()).0, install_disk(d1, v1.stage, events.last()))
    }
}

pub open spec fn all_truthful(v: InstallView, d: InstallDisk, events: Seq<InstallEvent>) -> bool
    decreases events.len(),
{
    events.len() == 0 || {
        let (v1, d1) = install_run(v, d, events.drop_last());
        all_truthful(v, d, events.drop_last()) && truthful(d1, v1.stage, events.last())
    }
}

spec fn install_safe(v: InstallView, d: InstallDisk) -> bool {
    match v.stage {
        InstallStage::Prepare | InstallStage::List | InstallStage::MakeStaging => v.error is None
            && d == nothing_installed(),
        InstallStage::Download | InstallStage::Checksums | InstallStage::Verify
        | InstallStage::MakeExtracted | InstallStage::Extract | InstallStage::CheckNode
        | InstallStage::Latest | InstallStage::Npm | InstallStage::MoveNode => v.error is None
            && !d.node && !d.runtime && !d.entry && !d.marker,
        InstallStage::MoveRuntime => v.error is None && d.node && !d.runtime && !d.entry
            && !d.marker,
        InstallStage::UndoNode => v.error is Some && !d.runtime && !d.entry && !d.marker,
        InstallStage::WriteEntry => v.error is None && d.node && d.runtime && !d.entry && !d.marker,
        InstallStage::Probe | InstallStage::WriteMarker => v.error is None && d.node && d.runtime
            && d.entry && !d.marker,
        InstallStage::RemoveStaging => if v.error is None {
            d.node && d.runtime && d.entry && d.marker
        } else {
            !d.marker
        },
        InstallStage::CheckMarker => v.error is Some && !d.staging && !d.marker,
        InstallStage::RemoveNode => v.error is Some && !d.staging && !d.marker,
        InstallStage::RemoveRuntime => v.error is Some && !d.staging && !d.marker && !d.node,
        InstallStage::RemoveEntry => v.error is Some && !d.staging && !d.marker && !d.node
            && !d.runtime,
        InstallStage::Done => if v.error is None {
            d == all_installed()
        } else {
            d == nothing_installed()
        },
    }
}

proof fn lemma_install_run(v: InstallView, d: InstallDisk, events: Seq<InstallEvent>)
    requires
        install_safe(v, d),
        all_truthful(v, d, events),
    ensures
        ({
            let (v2, d2) = install_run(v, d, events);
            install_safe(v2, d2)
        }),
    decreases events.len(),
{
    if events.len() > 0 {
        lemma_install_run(v, d, events.drop_last());
    }
}

/// An installation that succeeds leaves Node, the runtime, the entry and the marker; one
/// that fails, at whatever point, leaves none of them. Neither leaves a staging directory.
pub proof fn an_installation_is_complete_or_gone(
    host: PlatformTarget,
    arm: bool,
    root: Seq<char>,
    use_mirror: bool,
    events: Seq<InstallEvent>,
)
    requires
        all_truthful(install_of(host, arm, root, use_mirror), nothing_installed(), events),
    ensures
        ({
            let (v, d) = install_run(
                install_of(host, arm, root, use_mirror),
                nothing_installed(),
                events,
            );
            v.stage == InstallStage::Done ==> d == if v.error is None {
                all_installed()
            } else {
                nothing_installed()
            }
        }),
{
    lemma_install_run(install_of(host, arm, root, use_mirror), nothing_installed(), events);
}

/// The version that npm installs is the latest of the source that was chosen.
pub proof fn the_latest_version_is_installed(v: InstallView, event: InstallEvent)
    requires
        install_advanced(v, event).0.stage == InstallStage::Npm,
        v.stage != InstallStage::Npm,
    ensures
        v.stage == InstallStage::Latest,
        event matches InstallEvent::Latest(answer) && managed::latest_of(answer) == Ok::<
            Seq<char>,
            Seq<char>,
        >(install_advanced(v, event).0.dsh_version),
        install_advanced(v, event).0.use_mirror == v.use_mirror,
{
}

/// The marker is written only once the installed command has reported the version that was
/// meant to be installed.
pub proof fn the_marker_follows_the_version_check(v: InstallView, event: InstallEvent)
    requires
        install_advanced(v, event).0.stage == InstallStage::WriteMarker,
        v.stage != InstallStage::WriteMarker,
    ensures
        v.stage == InstallStage::Probe,
        event matches InstallEvent::Text(Ok(actual)) && actual@ == v.dsh_version,
{
}

/// An archive is unpacked only once its checksum has been compared with the official one.
pub proof fn only_a_verified_archive_is_unpacked(v: InstallView, event: InstallEvent)
    requires
        install_advanced(v, event).0.stage == InstallStage::MakeExtracted,
        v.stage != InstallStage::MakeExtracted,
    ensures
        v.stage == InstallStage::Verify,
        event matches InstallEvent::Bytes(Ok(bytes)) && managed::checksum_matches(
            bytes@,
            v.checksum,
        ),
{
}

} // verus!
