//! The launcher's configuration: its fields, its defaults, where it is stored and how a
//! file is replaced.

use vstd::prelude::*;

use crate::path;
use crate::path::{child, parent_of, re_extended};
use crate::text;
use crate::text::{chars_of, equal, trimmed};

verus! {

/// The platforms whose directory rules differ.
#[derive(Debug, Clone, Copy, PartialEq, Eq, Structural)]
pub enum PlatformTarget {
    Windows,
    MacOS,
    Unix,
}

/// The platform of an operating system, by the name that the standard library gives it.
pub fn current_platform(os: &str) -> (r: PlatformTarget)
    ensures
        r == (if os@ == "windows"@ {
            PlatformTarget::Windows
        } else if os@ == "macos"@ {
            PlatformTarget::MacOS
        } else {
            PlatformTarget::Unix
        }),
{
    if equal(os, "windows") {
        PlatformTarget::Windows
    } else if equal(os, "macos") {
        PlatformTarget::MacOS
    } else {
        PlatformTarget::Unix
    }
}

/// What happens to the web interface when the service has started.
#[derive(Debug, Clone, Copy)]
pub enum LaunchAction {
    Nothing,
    DefaultBrowser,
    EmbeddedWebview,
}

impl Default for LaunchAction {
    fn default() -> (r: Self)
        ensures
            r == LaunchAction::EmbeddedWebview,
    {
        LaunchAction::EmbeddedWebview
    }
}

impl LaunchAction {
    /// The name under which the action is stored.
    pub open spec fn stored_name(self) -> Seq<char> {
        match self {
            LaunchAction::Nothing => "none"@,
            LaunchAction::DefaultBrowser => "default_browser"@,
            LaunchAction::EmbeddedWebview => "embedded_webview"@,
        }
    }

    pub fn name(self) -> (r: &'static str)
        ensures
            r@ == self.stored_name(),
    {
        match self {
            LaunchAction::Nothing => "none",
            LaunchAction::DefaultBrowser => "default_browser",
            LaunchAction::EmbeddedWebview => "embedded_webview",
        }
    }
}

#[derive(Debug)]
pub struct LauncherConfig {
    pub dsh_path: String,
    pub profile: String,
    pub host: String,
    pub port: u16,
    pub launch_action: LaunchAction,
    pub custom_args: String,
    pub auto_start: bool,
    pub auto_scroll_logs: bool,
    pub managed_runtime_dir: String,
}

impl Clone for LauncherConfig {
    fn clone(&self) -> (r: Self)
        ensures
            r == *self,
    {
        LauncherConfig {
            dsh_path: self.dsh_path.clone(),
            profile: self.profile.clone(),
            host: self.host.clone(),
            port: self.port,
            launch_action: self.launch_action,
            custom_args: self.custom_args.clone(),
            auto_start: self.auto_start,
            auto_scroll_logs: self.auto_scroll_logs,
            managed_runtime_dir: self.managed_runtime_dir.clone(),
        }
    }
}

/// The configuration of a launcher that was never configured.
pub open spec fn is_default_config(c: LauncherConfig) -> bool {
    &&& c.dsh_path@ == Seq::<char>::empty()
    &&& c.profile@ == "web"@
    &&& c.host@ == "127.0.0.1"@
    &&& c.port == 3080
    &&& c.launch_action == LaunchAction::EmbeddedWebview
    &&& c.custom_args@ == "--no-open"@
    &&& !c.auto_start
    &&& c.auto_scroll_logs
    &&& c.managed_runtime_dir@ == Seq::<char>::empty()
}

impl Default for LauncherConfig {
    fn default() -> (r: Self)
        ensures
            is_default_config(r),
    {
        LauncherConfig {
            dsh_path: String::new(),
            profile: "web".to_string(),
            host: "127.0.0.1".to_string(),
            port: 3080,
            launch_action: LaunchAction::EmbeddedWebview,
            custom_args: "--no-open".to_string(),
            auto_start: false,
            auto_scroll_logs: true,
            managed_runtime_dir: String::new(),
        }
    }
}

/// A text that holds nothing but white space.
pub open spec fn blank(s: Seq<char>) -> bool {
    text::trim(s).len() == 0
}

pub fn is_blank(s: &str) -> (r: bool)
    ensures
        r == blank(s@),
{
    trimmed(chars_of(s).as_slice()).len() == 0
}

/// What is wrong with a configuration, the first complaint first.
pub open spec fn config_complaint(c: LauncherConfig) -> Option<Seq<char>> {
    if blank(c.profile@) {
        Some("Profile 不能为空"@)
    } else if blank(c.host@) {
        Some("主机不能为空"@)
    } else if c.port == 0 {
        Some("端口必须在 1 到 65535 之间"@)
    } else {
        None
    }
}

impl LauncherConfig {
    /// The configuration that a launcher starts with: what was stored, or the default
    /// where nothing was stored or what was stored could not be read.
    pub fn load(stored: Option<LauncherConfig>) -> (r: LauncherConfig)
        ensures
            match stored {
                Some(config) => r == config,
                None => is_default_config(r),
            },
    {
        match stored {
            Some(config) => config,
            None => LauncherConfig::default(),
        }
    }

    /// How the configuration is stored: the write that replaces the file in the user's
    /// configuration directory. Without such a directory there is nothing to write.
    pub fn save(&self, platform: PlatformTarget, lookup: &EnvLookup) -> (r: Result<
        AtomicWrite,
        String,
    >)
        ensures
            match (r, config_file(platform, lookup@)) {
                (Ok(w), Some(file)) => w@ == write_of(platform, file),
                (Err(e), None) => e@ == "无法定位用户配置目录"@,
                _ => false,
            },
    {
        match config_path(platform, lookup) {
            Some(file) => Ok(AtomicWrite::new(platform, file)),
            None => Err("无法定位用户配置目录".to_string()),
        }
    }

    pub fn validate(&self) -> (r: Result<(), String>)
        ensures
            match r {
                Ok(_) => config_complaint(*self) is None,
                Err(e) => config_complaint(*self) == Some(e@),
            },
    {
        if is_blank(self.profile.as_str()) {
            return Err("Profile 不能为空".to_string());
        }
        if is_blank(self.host.as_str()) {
            return Err("主机不能为空".to_string());
        }
        if self.port == 0 {
            return Err("端口必须在 1 到 65535 之间".to_string());
        }
        Ok(())
    }
}

/// The default configuration is a valid one.
pub proof fn default_config_is_valid(c: LauncherConfig)
    requires
        is_default_config(c),
    ensures
        config_complaint(c) is None,
{
    reveal_strlit("web");
    reveal_strlit("127.0.0.1");
    reveal_with_fuel(text::trim_start, 2);
    reveal_with_fuel(text::trim_end, 2);
}

/// Where the window with the web interface stood.
#[derive(Debug, Clone, Copy, PartialEq, Eq, Structural)]
pub struct WebviewWindowState {
    pub x: i32,
    pub y: i32,
    pub width: u32,
    pub height: u32,
}

impl WebviewWindowState {
    /// How the window's place is stored: one plain write, below a directory that is
    /// made first.
    pub fn save(&self, platform: PlatformTarget, lookup: &EnvLookup) -> (r: Result<
        PlainWrite,
        String,
    >)
        ensures
            match (r, platform_config_directory(platform, platform, lookup@)) {
                (Ok(w), Some(dir)) => w.directory@ == dir && w.target@ == path::join(
                    platform,
                    dir,
                    "webview-window.json"@,
                ),
                (Err(e), None) => e@ == "无法定位用户配置目录"@,
                _ => false,
            },
    {
        match config_dir(platform, lookup) {
            Some(directory) => {
                let target = child(platform, directory.as_str(), "webview-window.json");
                Ok(PlainWrite { directory, target })
            },
            None => Err("无法定位用户配置目录".to_string()),
        }
    }
}

/// A file that is written in place, and the directory that must be there first.
#[derive(Debug)]
pub struct PlainWrite {
    pub directory: String,
    pub target: String,
}

// ---------------------------------------------------------------------------
// Environment variables and directories
// ---------------------------------------------------------------------------

/// Environment variables by name; the first entry of a name counts.
#[derive(Debug)]
pub struct EnvLookup {
    pub pairs: Vec<(String, String)>,
}

/// The value of a variable.
pub open spec fn looked_up(
    vars: Seq<(Seq<char>, Seq<char>)>,
    key: Seq<char>,
) -> Option<Seq<char>>
    decreases vars.len(),
{
    if vars.len() == 0 {
        None
    } else if vars[0].0 == key {
        Some(vars[0].1)
    } else {
        looked_up(vars.skip(1), key)
    }
}

/// The value that is looked up is that of the first pair with the name; none is found only where
/// no pair has it.
pub proof fn the_first_value_is_taken(vars: Seq<(Seq<char>, Seq<char>)>, key: Seq<char>)
    ensures
        match looked_up(vars, key) {
            Some(value) => exists|i: int|
                #![trigger vars[i]]
                0 <= i < vars.len() && vars[i].0 == key && vars[i].1 == value && forall|j: int|
                    0 <= j < i ==> (#[trigger] vars[j]).0 != key,
            None => forall|i: int| 0 <= i < vars.len() ==> (#[trigger] vars[i]).0 != key,
        },
    decreases vars.len(),
{
    if vars.len() > 0 && vars[0].0 != key {
        let rest = vars.skip(1);
        the_first_value_is_taken(rest, key);
        match looked_up(vars, key) {
            Some(value) => {
                let i = choose|i: int|
                    #![trigger rest[i]]
                    0 <= i < rest.len() && rest[i].0 == key && rest[i].1 == value && forall|j: int|
                        0 <= j < i ==> (#[trigger] rest[j]).0 != key;
                assert(vars[i + 1] == rest[i]);
                assert forall|j: int| 0 <= j < i + 1 implies (#[trigger] vars[j]).0 != key by {
                    if j > 0 {
                        assert(rest[j - 1] == vars[j]);
                    }
                }
            },
            None => {
                assert forall|i: int| 0 <= i < vars.len() implies (#[trigger] vars[i]).0 != key by {
                    if i > 0 {
                        assert(rest[i - 1] == vars[i]);
                    }
                }
            },
        }
    }
}

impl View for EnvLookup {
    type V = Seq<(Seq<char>, Seq<char>)>;

    open spec fn view(&self) -> Seq<(Seq<char>, Seq<char>)> {
        self.pairs@.map_values(|p: (String, String)| (p.0@, p.1@))
    }
}

impl EnvLookup {
    pub fn get(&self, key: &str) -> (r: Option<String>)
        ensures
            text::opt_text(r) == looked_up(self@, key@),
    {
        let mut i: usize = 0;
        assert(self@.skip(0) == self@);
        while i < self.pairs.len()
            invariant
                i <= self.pairs.len(),
                looked_up(self@, key@) == looked_up(self@.skip(i as int), key@),
            decreases self.pairs.len() - i,
        {
            assert(self@.skip(i as int)[0] == self@[i as int]);
            if equal(self.pairs[i].0.as_str(), key) {
                return Some(self.pairs[i].1.clone());
            }
            assert(self@.skip(i as int).skip(1) == self@.skip(i as int + 1));
            i += 1;
        }
        None
    }

    /// The value of a variable that is set to more than white space.
    pub fn get_filled(&self, key: &str) -> (r: Option<String>)
        ensures
            text::opt_text(r) == filled(looked_up(self@, key@)),
    {
        match self.get(key) {
            Some(value) => if is_blank(value.as_str()) {
                None
            } else {
                Some(value)
            },
            None => None,
        }
    }
}

/// A value that is there and not blank.
pub open spec fn filled(v: Option<Seq<char>>) -> Option<Seq<char>> {
    match v {
        Some(s) => if blank(s) {
            None
        } else {
            Some(s)
        },
        None => None,
    }
}

pub open spec fn home_var(platform: PlatformTarget) -> Seq<char> {
    if platform == PlatformTarget::Windows {
        "USERPROFILE"@
    } else {
        "HOME"@
    }
}

pub fn home_var_for(platform: PlatformTarget) -> (r: &'static str)
    ensures
        r@ == home_var(platform),
{
    if matches!(platform, PlatformTarget::Windows) {
        "USERPROFILE"
    } else {
        "HOME"
    }
}

/// The user's home directory.
pub open spec fn home_directory(
    platform: PlatformTarget,
    vars: Seq<(Seq<char>, Seq<char>)>,
) -> Option<Seq<char>> {
    filled(looked_up(vars, home_var(platform)))
}

pub fn home_dir_for(platform: PlatformTarget, lookup: &EnvLookup) -> (r: Option<String>)
    ensures
        text::opt_text(r) == home_directory(platform, lookup@),
{
    lookup.get_filled(home_var_for(platform))
}

pub const APP_DIR_NAME: &'static str = "DSH Launcher";

/// The directory above the launcher's own configuration directory. The home directory is
/// needed only where no variable names a directory. `host` says how a path is joined.
pub open spec fn config_base(
    host: PlatformTarget,
    platform: PlatformTarget,
    vars: Seq<(Seq<char>, Seq<char>)>,
) -> Option<Seq<char>> {
    let home = home_directory(platform, vars);
    match platform {
        PlatformTarget::Windows => match filled(looked_up(vars, "APPDATA"@)) {
            Some(dir) => Some(dir),
            None => below(host, below(host, home, "AppData"@), "Roaming"@),
        },
        PlatformTarget::MacOS => below(
            host,
            below(host, home, "Library"@),
            "Application Support"@,
        ),
        PlatformTarget::Unix => match looked_up(vars, "XDG_CONFIG_HOME"@) {
            Some(dir) if text::starts_with(dir, "/"@) => Some(dir),
            _ => below(host, home, ".config"@),
        },
    }
}

/// What is below a directory, where there is one.
pub open spec fn below(
    host: PlatformTarget,
    dir: Option<Seq<char>>,
    name: Seq<char>,
) -> Option<Seq<char>> {
    match dir {
        Some(dir) => Some(path::join(host, dir, name)),
        None => None,
    }
}

fn child_of(host: PlatformTarget, dir: Option<String>, name: &str) -> (r: Option<String>)
    ensures
        text::opt_text(r) == below(host, text::opt_text(dir), name@),
{
    match dir {
        Some(dir) => Some(child(host, dir.as_str(), name)),
        None => None,
    }
}

/// The launcher's configuration directory.
pub open spec fn platform_config_directory(
    host: PlatformTarget,
    platform: PlatformTarget,
    vars: Seq<(Seq<char>, Seq<char>)>,
) -> Option<Seq<char>> {
    below(host, config_base(host, platform, vars), "DSH Launcher"@)
}

pub fn platform_config_dir(
    host: PlatformTarget,
    platform: PlatformTarget,
    lookup: &EnvLookup,
) -> (r: Option<String>)
    ensures
        text::opt_text(r) == platform_config_directory(host, platform, lookup@),
{
    let base = match platform {
        PlatformTarget::Windows => match lookup.get_filled("APPDATA") {
            Some(dir) => Some(dir),
            None => {
                let home = home_dir_for(platform, lookup);
                child_of(host, child_of(host, home, "AppData"), "Roaming")
            },
        },
        PlatformTarget::MacOS => {
            let home = home_dir_for(platform, lookup);
            child_of(host, child_of(host, home, "Library"), "Application Support")
        },
        PlatformTarget::Unix => {
            let named = lookup.get("XDG_CONFIG_HOME");
            let absolute = match &named {
                Some(dir) => text::begins(
                    chars_of(dir.as_str()).as_slice(),
                    chars_of("/").as_slice(),
                ),
                None => false,
            };
            if absolute {
                named
            } else {
                child_of(host, home_dir_for(platform, lookup), ".config")
            }
        },
    };
    child_of(host, base, APP_DIR_NAME)
}

pub fn config_dir(platform: PlatformTarget, lookup: &EnvLookup) -> (r: Option<String>)
    ensures
        text::opt_text(r) == platform_config_directory(platform, platform, lookup@),
{
    platform_config_dir(platform, platform, lookup)
}

/// The file that holds the configuration.
pub open spec fn config_file(
    platform: PlatformTarget,
    vars: Seq<(Seq<char>, Seq<char>)>,
) -> Option<Seq<char>> {
    match platform_config_directory(platform, platform, vars) {
        Some(dir) => Some(path::join(platform, dir, "config.json"@)),
        None => None,
    }
}

pub fn config_path(platform: PlatformTarget, lookup: &EnvLookup) -> (r: Option<String>)
    ensures
        text::opt_text(r) == config_file(platform, lookup@),
{
    match config_dir(platform, lookup) {
        Some(dir) => Some(child(platform, dir.as_str(), "config.json")),
        None => None,
    }
}

pub fn webview_window_path(platform: PlatformTarget, lookup: &EnvLookup) -> (r: Option<String>)
    ensures
        text::opt_text(r) == (match platform_config_directory(platform, platform, lookup@) {
            Some(dir) => Some(path::join(platform, dir, "webview-window.json"@)),
            None => None,
        }),
{
    match config_dir(platform, lookup) {
        Some(dir) => Some(child(platform, dir.as_str(), "webview-window.json")),
        None => None,
    }
}

// ---------------------------------------------------------------------------
// Replacing a file
// ---------------------------------------------------------------------------

/// Where the replacement of a file stands.
#[derive(Debug, Clone, Copy, PartialEq, Eq, Structural)]
pub enum WriteStep {
    /// The directory must be made.
    Directory,
    /// The new contents must be written beside the file.
    Temporary,
    /// The new file must take the old one's place.
    Replace,
    /// Whether the old file is there must be found out.
    CheckTarget,
    /// The old file must be removed.
    RemoveTarget,
    /// The new file must take the place that is free now.
    ReplaceAgain,
    /// The new file must be removed.
    Discard,
    /// The file was replaced.
    Done,
    /// The file could not be replaced.
    Failed,
}

/// The replacement of a file by way of a temporary file in the same directory.
#[derive(Debug)]
pub struct AtomicWrite {
    pub platform: PlatformTarget,
    pub directory: String,
    pub target: String,
    pub temporary: String,
    pub step: WriteStep,
    pub failure: &'static str,
}

#[verifier::ext_equal]
pub struct WriteView {
    pub platform: PlatformTarget,
    pub directory: Seq<char>,
    pub target: Seq<char>,
    pub temporary: Seq<char>,
    pub step: WriteStep,
    pub failure: Seq<char>,
}

/// The next thing to do on disk, or how the replacement ended.
#[derive(Debug)]
pub enum WriteAction {
    CreateDirectory(String),
    WriteFile(String),
    Rename { from: String, to: String },
    Exists(String),
    Remove(String),
    Finished(Result<(), String>),
}

impl View for AtomicWrite {
    type V = WriteView;

    open spec fn view(&self) -> WriteView {
        WriteView {
            platform: self.platform,
            directory: self.directory@,
            target: self.target@,
            temporary: self.temporary@,
            step: self.step,
            failure: self.failure@,
        }
    }
}

/// The replacement of `file` before anything was done.
pub open spec fn write_of(platform: PlatformTarget, file: Seq<char>) -> WriteView {
    match path::parent(platform, file) {
        Some(dir) => WriteView {
            platform,
            directory: dir,
            target: file,
            temporary: path::with_extension(platform, file, "json.tmp"@),
            step: WriteStep::Directory,
            failure: ""@,
        },
        None => WriteView {
            platform,
            directory: ""@,
            target: file,
            temporary: path::with_extension(platform, file, "json.tmp"@),
            step: WriteStep::Failed,
            failure: "配置路径无父目录"@,
        },
    }
}

/// Where the replacement stands once the step was tried. On Windows a file cannot take
/// the place of another, so the old one goes first. From then on the new file is the only
/// complete one and stays, whatever happens.
pub open spec fn written(w: WriteView, ok: bool) -> WriteView {
    match w.step {
        WriteStep::Directory => if ok {
            WriteView { step: WriteStep::Temporary, ..w }
        } else {
            WriteView { step: WriteStep::Failed, failure: "创建配置目录失败"@, ..w }
        },
        WriteStep::Temporary => if ok {
            WriteView { step: WriteStep::Replace, ..w }
        } else {
            WriteView { step: WriteStep::Failed, failure: "写入临时配置失败"@, ..w }
        },
        WriteStep::Replace => if ok {
            WriteView { step: WriteStep::Done, ..w }
        } else if w.platform == PlatformTarget::Windows {
            WriteView { step: WriteStep::CheckTarget, ..w }
        } else {
            WriteView { step: WriteStep::Discard, ..w }
        },
        WriteStep::CheckTarget => if ok {
            WriteView { step: WriteStep::RemoveTarget, ..w }
        } else {
            WriteView { step: WriteStep::ReplaceAgain, ..w }
        },
        WriteStep::RemoveTarget => if ok {
            WriteView { step: WriteStep::ReplaceAgain, ..w }
        } else {
            WriteView { step: WriteStep::Discard, ..w }
        },
        WriteStep::ReplaceAgain => if ok {
            WriteView { step: WriteStep::Done, ..w }
        } else {
            WriteView { step: WriteStep::Failed, failure: "替换配置文件失败"@, ..w }
        },
        WriteStep::Discard => WriteView {
            step: WriteStep::Failed,
            failure: "替换配置文件失败"@,
            ..w
        },
        WriteStep::Done => w,
        WriteStep::Failed => w,
    }
}

/// What the step asks for.
pub open spec fn write_action_is(a: WriteAction, w: WriteView) -> bool {
    match w.step {
        WriteStep::Directory => a matches WriteAction::CreateDirectory(d) && d@ == w.directory,
        WriteStep::Temporary => a matches WriteAction::WriteFile(f) && f@ == w.temporary,
        WriteStep::Replace | WriteStep::ReplaceAgain => a matches WriteAction::Rename { from, to }
            && from@ == w.temporary && to@ == w.target,
        WriteStep::CheckTarget => a matches WriteAction::Exists(f) && f@ == w.target,
        WriteStep::RemoveTarget => a matches WriteAction::Remove(f) && f@ == w.target,
        WriteStep::Discard => a matches WriteAction::Remove(f) && f@ == w.temporary,
        WriteStep::Done => a matches WriteAction::Finished(r) && r is Ok,
        WriteStep::Failed => a matches WriteAction::Finished(r) && (r matches Err(e) && e@
            == w.failure),
    }
}

impl AtomicWrite {
    pub fn new(platform: PlatformTarget, file: String) -> (r: AtomicWrite)
        ensures
            r@ == write_of(platform, file@),
    {
        let temporary = re_extended(platform, file.as_str(), "json.tmp");
        match parent_of(platform, file.as_str()) {
            Some(directory) => AtomicWrite {
                platform,
                directory,
                target: file,
                temporary,
                step: WriteStep::Directory,
                failure: "",
            },
            None => AtomicWrite {
                platform,
                directory: "".to_string(),
                target: file,
                temporary,
                step: WriteStep::Failed,
                failure: "配置路径无父目录",
            },
        }
    }

    pub fn action(&self) -> (r: WriteAction)
        ensures
            write_action_is(r, self@),
    {
        match self.step {
            WriteStep::Directory => WriteAction::CreateDirectory(self.directory.clone()),
            WriteStep::Temporary => WriteAction::WriteFile(self.temporary.clone()),
            WriteStep::Replace => WriteAction::Rename {
                from: self.temporary.clone(),
                to: self.target.clone(),
            },
            WriteStep::CheckTarget => WriteAction::Exists(self.target.clone()),
            WriteStep::RemoveTarget => WriteAction::Remove(self.target.clone()),
            WriteStep::ReplaceAgain => WriteAction::Rename {
                from: self.temporary.clone(),
                to: self.target.clone(),
            },
            WriteStep::Discard => WriteAction::Remove(self.temporary.clone()),
            WriteStep::Done => WriteAction::Finished(Ok(())),
            WriteStep::Failed => WriteAction::Finished(Err(self.failure.to_string())),
        }
    }

    /// Takes note of how the last action ended: whether it worked, or whether the file
    /// asked about is there.
    pub fn advance(&mut self, ok: bool)
        ensures
            final(self)@ == written(old(self)@, ok),
    {
        match self.step {
            WriteStep::Directory => if ok {
                self.step = WriteStep::Temporary;
            } else {
                self.step = WriteStep::Failed;
                self.failure = "创建配置目录失败";
            },
            WriteStep::Temporary => if ok {
                self.step = WriteStep::Replace;
            } else {
                self.step = WriteStep::Failed;
                self.failure = "写入临时配置失败";
            },
            WriteStep::Replace => if ok {
                self.step = WriteStep::Done;
            } else if matches!(self.platform, PlatformTarget::Windows) {
                self.step = WriteStep::CheckTarget;
            } else {
                self.step = WriteStep::Discard;
            },
            WriteStep::CheckTarget => if ok {
                self.step = WriteStep::RemoveTarget;
            } else {
                self.step = WriteStep::ReplaceAgain;
            },
            WriteStep::RemoveTarget => if ok {
                self.step = WriteStep::ReplaceAgain;
            } else {
                self.step = WriteStep::Discard;
            },
            WriteStep::ReplaceAgain => if ok {
                self.step = WriteStep::Done;
            } else {
                self.step = WriteStep::Failed;
                self.failure = "替换配置文件失败";
            },
            WriteStep::Discard => {
                self.step = WriteStep::Failed;
                self.failure = "替换配置文件失败";
            },
            WriteStep::Done => {},
            WriteStep::Failed => {},
        }
    }
}

/// What a file holds, as far as the replacement is concerned.
pub enum Held {
    Missing,
    Old,
    New,
    Broken,
}

/// The two files that the replacement works on.
pub struct Disk {
    pub target: Held,
    pub temporary: Held,
}

/// What an action leaves on disk. A write that fails leaves a broken file; a rename or a
/// removal that fails leaves the files as they were.
pub open spec fn disk_after(d: Disk, step: WriteStep, ok: bool) -> Disk {
    match step {
        WriteStep::Temporary => Disk {
            temporary: if ok {
                Held::New
            } else {
                Held::Broken
            },
            ..d
        },
        WriteStep::Replace | WriteStep::ReplaceAgain => if ok {
            Disk { target: d.temporary, temporary: Held::Missing }
        } else {
            d
        },
        WriteStep::RemoveTarget => if ok {
            Disk { target: Held::Missing, ..d }
        } else {
            d
        },
        WriteStep::Discard => if ok {
            Disk { temporary: Held::Missing, ..d }
        } else {
            d
        },
        _ => d,
    }
}

/// Where the replacement and the disk are after the actions ended as `outcomes` says.
pub open spec fn write_run(w: WriteView, d: Disk, outcomes: Seq<bool>) -> (WriteView, Disk)
    decreases outcomes.len(),
{
    if outcomes.len() == 0 {
        (w, d)
    } else {
        write_run(
            written(w, outcomes[0]),
            disk_after(d, w.step, outcomes[0]),
            outcomes.skip(1),
        )
    }
}

/// A complete configuration can be read from one of the two files.
pub open spec fn complete(d: Disk) -> bool {
    d.target is Old || d.target is New || d.temporary is New
}

spec fn write_safe(w: WriteView, d: Disk) -> bool {
    let windows = w.platform == PlatformTarget::Windows;
    match w.step {
        WriteStep::Directory | WriteStep::Temporary => d.target is Old,
        WriteStep::Replace => d.target is Old && d.temporary is New,
        WriteStep::CheckTarget | WriteStep::RemoveTarget => windows && d.target is Old
            && d.temporary is New,
        WriteStep::ReplaceAgain => windows && d.temporary is New,
        WriteStep::Discard => d.target is Old,
        WriteStep::Done => d.target is New && d.temporary is Missing,
        WriteStep::Failed => complete(d) && (!windows ==> d.target is Old),
    }
}

proof fn lemma_write_run_safe(w: WriteView, d: Disk, outcomes: Seq<bool>)
    requires
        write_safe(w, d),
    ensures
        ({
            let (w2, d2) = write_run(w, d, outcomes);
            write_safe(w2, d2) && w2.platform == w.platform
        }),
    decreases outcomes.len(),
{
    if outcomes.len() > 0 {
        lemma_write_run_safe(
            written(w, outcomes[0]),
            disk_after(d, w.step, outcomes[0]),
            outcomes.skip(1),
        );
    }
}

/// At every moment of a replacement, however its actions end, a complete configuration is
/// on disk. Where a file can take the place of another, it is in its place at every moment:
/// the old one until the replacement is done, and still when it failed. Once the replacement
/// is done it is the new one, and no temporary file is left.
pub proof fn saving_keeps_a_complete_config(
    platform: PlatformTarget,
    file: Seq<char>,
    before: Disk,
    outcomes: Seq<bool>,
)
    requires
        before.target is Old,
    ensures
        ({
            let (w, d) = write_run(write_of(platform, file), before, outcomes);
            &&& complete(d)
            &&& platform != PlatformTarget::Windows ==> d.target is Old || d.target is New
            &&& platform != PlatformTarget::Windows && !(w.step is Done) ==> d.target is Old
            &&& w.step is Done ==> d.target is New && d.temporary is Missing
        }),
{
    lemma_write_run_safe(write_of(platform, file), before, outcomes);
}

/// A replacement ends after at most seven actions.
pub proof fn saving_ends(w: WriteView, d: Disk, outcomes: Seq<bool>)
    requires
        outcomes.len() >= 7,
    ensures
        ({
            let (w2, d2) = write_run(w, d, outcomes);
            w2.step is Done || w2.step is Failed
        }),
{
    lemma_write_ended(w, d, outcomes);
}

spec fn steps_left(s: WriteStep) -> nat {
    match s {
        WriteStep::Directory => 7,
        WriteStep::Temporary => 6,
        WriteStep::Replace => 5,
        WriteStep::CheckTarget => 4,
        WriteStep::RemoveTarget => 3,
        WriteStep::ReplaceAgain => 2,
        WriteStep::Discard => 1,
        WriteStep::Done => 0,
        WriteStep::Failed => 0,
    }
}

proof fn lemma_write_ended(w: WriteView, d: Disk, outcomes: Seq<bool>)
    requires
        outcomes.len() >= steps_left(w.step),
    ensures
        steps_left(write_run(w, d, outcomes).0.step) == 0,
    decreases outcomes.len(),
{
    if outcomes.len() > 0 {
        lemma_write_ended(
            written(w, outcomes[0]),
            disk_after(d, w.step, outcomes[0]),
            outcomes.skip(1),
        );
    }
}

// ---------------------------------------------------------------------------
// Where the configuration is, and what it may hold
// ---------------------------------------------------------------------------

/// The actions are stored under these names, which tell them apart.
pub proof fn actions_are_stored_by_name(a: LaunchAction, b: LaunchAction)
    ensures
        LaunchAction::Nothing.stored_name() == "none"@,
        LaunchAction::DefaultBrowser.stored_name() == "default_browser"@,
        LaunchAction::EmbeddedWebview.stored_name() == "embedded_webview"@,
        a.stored_name() == b.stored_name() ==> a == b,
{
    reveal_strlit("none");
    reveal_strlit("default_browser");
    reveal_strlit("embedded_webview");
    assert("none"@.len() == 4 && "default_browser"@.len() == 15);
    assert("embedded_webview"@.len() == 16);
}

/// A configuration is accepted exactly if it names a profile and a host and has a port.
pub proof fn a_complete_configuration_is_accepted(c: LauncherConfig)
    ensures
        config_complaint(c) is None <==> text::trim(c.profile@).len() > 0 && text::trim(
            c.host@,
        ).len() > 0 && c.port != 0,
{
}

/// On Windows the configuration is below the directory that `APPDATA` names, or else below the
/// roaming one of the user; on macOS below the application support of the user; elsewhere below
/// an absolute `XDG_CONFIG_HOME`, or else below `.config`.
pub proof fn the_configuration_has_its_place(
    host: PlatformTarget,
    vars: Seq<(Seq<char>, Seq<char>)>,
)
    ensures
        ({
            let set = |name: Seq<char>|
                looked_up(vars, name) is Some && text::trim(looked_up(vars, name)->0).len() > 0;
            let value = |name: Seq<char>| looked_up(vars, name)->0;
            let windows = config_base(host, PlatformTarget::Windows, vars);
            let mac = config_base(host, PlatformTarget::MacOS, vars);
            let unix = config_base(host, PlatformTarget::Unix, vars);
            let xdg = looked_up(vars, "XDG_CONFIG_HOME"@);
            let xdg_is_absolute = xdg is Some && xdg->0.len() > 0 && xdg->0[0] == '/';
            &&& set("APPDATA"@) ==> windows == Some(value("APPDATA"@))
            &&& !set("APPDATA"@) && set("USERPROFILE"@) ==> windows == Some(
                path::join(
                    host,
                    path::join(host, value("USERPROFILE"@), "AppData"@),
                    "Roaming"@,
                ),
            )
            &&& !set("APPDATA"@) && !set("USERPROFILE"@) ==> windows is None
            &&& set("HOME"@) ==> mac == Some(
                path::join(
                    host,
                    path::join(host, value("HOME"@), "Library"@),
                    "Application Support"@,
                ),
            )
            &&& !set("HOME"@) ==> mac is None
            &&& xdg_is_absolute ==> unix == xdg
            &&& !xdg_is_absolute && set("HOME"@) ==> unix == Some(
                path::join(host, value("HOME"@), ".config"@),
            )
            &&& !xdg_is_absolute && !set("HOME"@) ==> unix is None
        }),
{
    reveal_strlit("/");
    let xdg = looked_up(vars, "XDG_CONFIG_HOME"@);
    if xdg is Some && xdg->0.len() > 0 {
        assert(xdg->0.take(1)[0] == xdg->0[0]);
        if xdg->0[0] == '/' {
            assert(xdg->0.take(1) =~= "/"@);
        }
    }
}

/// The launcher's files are in a directory of its own.
pub proof fn the_launcher_has_its_own_directory(
    host: PlatformTarget,
    vars: Seq<(Seq<char>, Seq<char>)>,
)
    ensures
        ({
            let base = config_base(host, host, vars);
            &&& base is Some ==> platform_config_directory(host, host, vars) == Some(
                path::join(host, base->0, "DSH Launcher"@),
            )
            &&& base is Some ==> config_file(host, vars) == Some(
                path::join(
                    host,
                    path::join(host, base->0, "DSH Launcher"@),
                    "config.json"@,
                ),
            )
            &&& base is None ==> platform_config_directory(host, host, vars) is None && config_file(
                host,
                vars,
            ) is None
        }),
{
}

/// The new configuration is written to a file beside the one that it replaces, in the same
/// directory.
pub proof fn a_configuration_is_written_beside_its_place(host: PlatformTarget, dir: Seq<char>)
    requires
        path::is_plain_directory(host, dir),
    ensures
        ({
            let w = write_of(host, path::join(host, dir, "config.json"@));
            let separator = if host == PlatformTarget::Windows {
                seq!['\\']
            } else {
                seq!['/']
            };
            &&& w.platform == host
            &&& w.directory == dir
            &&& w.target == dir + separator + "config.json"@
            &&& w.temporary == dir + separator + "config.json.tmp"@
            &&& w.step == WriteStep::Directory
        }),
{
    reveal_strlit("config.json");
    reveal_strlit("config.json.tmp");
    reveal_strlit("json.tmp");
    let name = "config.json"@;
    let stem = name.take(6);
    let before = name.skip(7);
    assert(name =~= stem + seq!['.'] + before);
    assert forall|i: int| 0 <= i < name.len() implies name[i] != '/' && name[i] != '\\' && name[i]
        != ':' by {}
    assert(path::is_plain_part(name));
    path::a_directory_holds_its_children(host, dir, name);
    path::an_extension_is_replaced(host, dir, stem, before, "json.tmp"@);
    let separator = if host == PlatformTarget::Windows {
        seq!['\\']
    } else {
        seq!['/']
    };
    assert(path::join(host, dir, name) =~= dir + separator + name);
    assert(dir + separator + stem + seq!['.'] + "json.tmp"@ =~= dir + separator
        + "config.json.tmp"@);
}

/// A file is replaced in steps: the directory, the new file beside the old one, and the new one
/// in its place. If that fails on Windows the old file goes first; elsewhere, or if it cannot
/// be removed, the new one is discarded.
pub proof fn a_file_is_replaced_in_steps(w: WriteView)
    ensures
        ({
            let windows = w.platform == PlatformTarget::Windows;
            let ok = written(w, true);
            let failed = written(w, false);
            &&& w.step == WriteStep::Directory ==> ok == WriteView {
                step: WriteStep::Temporary,
                ..w
            } && failed.step == WriteStep::Failed
            &&& w.step == WriteStep::Temporary ==> ok == WriteView {
                step: WriteStep::Replace,
                ..w
            } && failed.step == WriteStep::Failed
            &&& w.step == WriteStep::Replace ==> ok == WriteView { step: WriteStep::Done, ..w }
            &&& w.step == WriteStep::Replace && windows ==> failed == WriteView {
                step: WriteStep::CheckTarget,
                ..w
            }
            &&& w.step == WriteStep::Replace && !windows ==> failed == WriteView {
                step: WriteStep::Discard,
                ..w
            }
            &&& w.step == WriteStep::CheckTarget ==> ok == WriteView {
                step: WriteStep::RemoveTarget,
                ..w
            } && failed == WriteView { step: WriteStep::ReplaceAgain, ..w }
            &&& w.step == WriteStep::RemoveTarget ==> ok == WriteView {
                step: WriteStep::ReplaceAgain,
                ..w
            } && failed == WriteView { step: WriteStep::Discard, ..w }
            &&& w.step == WriteStep::ReplaceAgain ==> ok == WriteView { step: WriteStep::Done, ..w }
                && failed.step == WriteStep::Failed
            &&& w.step == WriteStep::Discard ==> ok.step == WriteStep::Failed && failed.step
                == WriteStep::Failed
            &&& w.step == WriteStep::Done || w.step == WriteStep::Failed ==> ok == w && failed == w
        }),
{
}

/// The old file is touched by nothing but the renaming of the new one and, where it must go
/// first, its removal; what is discarded is the new one.
pub proof fn only_the_two_files_are_touched(a: WriteAction, w: WriteView)
    requires
        write_action_is(a, w),
    ensures
        w.step == WriteStep::Directory ==> a is CreateDirectory && a->CreateDirectory_0@
            == w.directory,
        w.step == WriteStep::Temporary ==> a is WriteFile && a->WriteFile_0@ == w.temporary,
        w.step == WriteStep::Replace || w.step == WriteStep::ReplaceAgain ==> a is Rename
            && a->from@ == w.temporary && a->to@ == w.target,
        w.step == WriteStep::CheckTarget ==> a is Exists && a->Exists_0@ == w.target,
        w.step == WriteStep::RemoveTarget ==> a is Remove && a->Remove_0@ == w.target,
        w.step == WriteStep::Discard ==> a is Remove && a->Remove_0@ == w.temporary,
        w.step == WriteStep::Done ==> a is Finished && a->Finished_0 is Ok,
        w.step == WriteStep::Failed ==> a is Finished && a->Finished_0 is Err,
{
}

} // verus!
