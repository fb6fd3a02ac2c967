//! Opening an address with the program that the system has for it.
//!
//! Where one program definitely failed the next is tried. Where it is unclear what one did,
//! no other is tried: the address would be opened twice.

use vstd::prelude::*;

use crate::config::PlatformTarget;
use crate::text;
use crate::text::{after_prefix, chars_of, equal, joined, string_of};

verus! {

/// How long a program may take.
pub const OPEN_URL_TIMEOUT_SECS: u64 = 6;

/// What became of one program.
#[derive(Debug, Clone, Copy, PartialEq, Eq, Structural)]
pub enum OpenerOutcome {
    Opened,
    Failed,
    TimedOut,
}

impl OpenerOutcome {
    /// Only a definite failure is followed by another program.
    pub fn should_try_next(self) -> (r: bool)
        ensures
            r == (self == OpenerOutcome::Failed),
    {
        !matches!(self, OpenerOutcome::Opened | OpenerOutcome::TimedOut)
    }
}

/// The programs for a desktop, with what stands before the address, in the order in which
/// they are tried.
pub open spec fn desktop_programs(is_linux: bool) -> Seq<(Seq<char>, Seq<Seq<char>>)> {
    if is_linux {
        seq![("xdg-open"@, seq![]), ("gio"@, seq!["open"@])]
    } else {
        seq![("xdg-open"@, seq![])]
    }
}

pub open spec fn programs_view(v: Seq<(&'static str, Vec<&'static str>)>) -> Seq<
    (Seq<char>, Seq<Seq<char>>),
> {
    v.map_values(
        |p: (&'static str, Vec<&'static str>)| (p.0@, p.1@.map_values(|a: &'static str| a@)),
    )
}

pub fn open_program_candidates(is_linux: bool) -> (r: Vec<(&'static str, Vec<&'static str>)>)
    ensures
        programs_view(r@) == desktop_programs(is_linux),
{
    let mut candidates: Vec<(&'static str, Vec<&'static str>)> = Vec::new();
    let none: Vec<&'static str> = Vec::new();
    assert(none@.map_values(|a: &'static str| a@) =~= Seq::<Seq<char>>::empty());
    candidates.push(("xdg-open", none));
    if is_linux {
        let mut args: Vec<&'static str> = Vec::new();
        args.push("open");
        assert(args@.map_values(|a: &'static str| a@) =~= seq!["open"@]);
        candidates.push(("gio", args));
    }
    assert(programs_view(candidates@) =~= desktop_programs(is_linux));
    candidates
}

/// A program and its arguments.
#[derive(Debug)]
pub struct OpenCommand {
    pub program: String,
    pub args: Vec<String>,
    /// It is ended after a while.
    pub limited: bool,
}

#[verifier::ext_equal]
pub struct OpenCommandView {
    pub program: Seq<char>,
    pub args: Seq<Seq<char>>,
    pub limited: bool,
}

impl View for OpenCommand {
    type V = OpenCommandView;

    open spec fn view(&self) -> OpenCommandView {
        OpenCommandView {
            program: self.program@,
            args: text::texts(self.args@),
            limited: self.limited,
        }
    }
}

/// What became of the command.
#[derive(Debug)]
pub enum OpenEvent {
    /// It ended, with the status as the system words it.
    Exited { success: bool, status: String },
    NotStarted(String),
    TimedOut,
}

/// The commands for an address, in the order in which they are tried.
pub open spec fn open_commands(host: PlatformTarget, is_linux: bool, url: Seq<char>) -> Seq<
    OpenCommandView,
> {
    match host {
        PlatformTarget::MacOS => seq![
            OpenCommandView { program: "open"@, args: seq![url], limited: false },
        ],
        PlatformTarget::Windows => seq![
            OpenCommandView { program: "explorer.exe"@, args: seq![url], limited: false },
            OpenCommandView {
                program: "cmd.exe"@,
                args: seq!["/D"@, "/C"@, "start"@, ""@, url],
                limited: false,
            },
        ],
        PlatformTarget::Unix => desktop_programs(is_linux).map_values(
            |p: (Seq<char>, Seq<Seq<char>>)|
                OpenCommandView { program: p.0, args: p.1.push(url), limited: true },
        ),
    }
}

/// An address that is being opened.
#[derive(Debug)]
pub struct Opener {
    pub host: PlatformTarget,
    pub is_linux: bool,
    pub url: String,
    /// How many commands have failed.
    pub tried: usize,
    pub failures: Vec<String>,
    pub outcome: Option<Result<(), String>>,
}

#[verifier::ext_equal]
pub struct OpenerView {
    pub host: PlatformTarget,
    pub is_linux: bool,
    pub url: Seq<char>,
    pub tried: int,
    pub failures: Seq<Seq<char>>,
    pub outcome: Option<Result<(), Seq<char>>>,
}

pub open spec fn outcome_view(o: Option<Result<(), String>>) -> Option<Result<(), Seq<char>>> {
    match o {
        None => None,
        Some(Ok(_)) => Some(Ok(())),
        Some(Err(e)) => Some(Err(e@)),
    }
}

impl View for Opener {
    type V = OpenerView;

    open spec fn view(&self) -> OpenerView {
        OpenerView {
            host: self.host,
            is_linux: self.is_linux,
            url: self.url@,
            tried: self.tried as int,
            failures: text::texts(self.failures@),
            outcome: outcome_view(self.outcome),
        }
    }
}

impl OpenerView {
    pub open spec fn commands(self) -> Seq<OpenCommandView> {
        open_commands(self.host, self.is_linux, self.url)
    }

    /// There is a command for as long as there is no outcome.
    pub open spec fn wf(self) -> bool {
        self.outcome is None ==> 0 <= self.tried < self.commands().len()
    }

    pub open spec fn ended(self, outcome: Result<(), Seq<char>>) -> OpenerView {
        OpenerView { outcome: Some(outcome), ..self }
    }

    /// What is said of a command that failed.
    pub open spec fn failure(self, event: OpenEvent) -> Seq<char> {
        let program = self.commands()[self.tried].program;
        match (self.host, event) {
            (PlatformTarget::Unix, OpenEvent::NotStarted(_)) => program + " 无法启动"@,
            (PlatformTarget::Unix, _) => program + " 退出码非零"@,
            (_, OpenEvent::NotStarted(e)) => program + "："@ + e@,
            (_, OpenEvent::Exited { status, .. }) => program + " 退出码 "@ + status@,
            _ => program,
        }
    }

    /// The command failed: the next one is tried, if there is one.
    pub open spec fn next(self, event: OpenEvent) -> OpenerView {
        let v = OpenerView {
            failures: self.failures.push(self.failure(event)),
            tried: self.tried + 1,
            ..self
        };
        if v.tried < v.commands().len() {
            v
        } else {
            v.ended(Err("打开浏览器失败："@ + text::join(v.failures, "；"@)))
        }
    }
}

/// The opener after an event. Only on a desktop other than macOS and Windows are the
/// programs limited in time.
pub open spec fn opener_advanced(v: OpenerView, event: OpenEvent) -> OpenerView {
    if v.outcome is Some {
        v
    } else {
        match (v.host, event) {
            (_, OpenEvent::Exited { success: true, .. }) => v.ended(Ok(())),
            (PlatformTarget::MacOS, OpenEvent::Exited { .. }) => v.ended(
                Err("打开浏览器失败"@),
            ),
            (PlatformTarget::MacOS, OpenEvent::NotStarted(e)) => v.ended(
                Err("打开浏览器失败："@ + e@),
            ),
            (PlatformTarget::Unix, OpenEvent::TimedOut) => v.ended(
                Err(
                    "打开浏览器失败："@ + v.commands()[v.tried].program
                        + " 执行超时（超过 6s），子进程已被终止；状态不明确，不再回退其他程序"@,
                ),
            ),
            (_, OpenEvent::TimedOut) => v,
            _ => v.next(event),
        }
    }
}

/// Begins to open an address.
pub fn open_default(host: PlatformTarget, is_linux: bool, url: &str) -> (r: Opener)
    ensures
        r@ == (OpenerView {
            host,
            is_linux,
            url: url@,
            tried: 0,
            failures: Seq::empty(),
            outcome: None,
        }),
        r@.wf(),
{
    let r = Opener {
        host,
        is_linux,
        url: url.to_string(),
        tried: 0,
        failures: Vec::new(),
        outcome: None,
    };
    assert(r@.failures =~= Seq::<Seq<char>>::empty());
    r
}

fn command(program: &str, args: Vec<String>, limited: bool) -> (r: OpenCommand)
    ensures
        r@ == (OpenCommandView { program: program@, args: text::texts(args@), limited }),
{
    OpenCommand { program: program.to_string(), args, limited }
}

impl Opener {
    fn only_url(&self) -> (r: Vec<String>)
        ensures
            text::texts(r@) == seq![self@.url],
    {
        let mut args: Vec<String> = Vec::new();
        args.push(self.url.clone());
        assert(text::texts(args@) =~= seq![self@.url]);
        args
    }

    /// The command that is tried now, while there is no outcome.
    pub fn action(&self) -> (r: Option<OpenCommand>)
        requires
            self@.wf(),
        ensures
            match r {
                Some(c) => self@.outcome is None && c@ == self@.commands()[self@.tried],
                None => self@.outcome is Some,
            },
    {
        if self.outcome.is_some() {
            return None;
        }
        match self.host {
            PlatformTarget::MacOS => Some(command("open", self.only_url(), false)),
            PlatformTarget::Windows => {
                if self.tried == 0 {
                    Some(command("explorer.exe", self.only_url(), false))
                } else {
                    let mut args: Vec<String> = Vec::new();
                    args.push("/D".to_string());
                    args.push("/C".to_string());
                    args.push("start".to_string());
                    args.push("".to_string());
                    args.push(self.url.clone());
                    assert(text::texts(args@) =~= seq!["/D"@, "/C"@, "start"@, ""@, self@.url]);
                    Some(command("cmd.exe", args, false))
                }
            },
            PlatformTarget::Unix => {
                let candidates = open_program_candidates(self.is_linux);
                let ghost programs = desktop_programs(self.is_linux);
                assert(self@.commands().len() == programs.len());
                assert(programs_view(candidates@).len() == candidates@.len());
                assert(programs[self.tried as int] == programs_view(
                    candidates@,
                )[self.tried as int]);
                let mut args: Vec<String> = Vec::new();
                let ghost wanted = programs[self.tried as int].1;
                let mut i: usize = 0;
                while i < candidates[self.tried].1.len()
                    invariant
                        self.tried < candidates@.len(),
                        wanted == candidates@[self.tried as int].1@.map_values(
                            |a: &'static str| a@,
                        ),
                        i <= candidates@[self.tried as int].1@.len(),
                        text::texts(args@) == wanted.take(i as int),
                    decreases candidates@[self.tried as int].1@.len() - i,
                {
                    let ghost before = text::texts(args@);
                    let arg = candidates[self.tried].1[i].to_string();
                    args.push(arg);
                    assert(text::texts(args@) =~= before.push(arg@));
                    assert(wanted.take(i + 1) =~= wanted.take(i as int).push(wanted[i as int]));
                    i = i + 1;
                }
                assert(wanted.take(i as int) =~= wanted);
                args.push(self.url.clone());
                assert(text::texts(args@) =~= wanted.push(self@.url));
                Some(command(candidates[self.tried].0, args, true))
            },
        }
    }

    fn program(&self) -> (r: String)
        requires
            self@.wf(),
            self@.outcome is None,
        ensures
            r@ == self@.commands()[self@.tried].program,
    {
        match self.action() {
            Some(c) => c.program,
            None => String::new(),
        }
    }

    fn fail_over(&mut self, failure: String, Ghost(event): Ghost<OpenEvent>)
        requires
            old(self)@.wf(),
            old(self)@.outcome is None,
            failure@ == old(self)@.failure(event),
        ensures
            final(self)@ == old(self)@.next(event),
    {
        let ghost before = self@;
        self.failures.push(failure);
        assert(self@.failures =~= before.failures.push(failure@));
        let count: usize = match self.host {
            PlatformTarget::MacOS => 1,
            PlatformTarget::Windows => 2,
            PlatformTarget::Unix => if self.is_linux {
                2
            } else {
                1
            },
        };
        assert(count == before.commands().len());
        self.tried = self.tried + 1;
        if self.tried >= count {
            let all = joined(self.failures.as_slice(), "；");
            self.outcome = Some(
                Err("打开浏览器失败：".to_string().concat(all.as_str())),
            );
        }
    }

    /// Takes note of what became of the command.
    pub fn advance(&mut self, event: OpenEvent)
        requires
            old(self)@.wf(),
        ensures
            final(self)@ == opener_advanced(old(self)@, event),
            final(self)@.wf(),
    {
        if self.outcome.is_some() {
            return;
        }
        let ghost told = event;
        let program = self.program();
        match (self.host, event) {
            (_, OpenEvent::Exited { success: true, .. }) => {
                self.outcome = Some(Ok(()));
            },
            (PlatformTarget::MacOS, OpenEvent::Exited { .. }) => {
                self.outcome = Some(Err("打开浏览器失败".to_string()));
            },
            (PlatformTarget::MacOS, OpenEvent::NotStarted(e)) => {
                self.outcome = Some(
                    Err("打开浏览器失败：".to_string().concat(e.as_str())),
                );
            },
            (PlatformTarget::Unix, OpenEvent::TimedOut) => {
                self.outcome = Some(
                    Err(
                        "打开浏览器失败：".to_string().concat(program.as_str()).concat(
                            " 执行超时（超过 6s），子进程已被终止；状态不明确，不再回退其他程序",
                        ),
                    ),
                );
            },
            (_, OpenEvent::TimedOut) => {},
            (PlatformTarget::Unix, OpenEvent::NotStarted(_)) => {
                self.fail_over(program.concat(" 无法启动"), Ghost(told));
            },
            (PlatformTarget::Unix, _) => {
                self.fail_over(program.concat(" 退出码非零"), Ghost(told));
            },
            (_, OpenEvent::NotStarted(e)) => {
                self.fail_over(program.concat("：").concat(e.as_str()), Ghost(told));
            },
            (_, OpenEvent::Exited { status, .. }) => {
                self.fail_over(
                    program.concat(" 退出码 ").concat(status.as_str()),
                    Ghost(told),
                );
            },
        }
    }
}

/// Once a program has opened the address, or has been ended because it took too long, no
/// other is tried.
pub proof fn an_address_is_not_opened_twice(v: OpenerView, event: OpenEvent, later: OpenEvent)
    requires
        v.wf(),
        v.outcome is None,
        (event matches OpenEvent::Exited { success, .. } && success) || (event is TimedOut
            && v.host == PlatformTarget::Unix),
    ensures
        opener_advanced(v, event).outcome is Some,
        opener_advanced(opener_advanced(v, event), later) == opener_advanced(v, event),
{
}

/// Opening fails only when every program has failed, or one of them took too long.
pub proof fn every_program_is_tried(v: OpenerView, event: OpenEvent)
    requires
        v.wf(),
        v.outcome is None,
        opener_advanced(v, event).outcome matches Some(Err(_)),
    ensures
        event is TimedOut || v.tried + 1 == v.commands().len(),
{
}

// ---------------------------------------------------------------------------
// Words for the log
// ---------------------------------------------------------------------------

/// What the log says, in English, of an action after the launch that failed.
pub open spec fn in_english(error: Seq<char>) -> Seq<char> {
    if let Some(detail) = text::strip_prefix(error, "无效的 DSH URL："@) {
        "Invalid DSH URL: "@ + detail
    } else if let Some(detail) = text::strip_prefix(error, "打开内置 WebView 失败："@) {
        "Failed to open embedded WebView: "@ + detail
    } else if let Some(detail) = text::strip_prefix(error, "打开浏览器失败："@) {
        "Failed to open browser: "@ + detail
    } else if error == "打开浏览器失败"@ {
        "Failed to open browser"@
    } else {
        "Post-launch action failed"@
    }
}

pub fn english_launch_action_error(error: &str) -> (r: String)
    ensures
        r@ == in_english(error@),
{
    let chars = chars_of(error);
    if let Some(detail) = after_prefix(chars.as_slice(), "无效的 DSH URL：") {
        return "Invalid DSH URL: ".to_string().concat(string_of(detail).as_str());
    }
    if let Some(detail) = after_prefix(chars.as_slice(), "打开内置 WebView 失败：") {
        return "Failed to open embedded WebView: ".to_string().concat(
            string_of(detail).as_str(),
        );
    }
    if let Some(detail) = after_prefix(chars.as_slice(), "打开浏览器失败：") {
        return "Failed to open browser: ".to_string().concat(string_of(detail).as_str());
    }
    if equal(error, "打开浏览器失败") {
        return "Failed to open browser".to_string();
    }
    "Post-launch action failed".to_string()
}

// ---------------------------------------------------------------------------
// Which programs open an address
// ---------------------------------------------------------------------------

/// The programs that are tried, each with the address as its last argument: `open` on macOS,
/// the explorer and then the command interpreter on Windows, and the desktop's programs
/// elsewhere, which alone are ended when they take too long.
pub proof fn the_programs_of_a_system_are_tried(is_linux: bool, url: Seq<char>)
    ensures
        ({
            let mac = open_commands(PlatformTarget::MacOS, is_linux, url);
            let windows = open_commands(PlatformTarget::Windows, is_linux, url);
            let desktop = open_commands(PlatformTarget::Unix, is_linux, url);
            &&& mac.len() == 1
            &&& mac[0].program == "open"@ && mac[0].args == seq![url] && !mac[0].limited
            &&& windows.len() == 2
            &&& windows[0].program == "explorer.exe"@ && windows[0].args == seq![url]
            &&& windows[1].program == "cmd.exe"@ && windows[1].args == seq![
                "/D"@,
                "/C"@,
                "start"@,
                ""@,
                url,
            ]
            &&& !windows[0].limited && !windows[1].limited
            &&& desktop.len() == if is_linux {
                2int
            } else {
                1int
            }
            &&& desktop[0].program == "xdg-open"@ && desktop[0].args == seq![url]
            &&& desktop[0].limited
            &&& is_linux ==> desktop[1].program == "gio"@ && desktop[1].args == seq!["open"@, url]
                && desktop[1].limited
        }),
{
    let desktop = open_commands(PlatformTarget::Unix, is_linux, url);
    assert(desktop[0].args =~= seq![url]);
    if is_linux {
        assert(desktop[1].args =~= seq!["open"@, url]);
    }
}

/// A program that ended well has opened the address. After one that failed the next is tried,
/// as long as there is one; macOS has no other, and a program that took too long is followed by
/// none.
pub proof fn the_next_program_follows_a_failure(
    v: OpenerView,
    status: String,
    why: String,
)
    requires
        v.wf(),
        v.outcome is None,
    ensures
        ({
            let well = opener_advanced(v, OpenEvent::Exited { success: true, status });
            let badly = opener_advanced(v, OpenEvent::Exited { success: false, status });
            let not_started = opener_advanced(v, OpenEvent::NotStarted(why));
            let timed_out = opener_advanced(v, OpenEvent::TimedOut);
            let another = match v.host {
                PlatformTarget::MacOS => false,
                PlatformTarget::Windows => v.tried == 0,
                PlatformTarget::Unix => v.is_linux && v.tried == 0,
            };
            &&& well.outcome == Some(Ok::<(), Seq<char>>(()))
            &&& another ==> badly.outcome is None && badly.tried == v.tried + 1
            &&& another ==> not_started.outcome is None && not_started.tried == v.tried + 1
            &&& !another ==> badly.outcome is Some && badly.outcome->0 is Err
            &&& !another ==> not_started.outcome is Some && not_started.outcome->0 is Err
            &&& v.host == PlatformTarget::Unix ==> timed_out.outcome is Some
                && timed_out.outcome->0 is Err
            &&& badly.url == v.url && not_started.url == v.url
        }),
{
    the_programs_of_a_system_are_tried(v.is_linux, v.url);
}

/// What the log says of a failure keeps what the failure says.
pub proof fn the_log_keeps_the_reason(detail: Seq<char>)
    ensures
        in_english("无效的 DSH URL："@ + detail) == "Invalid DSH URL: "@ + detail,
        in_english("打开内置 WebView 失败："@ + detail) == "Failed to open embedded WebView: "@
            + detail,
        in_english("打开浏览器失败："@ + detail) == "Failed to open browser: "@ + detail,
        in_english("打开浏览器失败"@) == "Failed to open browser"@,
{
    reveal_strlit("无效的 DSH URL：");
    reveal_strlit("打开内置 WebView 失败：");
    reveal_strlit("打开浏览器失败：");
    reveal_strlit("打开浏览器失败");
    let invalid = "无效的 DSH URL："@;
    let view = "打开内置 WebView 失败："@;
    let browser = "打开浏览器失败："@;
    let plain = "打开浏览器失败"@;
    let a = invalid + detail;
    assert(a.take(invalid.len() as int) =~= invalid);
    assert(a.skip(invalid.len() as int) =~= detail);
    let b = view + detail;
    assert(b.take(view.len() as int) =~= view);
    assert(b.skip(view.len() as int) =~= detail);
    assert(b.take(invalid.len() as int)[0] == view[0]);
    let c = browser + detail;
    assert(c.take(browser.len() as int) =~= browser);
    assert(c.skip(browser.len() as int) =~= detail);
    if c.len() >= invalid.len() {
        assert(c.take(invalid.len() as int)[0] == browser[0]);
    }
    if c.len() >= view.len() {
        assert(c.take(view.len() as int)[2] == browser[2]);
    }
}

} // verus!
