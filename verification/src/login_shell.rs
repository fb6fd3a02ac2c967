//! How the user's login shell is found and asked: for the environment that it sets up, or
//! for the place of the DSH command.

use vstd::prelude::*;

use crate::adapters;
use crate::adapters::lossy_text;
use crate::config::{is_blank, PlatformTarget};
use crate::environment;
use crate::environment::{
    copied_bytes, environment_key_eq, extract_after_marker, set_environment_value, text_bytes,
    Vars,
};
use crate::path;
use crate::path::{is_same_path, name_of};
use crate::process::{CommandOutcome, Query};
use crate::text;
use crate::text::{
    after_prefix, chars_of, equal, lines_of, number, split_at_char, string_of, trimmed,
};

verus! {

/// How many seconds all attempts together may take.
pub const LOGIN_SHELL_TIMEOUT_SECS: u64 = 8;

/// How often a program that was started is looked at.
pub const SPAWN_POLL_MILLIS: u64 = 20;

/// What the scripts print before anything that counts; start-up files may print before it.
pub const LOGIN_SHELL_MARKER: &'static str = "__DSH_LAUNCHER_ENV__";

pub const LOGIN_SHELL_ENV_SCRIPT: &'static str =
    "umask 077; echo __DSH_LAUNCHER_ENV__ > \"$DSH_LAUNCHER_ENV_FILE\"; env -0 >> \"$DSH_LAUNCHER_ENV_FILE\" 2>/dev/null || env >> \"$DSH_LAUNCHER_ENV_FILE\" 2>/dev/null";

pub const LOGIN_SHELL_FISH_ENV_SCRIPT: &'static str =
    "umask 077; echo __DSH_LAUNCHER_ENV__ > \"$DSH_LAUNCHER_ENV_FILE\"; env -0 >> \"$DSH_LAUNCHER_ENV_FILE\" 2>/dev/null; or env >> \"$DSH_LAUNCHER_ENV_FILE\" 2>/dev/null";

pub const LOGIN_SHELL_DSH_SCRIPT: &'static str =
    "umask 077; echo \"__DSH_LAUNCHER_ENV__\" > \"$DSH_LAUNCHER_ENV_FILE\"; command -v dsh >> \"$DSH_LAUNCHER_ENV_FILE\" 2>/dev/null";

// ---------------------------------------------------------------------------
// Which shells
// ---------------------------------------------------------------------------

/// The shells that are tried when the user's own is not there.
pub open spec fn fallback_shells() -> Seq<Seq<char>> {
    seq![
        "/bin/bash"@,
        "/usr/bin/bash"@,
        "/bin/zsh"@,
        "/usr/bin/zsh"@,
        "/usr/local/bin/zsh"@,
        "/opt/homebrew/bin/zsh"@,
        "/usr/local/bin/bash"@,
        "/opt/homebrew/bin/bash"@,
        "/bin/fish"@,
        "/usr/bin/fish"@,
        "/usr/local/bin/fish"@,
        "/opt/homebrew/bin/fish"@,
        "/bin/sh"@,
        "/usr/bin/sh"@,
    ]
}

/// The shells that may be tried, in order, whether they are there or not.
pub fn login_shell_names(env_shell: Option<&str>) -> (r: Vec<String>)
    ensures
        text::texts(r@) == shell_names(
            match env_shell {
                Some(s) => Some(s@),
                None => None,
            },
        ),
{
    let mut names: Vec<String> = Vec::new();
    if let Some(shell) = env_shell {
        names.push(string_of(trimmed(chars_of(shell).as_slice())));
    }
    names.push("/bin/bash".to_string());
    names.push("/usr/bin/bash".to_string());
    names.push("/bin/zsh".to_string());
    names.push("/usr/bin/zsh".to_string());
    names.push("/usr/local/bin/zsh".to_string());
    names.push("/opt/homebrew/bin/zsh".to_string());
    names.push("/usr/local/bin/bash".to_string());
    names.push("/opt/homebrew/bin/bash".to_string());
    names.push("/bin/fish".to_string());
    names.push("/usr/bin/fish".to_string());
    names.push("/usr/local/bin/fish".to_string());
    names.push("/opt/homebrew/bin/fish".to_string());
    names.push("/bin/sh".to_string());
    names.push("/usr/bin/sh".to_string());
    assert(text::texts(names@) =~= shell_names(
        match env_shell {
            Some(s) => Some(s@),
            None => None,
        },
    ));
    names
}

pub open spec fn shell_names(env_shell: Option<Seq<char>>) -> Seq<Seq<char>> {
    match env_shell {
        Some(s) => seq![text::trim(s)] + fallback_shells(),
        None => fallback_shells(),
    }
}

/// One of the paths is the path `p`, however it is written.
pub open spec fn lists_path(paths: Seq<Seq<char>>, p: Seq<char>) -> bool {
    exists|i: int| 0 <= i < paths.len() && path::same_path(#[trigger] paths[i], p)
}

/// The shells among the names that are there, each once, in the order of the names.
pub open spec fn usable_shells(names: Seq<Seq<char>>, existing: Seq<Seq<char>>) -> Seq<Seq<char>>
    decreases names.len(),
{
    if names.len() == 0 {
        Seq::empty()
    } else {
        let front = usable_shells(names.drop_last(), existing);
        let name = text::trim(names.last());
        if name.len() > 0 && !lists_path(front, name) && existing.contains(name) {
            front.push(name)
        } else {
            front
        }
    }
}

fn holds_path(paths: &Vec<String>, p: &str) -> (r: bool)
    ensures
        r == lists_path(text::texts(paths@), p@),
{
    let ghost all = text::texts(paths@);
    let mut i: usize = 0;
    while i < paths.len()
        invariant
            i <= paths.len(),
            all == text::texts(paths@),
            forall|j: int| 0 <= j < i ==> !path::same_path(#[trigger] all[j], p@),
        decreases paths.len() - i,
    {
        assert(all[i as int] == paths@[i as int]@);
        if is_same_path(paths[i].as_str(), p) {
            return true;
        }
        i += 1;
    }
    false
}

pub fn holds_text(v: &Vec<String>, x: &str) -> (r: bool)
    ensures
        r == text::texts(v@).contains(x@),
{
    let ghost all = text::texts(v@);
    let mut i: usize = 0;
    while i < v.len()
        invariant
            i <= v.len(),
            all == text::texts(v@),
            forall|j: int| 0 <= j < i ==> all[j] != x@,
        decreases v.len() - i,
    {
        assert(all[i as int] == v@[i as int]@);
        if equal(v[i].as_str(), x) {
            return true;
        }
        i += 1;
    }
    false
}

/// The shells to try: the user's own first, then the usual ones, as far as they are there.
pub fn login_shell_candidates(env_shell: Option<&str>, existing: &Vec<String>) -> (r: Vec<String>)
    ensures
        text::texts(r@) == usable_shells(
            shell_names(
                match env_shell {
                    Some(s) => Some(s@),
                    None => None,
                },
            ),
            text::texts(existing@),
        ),
{
    let names = login_shell_names(env_shell);
    let ghost all = text::texts(names@);
    let ghost there = text::texts(existing@);
    let mut out: Vec<String> = Vec::new();
    let mut i: usize = 0;
    assert(text::texts(out@) =~= usable_shells(all.take(0), there));
    while i < names.len()
        invariant
            i <= names.len(),
            all == text::texts(names@),
            there == text::texts(existing@),
            text::texts(out@) == usable_shells(all.take(i as int), there),
        decreases names.len() - i,
    {
        let ghost next = all.take(i as int + 1);
        let ghost before = text::texts(out@);
        assert(next.drop_last() == all.take(i as int));
        assert(next.last() == names@[i as int]@);
        let chars = chars_of(names[i].as_str());
        let t = trimmed(chars.as_slice());
        if t.len() > 0 {
            let name = string_of(t);
            if !holds_path(&out, name.as_str()) && holds_text(existing, name.as_str()) {
                out.push(name);
                assert(text::texts(out@) =~= before.push(t@));
            }
        }
        i += 1;
    }
    assert(all.take(all.len() as int) == all);
    out
}

/// The user's own shell: the one that the environment names, else the one of the account.
pub fn preferred_shell(env_shell: Option<String>, account: Option<String>) -> (r: Option<String>)
    ensures
        text::opt_text(r) == (match crate::config::filled(text::opt_text(env_shell)) {
            Some(s) => Some(s),
            None => text::opt_text(account),
        }),
{
    match env_shell {
        Some(shell) => if is_blank(shell.as_str()) {
            account
        } else {
            Some(shell)
        },
        None => account,
    }
}

/// The command that shows the shell of an account.
pub open spec fn account_args(platform: PlatformTarget, user: Seq<char>) -> Seq<Seq<char>> {
    if platform == PlatformTarget::MacOS {
        seq!["."@, "-read"@, "/Users/"@ + user, "UserShell"@]
    } else {
        seq!["passwd"@, user]
    }
}

pub fn account_query(platform: PlatformTarget, user: Option<&str>) -> (r: Option<Query>)
    ensures
        match r {
            Some(q) => user is Some && !crate::config::blank(user->0@) && q.program@ == (
            if platform == PlatformTarget::MacOS {
                "dscl"@
            } else {
                "getent"@
            }) && text::texts(q.args@) == account_args(platform, user->0@),
            None => user is None || crate::config::blank(user->0@),
        },
{
    let user = match user {
        Some(user) => user,
        None => return None,
    };
    if is_blank(user) {
        return None;
    }
    let mut args: Vec<String> = Vec::new();
    let query = if matches!(platform, PlatformTarget::MacOS) {
        args.push(".".to_string());
        args.push("-read".to_string());
        args.push("/Users/".to_string().concat(user));
        args.push("UserShell".to_string());
        Query { program: "dscl", args }
    } else {
        args.push("passwd".to_string());
        args.push(user.to_string());
        Query { program: "getent", args }
    };
    assert(text::texts(query.args@) =~= account_args(platform, user@));
    Some(query)
}

/// What follows the name of the record on the first line that starts with it.
pub open spec fn record_value(lines: Seq<Seq<char>>) -> Option<Seq<char>>
    decreases lines.len(),
{
    if lines.len() == 0 {
        None
    } else {
        match text::strip_prefix(lines[0], "UserShell:"@) {
            Some(rest) => Some(text::trim(rest)),
            None => record_value(lines.skip(1)),
        }
    }
}

/// The seventh field of the first line, without the white space around it.
pub open spec fn passwd_shell(lines: Seq<Seq<char>>) -> Option<Seq<char>> {
    if lines.len() > 0 && text::split(lines[0], ':').len() > 6 {
        Some(text::trim(text::split(lines[0], ':')[6]))
    } else {
        None
    }
}

/// The shell that the account record names, unless it is empty.
pub open spec fn account_shell(platform: PlatformTarget, record: Seq<char>) -> Option<Seq<char>> {
    let shell = if platform == PlatformTarget::MacOS {
        record_value(text::lines(record))
    } else {
        passwd_shell(text::lines(record))
    };
    match shell {
        Some(s) => if s.len() > 0 {
            Some(s)
        } else {
            None
        },
        None => None,
    }
}

#[verifier::loop_isolation(false)]
fn read_account_shell(platform: PlatformTarget, record: &str) -> (r: Option<String>)
    ensures
        text::opt_text(r) == account_shell(platform, record@),
{
    let lines = lines_of(chars_of(record).as_slice());
    let ghost all = text::lines(record@);
    if matches!(platform, PlatformTarget::MacOS) {
        let mut i: usize = 0;
        assert(all.skip(0) == all);
        while i < lines.len()
            invariant
                i <= lines.len(),
                record_value(all) == record_value(all.skip(i as int)),
            decreases lines.len() - i,
        {
            assert(all.skip(i as int)[0] == lines@[i as int]@);
            if let Some(rest) = after_prefix(lines[i].as_slice(), "UserShell:") {
                let t = trimmed(rest);
                return if t.len() > 0 {
                    Some(string_of(t))
                } else {
                    None
                };
            }
            assert(all.skip(i as int).skip(1) == all.skip(i as int + 1));
            i += 1;
        }
        return None;
    }
    if lines.len() == 0 {
        return None;
    }
    assert(all[0] == lines@[0]@);
    let fields = split_at_char(lines[0].as_slice(), ':');
    if fields.len() <= 6 {
        return None;
    }
    assert(text::split(all[0], ':')[6] == fields@[6]@);
    let t = trimmed(fields[6].as_slice());
    if t.len() > 0 {
        Some(string_of(t))
    } else {
        None
    }
}

/// The shell of the account, by what the command printed.
pub fn default_login_shell(platform: PlatformTarget, shown: &CommandOutcome) -> (r: Option<String>)
    ensures
        match *shown {
            CommandOutcome::Finished { success, stdout } => if success {
                text::opt_text(r) == account_shell(platform, adapters::lossy(stdout@))
            } else {
                r is None
            },
            CommandOutcome::NotRun(_) => r is None,
        },
{
    match shown {
        CommandOutcome::Finished { success, stdout } => if *success {
            read_account_shell(platform, lossy_text(stdout.as_slice()).as_str())
        } else {
            None
        },
        CommandOutcome::NotRun(_) => None,
    }
}

// ---------------------------------------------------------------------------
// Which attempts
// ---------------------------------------------------------------------------

/// One way to ask one shell.
#[derive(Debug)]
pub struct Attempt {
    pub shell: String,
    /// Whether it is asked as an interactive login shell.
    pub interactive: bool,
}

/// Every shell is asked as an interactive login shell first, and then plainly.
pub open spec fn attempts(shells: Seq<Seq<char>>) -> Seq<(Seq<char>, bool)>
    decreases shells.len(),
{
    if shells.len() == 0 {
        Seq::empty()
    } else {
        attempts(shells.drop_last()) + seq![(shells.last(), true), (shells.last(), false)]
    }
}

pub open spec fn attempts_view(v: Seq<Attempt>) -> Seq<(Seq<char>, bool)> {
    v.map_values(|a: Attempt| (a.shell@, a.interactive))
}

pub fn login_shell_attempt_plan(shells: &Vec<String>) -> (r: Vec<Attempt>)
    ensures
        attempts_view(r@) == attempts(text::texts(shells@)),
{
    let ghost all = text::texts(shells@);
    let mut out: Vec<Attempt> = Vec::new();
    let mut i: usize = 0;
    assert(attempts_view(out@) =~= attempts(all.take(0)));
    while i < shells.len()
        invariant
            i <= shells.len(),
            all == text::texts(shells@),
            attempts_view(out@) == attempts(all.take(i as int)),
        decreases shells.len() - i,
    {
        let ghost next = all.take(i as int + 1);
        let ghost before = attempts_view(out@);
        assert(next.drop_last() == all.take(i as int));
        assert(next.last() == shells@[i as int]@);
        out.push(Attempt { shell: shells[i].clone(), interactive: true });
        out.push(Attempt { shell: shells[i].clone(), interactive: false });
        assert(attempts_view(out@) =~= before + seq![(next.last(), true), (next.last(), false)]);
        i += 1;
    }
    assert(all.take(all.len() as int) == all);
    out
}

/// The arguments before the script.
pub open spec fn argset(interactive: bool) -> Seq<Seq<char>> {
    if interactive {
        seq!["-li"@, "-c"@]
    } else {
        seq!["-c"@]
    }
}

impl Attempt {
    /// The arguments that a shell is asked with.
    pub fn login_args(&self) -> (r: Vec<String>)
        ensures
            text::texts(r@) == argset(self.interactive),
    {
        let mut args: Vec<String> = Vec::new();
        if self.interactive {
            args.push("-li".to_string());
        }
        args.push("-c".to_string());
        assert(text::texts(args@) =~= argset(self.interactive));
        args
    }

    /// The whole argument list: a fish has its own script, and the launcher's name follows.
    pub fn argv(&self, posix_script: &str, fish_script: &str) -> (r: Vec<String>)
        ensures
            text::texts(r@) == argset(self.interactive) + seq![
                if path::file_name(PlatformTarget::Unix, self.shell@) == Some("fish"@) {
                    fish_script@
                } else {
                    posix_script@
                },
                "dsh-launcher"@,
            ],
    {
        let mut args = self.login_args();
        let ghost set = text::texts(args@);
        let fish = match name_of(PlatformTarget::Unix, self.shell.as_str()) {
            Some(name) => equal(name.as_str(), "fish"),
            None => false,
        };
        let script = if fish {
            fish_script
        } else {
            posix_script
        };
        args.push(script.to_string());
        args.push("dsh-launcher".to_string());
        assert(text::texts(args@) =~= set + seq![script@, "dsh-launcher"@]);
        args
    }
}

// ---------------------------------------------------------------------------
// In which environment
// ---------------------------------------------------------------------------

/// The system's own search path, with which a shell starts before it sets up the user's.
pub open spec fn system_path(platform: PlatformTarget) -> Seq<char> {
    if platform == PlatformTarget::MacOS {
        "/opt/homebrew/bin:/usr/local/sbin:/usr/local/bin:/usr/sbin:/usr/bin:/sbin:/bin"@
    } else {
        "/usr/local/sbin:/usr/local/bin:/usr/sbin:/usr/bin:/sbin:/bin"@
    }
}

pub fn default_login_shell_path(platform: PlatformTarget) -> (r: &'static str)
    ensures
        r@ == system_path(platform),
{
    if matches!(platform, PlatformTarget::MacOS) {
        "/opt/homebrew/bin:/usr/local/sbin:/usr/local/bin:/usr/sbin:/usr/bin:/sbin:/bin"
    } else {
        "/usr/local/sbin:/usr/local/bin:/usr/sbin:/usr/bin:/sbin:/bin"
    }
}

/// The variables other than the given one.
pub open spec fn without_key(
    platform: PlatformTarget,
    vars: Seq<(Seq<u8>, Seq<u8>)>,
    key: Seq<u8>,
) -> Seq<(Seq<u8>, Seq<u8>)>
    decreases vars.len(),
{
    if vars.len() == 0 {
        Seq::empty()
    } else if environment::same_key(platform, vars.last().0, key) {
        without_key(platform, vars.drop_last(), key)
    } else {
        without_key(platform, vars.drop_last(), key).push(vars.last())
    }
}

fn drop_key(platform: PlatformTarget, vars: &Vars, key: &[u8]) -> (r: Vars)
    ensures
        environment::vars_view(r@) == without_key(
            platform,
            environment::vars_view(vars@),
            key@,
        ),
{
    let ghost all = environment::vars_view(vars@);
    let mut out: Vars = Vec::new();
    let mut i: usize = 0;
    assert(environment::vars_view(out@) =~= without_key(platform, all.take(0), key@));
    while i < vars.len()
        invariant
            i <= vars.len(),
            all == environment::vars_view(vars@),
            environment::vars_view(out@) == without_key(platform, all.take(i as int), key@),
        decreases vars.len() - i,
    {
        let ghost next = all.take(i as int + 1);
        let ghost before = environment::vars_view(out@);
        assert(next.drop_last() == all.take(i as int));
        assert(next.last() == (vars@[i as int].0@, vars@[i as int].1@));
        if !environment_key_eq(platform, vars[i].0.as_slice(), key) {
            out.push((copied_bytes(vars[i].0.as_slice()), copied_bytes(vars[i].1.as_slice())));
            assert(environment::vars_view(out@) =~= before.push(next.last()));
        }
        i += 1;
    }
    assert(all.take(all.len() as int) == all);
    out
}

/// The environment in which a shell is asked: the launcher's, with the shell and the file
/// for the answer named, and with the system's search path in place of the launcher's.
pub open spec fn asking_vars(
    platform: PlatformTarget,
    base: Seq<(Seq<u8>, Seq<u8>)>,
    shell: Seq<char>,
    file: Seq<char>,
) -> Seq<(Seq<u8>, Seq<u8>)> {
    let a = without_key(platform, base, environment::bytes_of("PATH"@));
    let b = environment::with_var(
        platform,
        a,
        environment::bytes_of("SHELL"@),
        environment::bytes_of(shell),
    );
    let c = environment::with_var(
        platform,
        b,
        environment::bytes_of("DSH_LAUNCHER_ENV_FILE"@),
        environment::bytes_of(file),
    );
    environment::with_var(
        platform,
        c,
        environment::bytes_of("PATH"@),
        environment::bytes_of(system_path(platform)),
    )
}

pub fn login_shell_base_environment(
    platform: PlatformTarget,
    base: &Vars,
    shell: &str,
    output_file: &str,
) -> (r: Vars)
    ensures
        environment::vars_view(r@) == asking_vars(
            platform,
            environment::vars_view(base@),
            shell@,
            output_file@,
        ),
{
    let mut out = drop_key(platform, base, text_bytes("PATH").as_slice());
    set_environment_value(
        platform,
        &mut out,
        text_bytes("SHELL").as_slice(),
        text_bytes(shell).as_slice(),
    );
    set_environment_value(
        platform,
        &mut out,
        text_bytes("DSH_LAUNCHER_ENV_FILE").as_slice(),
        text_bytes(output_file).as_slice(),
    );
    set_environment_value(
        platform,
        &mut out,
        text_bytes("PATH").as_slice(),
        text_bytes(default_login_shell_path(platform)).as_slice(),
    );
    out
}

/// How many names are tried for the directory of what the shell writes.
pub const CAPTURE_ATTEMPTS: u64 = 16;

/// The name of the directory of what the shell writes, for a process, a time and an attempt.
pub fn capture_directory_name(pid: u64, stamp: &str, attempt: u64) -> (r: String)
    ensures
        r@ == "dsh-launcher-"@ + text::decimal(pid as nat) + "-"@ + stamp@ + "-"@ + text::decimal(
            attempt as nat,
        ),
{
    "dsh-launcher-".to_string().concat(number(pid).as_str()).concat("-").concat(stamp).concat(
        "-",
    ).concat(number(attempt).as_str())
}

// ---------------------------------------------------------------------------
// What came of it
// ---------------------------------------------------------------------------

/// How a command with a time limit ended.
#[derive(Debug, Clone, Copy, PartialEq, Eq, Structural)]
pub enum SpawnOutcome {
    Completed { success: bool },
    NotRunnable,
    TimedOut,
}

/// What is done with a command that is being watched.
#[derive(Debug, Clone, Copy, PartialEq, Eq, Structural)]
pub enum SpawnPoll {
    /// Look again after a while.
    Again,
    /// It has ended this way; with `kill` it must be killed first.
    Ended { outcome: SpawnOutcome, kill: bool },
}

/// Whether it has exited and how, or that this cannot be found out; and whether time is
/// up.
pub fn spawn_with_timeout(state: Result<Option<bool>, ()>, expired: bool) -> (r: SpawnPoll)
    ensures
        r == (match state {
            Ok(Some(success)) => SpawnPoll::Ended {
                outcome: SpawnOutcome::Completed { success },
                kill: false,
            },
            Ok(None) => if expired {
                SpawnPoll::Ended { outcome: SpawnOutcome::TimedOut, kill: true }
            } else {
                SpawnPoll::Again
            },
            Err(_) => SpawnPoll::Ended { outcome: SpawnOutcome::NotRunnable, kill: true },
        }),
{
    match state {
        Ok(Some(success)) => SpawnPoll::Ended {
            outcome: SpawnOutcome::Completed { success },
            kill: false,
        },
        Ok(None) => if expired {
            SpawnPoll::Ended { outcome: SpawnOutcome::TimedOut, kill: true }
        } else {
            SpawnPoll::Again
        },
        Err(_) => SpawnPoll::Ended { outcome: SpawnOutcome::NotRunnable, kill: true },
    }
}

/// The attempts that are left, or the answer.
#[derive(Debug)]
pub struct LoginCapture {
    pub plan: Vec<Attempt>,
    pub next: usize,
    pub answer: Option<Vec<u8>>,
}

/// What follows the marker in what a shell wrote, if it ended well.
pub open spec fn captured(outcome: SpawnOutcome, content: Option<Seq<u8>>) -> Option<Seq<u8>> {
    match (outcome, content) {
        (SpawnOutcome::Completed { success: true }, Some(raw)) => environment::after_mark(
            raw,
            environment::bytes_of("__DSH_LAUNCHER_ENV__"@),
        ),
        _ => None,
    }
}

impl LoginCapture {
    pub open spec fn wf(self) -> bool {
        self.next <= self.plan.len()
    }

    pub fn new(plan: Vec<Attempt>) -> (r: LoginCapture)
        ensures
            r.plan@ == plan@,
            r.next == 0,
            r.answer is None,
            r.wf(),
    {
        LoginCapture { plan, next: 0, answer: None }
    }

    /// The attempt to make now: none once there is an answer, nothing is left to try, or
    /// time is up.
    pub fn attempt(&self, expired: bool) -> (r: Option<usize>)
        ensures
            r == (if self.answer is None && !expired && self.next < self.plan.len() {
                Some(self.next)
            } else {
                None
            }),
    {
        if self.answer.is_none() && !expired && self.next < self.plan.len() {
            Some(self.next)
        } else {
            None
        }
    }

    /// Takes note of an attempt. The marker must be there: without it the shell has printed
    /// something, but not what it was asked for.
    pub fn run_login_shell_capture(&mut self, outcome: SpawnOutcome, content: Option<&[u8]>)
        requires
            old(self).wf(),
            old(self).answer is None,
            old(self).next < old(self).plan.len(),
        ensures
            final(self).wf(),
            final(self).plan == old(self).plan,
            final(self).next == old(self).next + 1,
            environment::opt_bytes(final(self).answer) == captured(
                outcome,
                crate::search_path::opt_slice(content),
            ),
    {
        self.next = self.next + 1;
        if let SpawnOutcome::Completed { success: true } = outcome {
            if let Some(raw) = content {
                proof {
                    reveal_strlit("__DSH_LAUNCHER_ENV__");
                }
                self.answer = extract_after_marker(raw, LOGIN_SHELL_MARKER);
            }
        }
    }
}

// ---------------------------------------------------------------------------
// What is asked, and how
// ---------------------------------------------------------------------------

/// Every shell that is tried is there, none is tried twice, and each that is there is tried.
pub proof fn the_shells_that_are_there_are_tried(
    names: Seq<Seq<char>>,
    existing: Seq<Seq<char>>,
)
    ensures
        ({
            let tried = usable_shells(names, existing);
            &&& forall|i: int| 0 <= i < tried.len() ==> existing.contains(#[trigger] tried[i])
            &&& forall|i: int, j: int|
                0 <= i < j < tried.len() ==> !path::same_path(#[trigger] tried[i], #[trigger] tried[j])
            &&& forall|i: int|
                0 <= i < names.len() && text::trim(#[trigger] names[i]).len() > 0
                    && existing.contains(text::trim(names[i])) ==> tried.contains(
                    text::trim(names[i]),
                ) || lists_path(tried, text::trim(names[i]))
        }),
    decreases names.len(),
{
    if names.len() > 0 {
        let before = names.drop_last();
        the_shells_that_are_there_are_tried(before, existing);
        let front = usable_shells(before, existing);
        let tried = usable_shells(names, existing);
        let name = text::trim(names.last());
        assert forall|i: int, j: int| 0 <= i < j < tried.len() implies !path::same_path(
            #[trigger] tried[i],
            #[trigger] tried[j],
        ) by {
            if j == front.len() {
                assert(tried[i] == front[i]);
                assert(!path::same_path(front[i], name));
            } else {
                assert(tried[i] == front[i] && tried[j] == front[j]);
            }
        }
        assert forall|i: int|
            0 <= i < names.len() && text::trim(#[trigger] names[i]).len() > 0 && existing.contains(
                text::trim(names[i]),
            ) implies tried.contains(text::trim(names[i])) || lists_path(
            tried,
            text::trim(names[i]),
        ) by {
            let x = text::trim(names[i]);
            if i < before.len() {
                assert(before[i] == names[i]);
                if front.contains(x) {
                    let k = choose|k: int| 0 <= k < front.len() && front[k] == x;
                    assert(tried[k] == x);
                } else {
                    let k = choose|k: int| 0 <= k < front.len() && path::same_path(
                        #[trigger] front[k],
                        x,
                    );
                    assert(tried[k] == front[k]);
                }
            } else if !lists_path(front, name) {
                assert(tried.last() == name);
            } else {
                let k = choose|k: int| 0 <= k < front.len() && path::same_path(
                    #[trigger] front[k],
                    name,
                );
                assert(tried[k] == front[k]);
            }
        }
    }
}

/// The user's own shell is tried before all others, where it is there.
pub proof fn the_users_shell_is_tried_first(shell: Seq<char>, existing: Seq<Seq<char>>)
    requires
        text::trim(shell).len() > 0,
        existing.contains(text::trim(shell)),
    ensures
        ({
            let tried = usable_shells(shell_names(Some(shell)), existing);
            tried.len() > 0 && tried[0] == text::trim(shell)
        }),
{
    text::lemma_trim_twice(shell);
    lemma_first_shell(shell_names(Some(shell)), existing);
}

proof fn lemma_first_shell(names: Seq<Seq<char>>, existing: Seq<Seq<char>>)
    requires
        names.len() > 0,
        text::trim(names[0]).len() > 0,
        existing.contains(text::trim(names[0])),
    ensures
        usable_shells(names, existing).len() > 0,
        usable_shells(names, existing)[0] == text::trim(names[0]),
    decreases names.len(),
{
    let before = names.drop_last();
    if before.len() > 0 {
        lemma_first_shell(before, existing);
    } else {
        assert(usable_shells(before, existing).len() == 0);
    }
}

/// Each shell is asked twice, in the order of the shells: as an interactive login shell, and
/// then plainly.
pub proof fn every_shell_is_asked_twice(shells: Seq<Seq<char>>)
    ensures
        attempts(shells).len() == 2 * shells.len(),
        forall|i: int|
            #![trigger shells[i]]
            0 <= i < shells.len() ==> attempts(shells)[2 * i] == (shells[i], true) && attempts(
                shells,
            )[2 * i + 1] == (shells[i], false),
    decreases shells.len(),
{
    if shells.len() > 0 {
        let before = shells.drop_last();
        every_shell_is_asked_twice(before);
        let all = attempts(shells);
        assert forall|i: int| #![trigger shells[i]] 0 <= i < shells.len() implies all[2 * i] == (
            shells[i],
            true,
        ) && all[2 * i + 1] == (shells[i], false) by {
            if i < before.len() {
                assert(before[i] == shells[i]);
                assert(all[2 * i] == attempts(before)[2 * i]);
                assert(all[2 * i + 1] == attempts(before)[2 * i + 1]);
            }
        }
    }
}

/// A shell is asked with its own name, the file for its answer and the system's search path in
/// its environment; everything else is the launcher's.
pub proof fn a_shell_is_asked_in_a_plain_environment(
    platform: PlatformTarget,
    base: Seq<(Seq<u8>, Seq<u8>)>,
    shell: Seq<char>,
    file: Seq<char>,
    other: Seq<u8>,
)
    requires
        platform != PlatformTarget::Windows,
        other != environment::bytes_of("PATH"@),
        other != environment::bytes_of("SHELL"@),
        other != environment::bytes_of("DSH_LAUNCHER_ENV_FILE"@),
    ensures
        ({
            let vars = asking_vars(platform, base, shell, file);
            &&& environment::var_value(platform, vars, environment::bytes_of("PATH"@)) == Some(
                environment::bytes_of(
                    if platform == PlatformTarget::MacOS {
                        "/opt/homebrew/bin:/usr/local/sbin:/usr/local/bin:/usr/sbin:/usr/bin:/sbin:/bin"@
                    } else {
                        "/usr/local/sbin:/usr/local/bin:/usr/sbin:/usr/bin:/sbin:/bin"@
                    },
                ),
            )
            &&& environment::var_value(platform, vars, environment::bytes_of("SHELL"@)) == Some(
                environment::bytes_of(shell),
            )
            &&& environment::var_value(
                platform,
                vars,
                environment::bytes_of("DSH_LAUNCHER_ENV_FILE"@),
            ) == Some(environment::bytes_of(file))
            &&& environment::var_value(platform, vars, other) == environment::var_value(
                platform,
                base,
                other,
            )
        }),
{
    let path_key = environment::bytes_of("PATH"@);
    let shell_key = environment::bytes_of("SHELL"@);
    let file_key = environment::bytes_of("DSH_LAUNCHER_ENV_FILE"@);
    lemma_asking_keys();
    let a = without_key(platform, base, path_key);
    let b = environment::with_var(platform, a, shell_key, environment::bytes_of(shell));
    let c = environment::with_var(platform, b, file_key, environment::bytes_of(file));
    let p = environment::bytes_of(system_path(platform));
    environment::setting_a_variable_sets_it(platform, c, path_key, p);
    environment::setting_a_variable_sets_it(platform, a, shell_key, environment::bytes_of(shell));
    environment::setting_a_variable_sets_it(platform, b, file_key, environment::bytes_of(file));
    environment::another_variable_keeps_its_value(
        platform,
        b,
        file_key,
        environment::bytes_of(file),
        shell_key,
    );
    environment::another_variable_keeps_its_value(platform, c, path_key, p, shell_key);
    environment::another_variable_keeps_its_value(platform, c, path_key, p, file_key);
    environment::another_variable_keeps_its_value(
        platform,
        a,
        shell_key,
        environment::bytes_of(shell),
        other,
    );
    environment::another_variable_keeps_its_value(
        platform,
        b,
        file_key,
        environment::bytes_of(file),
        other,
    );
    environment::another_variable_keeps_its_value(platform, c, path_key, p, other);
    lemma_without_key(platform, base, path_key, other);
}

proof fn lemma_asking_keys()
    ensures
        environment::bytes_of("PATH"@) != environment::bytes_of("SHELL"@),
        environment::bytes_of("PATH"@) != environment::bytes_of("DSH_LAUNCHER_ENV_FILE"@),
        environment::bytes_of("SHELL"@) != environment::bytes_of("DSH_LAUNCHER_ENV_FILE"@),
{
    reveal_strlit("PATH");
    reveal_strlit("SHELL");
    reveal_strlit("DSH_LAUNCHER_ENV_FILE");
    vstd::utf8::encode_utf8_decode_utf8("PATH"@);
    vstd::utf8::encode_utf8_decode_utf8("SHELL"@);
    vstd::utf8::encode_utf8_decode_utf8("DSH_LAUNCHER_ENV_FILE"@);
    assert("PATH"@.len() == 4);
    assert("SHELL"@.len() == 5);
    assert("DSH_LAUNCHER_ENV_FILE"@.len() == 21);
}

proof fn lemma_without_key(
    platform: PlatformTarget,
    vars: Seq<(Seq<u8>, Seq<u8>)>,
    key: Seq<u8>,
    other: Seq<u8>,
)
    requires
        platform != PlatformTarget::Windows,
        key != other,
    ensures
        environment::var_value(platform, without_key(platform, vars, key), other)
            == environment::var_value(platform, vars, other),
        forall|i: int|
            0 <= i < without_key(platform, vars, key).len() ==> (#[trigger] without_key(
                platform,
                vars,
                key,
            )[i]).0 != key,
    decreases vars.len(),
{
    if vars.len() > 0 {
        let front = vars.drop_last();
        lemma_without_key(platform, front, key, other);
        let kept = without_key(platform, vars, key);
        let before = without_key(platform, front, key);
        lemma_pushed_value(platform, front, vars.last(), other);
        assert(front.push(vars.last()) =~= vars);
        if vars.last().0 != key {
            lemma_pushed_value(platform, before, vars.last(), other);
        }
    }
}

proof fn lemma_pushed_value(
    platform: PlatformTarget,
    vars: Seq<(Seq<u8>, Seq<u8>)>,
    more: (Seq<u8>, Seq<u8>),
    key: Seq<u8>,
)
    requires
        platform != PlatformTarget::Windows,
    ensures
        environment::var_value(platform, vars.push(more), key) == (match environment::var_value(
            platform,
            vars,
            key,
        ) {
            Some(v) => Some(v),
            None => if more.0 == key {
                Some(more.1)
            } else {
                None
            },
        }),
{
    let all = vars.push(more);
    environment::lemma_key_index(platform, vars, key);
    environment::lemma_key_index(platform, all, key);
    let a = environment::key_index(platform, vars, key);
    let b = environment::key_index(platform, all, key);
    if a < vars.len() {
        assert(all[a].0 == vars[a].0);
        if b < a {
            assert(all[b].0 == vars[b].0);
        }
        assert(a == b);
    } else {
        if b < vars.len() {
            assert(all[b].0 == vars[b].0);
        }
        assert(all[vars.len() as int].0 == more.0);
    }
}

/// The shell of an account is the seventh field of its record, or on macOS the value of its
/// record; one that is blank is none.
pub proof fn the_shell_of_an_account_is_read(fields: Seq<Seq<char>>, shell: Seq<char>)
    requires
        fields.len() == 6,
        forall|i: int|
            0 <= i < 6 ==> !(#[trigger] fields[i]).contains(':') && !fields[i].contains('\n')
                && !fields[i].contains('\r'),
        !shell.contains(':') && !shell.contains('\n') && !shell.contains('\r'),
    ensures
        passwd_shell(
            seq![
                fields[0] + seq![':'] + (fields[1] + seq![':'] + (fields[2] + seq![':'] + (fields[3]
                    + seq![':'] + (fields[4] + seq![':'] + (fields[5] + seq![':'] + shell))))),
            ],
        ) == Some(text::trim(shell)),
        record_value(seq!["UserShell:"@ + shell]) == Some(text::trim(shell)),
{
    let l5 = fields[5] + seq![':'] + shell;
    let l4 = fields[4] + seq![':'] + l5;
    let l3 = fields[3] + seq![':'] + l4;
    let l2 = fields[2] + seq![':'] + l3;
    let l1 = fields[1] + seq![':'] + l2;
    let l0 = fields[0] + seq![':'] + l1;
    text::lemma_split_last(shell, ':');
    text::lemma_split_first(fields[5], ':', shell);
    text::lemma_split_first(fields[4], ':', l5);
    text::lemma_split_first(fields[3], ':', l4);
    text::lemma_split_first(fields[2], ':', l3);
    text::lemma_split_first(fields[1], ':', l2);
    text::lemma_split_first(fields[0], ':', l1);
    assert(text::split(l0, ':') =~= seq![
        fields[0],
        fields[1],
        fields[2],
        fields[3],
        fields[4],
        fields[5],
        shell,
    ]);
    let record = "UserShell:"@ + shell;
    assert(record.take("UserShell:"@.len() as int) =~= "UserShell:"@);
    assert(record.skip("UserShell:"@.len() as int) =~= shell);
}

/// Only a shell that ended well, and that wrote the marker, has answered.
pub proof fn only_a_shell_that_ended_well_has_answered(
    outcome: SpawnOutcome,
    content: Option<Seq<u8>>,
)
    ensures
        captured(outcome, content) is Some ==> outcome == (SpawnOutcome::Completed {
            success: true,
        }) && content is Some && environment::after_mark(
            content->0,
            environment::bytes_of("__DSH_LAUNCHER_ENV__"@),
        ) == captured(outcome, content),
        outcome == (SpawnOutcome::Completed { success: true }) && content is Some ==> captured(
            outcome,
            content,
        ) == environment::after_mark(content->0, environment::bytes_of("__DSH_LAUNCHER_ENV__"@)),
{
}

/// The shell of an account is asked for by the account's name: in the directory of macOS, and in
/// the password database elsewhere.
pub proof fn an_account_is_asked_for_by_name(user: Seq<char>)
    ensures
        account_args(PlatformTarget::MacOS, user) == seq![
            "."@,
            "-read"@,
            "/Users/"@ + user,
            "UserShell"@,
        ],
        account_args(PlatformTarget::Unix, user) == seq!["passwd"@, user],
{
}

/// The record of macOS is read by its label, the one of the password database by its seventh
/// field; an empty shell is none.
pub proof fn a_record_is_read_by_its_system(record: Seq<char>)
    ensures
        ({
            let mac = record_value(text::lines(record));
            let unix = passwd_shell(text::lines(record));
            &&& mac is Some && mac->0.len() > 0 ==> account_shell(PlatformTarget::MacOS, record)
                == mac
            &&& mac is None || mac->0.len() == 0 ==> account_shell(PlatformTarget::MacOS, record)
                is None
            &&& unix is Some && unix->0.len() > 0 ==> account_shell(PlatformTarget::Unix, record)
                == unix
            &&& unix is None || unix->0.len() == 0 ==> account_shell(PlatformTarget::Unix, record)
                is None
        }),
{
}

/// The shells that are tried besides the user's own, in this order, and the search path with
/// which a shell starts.
pub proof fn the_shells_of_the_systems_are_known()
    ensures
        fallback_shells() == seq![
            "/bin/bash"@,
            "/usr/bin/bash"@,
            "/bin/zsh"@,
            "/usr/bin/zsh"@,
            "/usr/local/bin/zsh"@,
            "/opt/homebrew/bin/zsh"@,
            "/usr/local/bin/bash"@,
            "/opt/homebrew/bin/bash"@,
            "/bin/fish"@,
            "/usr/bin/fish"@,
            "/usr/local/bin/fish"@,
            "/opt/homebrew/bin/fish"@,
            "/bin/sh"@,
            "/usr/bin/sh"@,
        ],
        system_path(PlatformTarget::MacOS)
            == "/opt/homebrew/bin:/usr/local/sbin:/usr/local/bin:/usr/sbin:/usr/bin:/sbin:/bin"@,
        system_path(PlatformTarget::Unix)
            == "/usr/local/sbin:/usr/local/bin:/usr/sbin:/usr/bin:/sbin:/bin"@,
{
}

} // verus!
