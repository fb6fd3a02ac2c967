//! Which process serves a port, whether it is a DSH service, and how it is ended.

use vstd::prelude::*;

use crate::adapters;
use crate::adapters::{lossy_text, shell_split};
use crate::config::{LauncherConfig, PlatformTarget};
use crate::text;
use crate::text::{
    after_prefix, before_suffix, chars_of, equal, finishes, has_text, holds_char, lines_of,
    lower_case, number, parse_number, same, string_of, stripped_end, stripped_start, trimmed,
    with_replaced, words_of,
};

verus! {

/// How long a process that was asked to end is waited for, and how often it is looked at.
pub const TERMINATION_TIMEOUT_SECS: u64 = 2;

pub const TERMINATION_POLL_MILLIS: u64 = 150;

/// How long the connection and the answer of a web service may take.
pub const HEALTH_CONNECT_MILLIS: u64 = 300;

pub const HEALTH_READ_MILLIS: u64 = 500;

// ---------------------------------------------------------------------------
// Addresses
// ---------------------------------------------------------------------------

/// A host without the white space and the brackets around it.
pub open spec fn bare_host(host: Seq<char>) -> Seq<char> {
    let t = text::trim(host);
    match text::strip_prefix(t, "["@) {
        Some(rest) => match text::strip_suffix(rest, "]"@) {
            Some(inner) => inner,
            None => t,
        },
        None => t,
    }
}

pub fn normalized_host(host: &str) -> (r: String)
    ensures
        r@ == bare_host(host@),
{
    let all = chars_of(host);
    let t = trimmed(all.as_slice());
    match after_prefix(t, "[") {
        Some(rest) => match before_suffix(rest, "]") {
            Some(inner) => string_of(inner),
            None => string_of(t),
        },
        None => string_of(t),
    }
}

/// Host and port as a URL writes them: a host with a colon stands in brackets.
pub open spec fn authority(host: Seq<char>, port: u16) -> Seq<char> {
    let h = bare_host(host);
    if h.contains(':') {
        "["@ + h + "]:"@ + text::decimal(port as nat)
    } else {
        h + ":"@ + text::decimal(port as nat)
    }
}

pub fn host_authority(host: &str, port: u16) -> (r: String)
    ensures
        r@ == authority(host@, port),
{
    let h = normalized_host(host);
    let p = number(port as u64);
    if holds_char(chars_of(h.as_str()).as_slice(), ':') {
        "[".to_string().concat(h.as_str()).concat("]:").concat(p.as_str())
    } else {
        h.concat(":").concat(p.as_str())
    }
}

/// The address of the web interface.
pub open spec fn service_address(host: Seq<char>, port: u16) -> Seq<char> {
    "http://"@ + authority(host, port)
}

pub fn service_url(host: &str, port: u16) -> (r: String)
    ensures
        r@ == service_address(host@, port),
{
    "http://".to_string().concat(host_authority(host, port).as_str())
}

/// The request that finds out whether a web service answers.
pub fn health_request(host: &str, port: u16) -> (r: String)
    ensures
        r@ == "GET / HTTP/1.0\r\nHost: "@ + authority(host@, port) + "\r\n\r\n"@,
{
    "GET / HTTP/1.0\r\nHost: ".to_string().concat(host_authority(host, port).as_str()).concat(
        "\r\n\r\n",
    )
}

/// Whether the first bytes of a response are those of a web service.
pub fn is_http_response(response: &[u8]) -> (r: bool)
    ensures
        r == text::starts_with(response@, seq![0x48u8, 0x54, 0x54, 0x50, 0x2f]),
{
    let ok = response.len() >= 5 && response[0] == 0x48 && response[1] == 0x54 && response[2]
        == 0x54 && response[3] == 0x50 && response[4] == 0x2f;
    let ghost start = seq![0x48u8, 0x54, 0x54, 0x50, 0x2f];
    proof {
        if ok {
            assert(response@.take(5) =~= start);
        } else if response@.len() >= 5 && response@.take(5) == start {
            assert(response@[0] == response@.take(5)[0]);
            assert(response@[1] == response@.take(5)[1]);
            assert(response@[2] == response@.take(5)[2]);
            assert(response@[3] == response@.take(5)[3]);
            assert(response@[4] == response@.take(5)[4]);
        }
    }
    ok
}

// ---------------------------------------------------------------------------
// Command lines
// ---------------------------------------------------------------------------

/// The arguments of a command line: as a shell would split it, or at white space where a
/// shell would not.
pub open spec fn tokens_of(line: Seq<char>) -> Seq<Seq<char>> {
    match adapters::shell_line(line) {
        Some(words) => words,
        None => text::words(line),
    }
}

pub fn strings_of(v: &Vec<Vec<char>>) -> (r: Vec<String>)
    ensures
        text::texts(r@) == text::pieces(v@),
{
    let mut out: Vec<String> = Vec::new();
    let mut i: usize = 0;
    while i < v.len()
        invariant
            i <= v.len(),
            out@.len() == i,
            forall|j: int| 0 <= j < i ==> (#[trigger] out@[j])@ == v@[j]@,
        decreases v.len() - i,
    {
        out.push(string_of(v[i].as_slice()));
        i += 1;
    }
    assert(text::texts(out@) =~= text::pieces(v@));
    out
}

pub fn command_tokens(command_line: &str) -> (r: Vec<String>)
    ensures
        text::texts(r@) == tokens_of(command_line@),
        adapters::plain_line(command_line@) ==> text::texts(r@) == text::words(command_line@),
        forall|word: Seq<char>| #[trigger]
            adapters::is_quoted_word(command_line@, word) ==> text::texts(r@) == seq![word],
{
    match shell_split(command_line) {
        Some(words) => words,
        None => strings_of(&words_of(chars_of(command_line).as_slice())),
    }
}

/// The additional arguments of a configuration; nothing where a quote is not closed.
pub open spec fn custom_arguments(value: Seq<char>) -> Option<Seq<Seq<char>>> {
    adapters::shell_line(text::trim(value))
}

pub fn parse_custom_args(value: &str) -> (r: Result<Vec<String>, String>)
    ensures
        match r {
            Ok(args) => custom_arguments(value@) == Some(text::texts(args@)),
            Err(e) => custom_arguments(value@) is None && e@
                == "DSH 参数格式无效：missing closing quote"@,
        },
        adapters::plain_line(text::trim(value@)) ==> (r matches Ok(args) && text::texts(args@)
            == text::words(text::trim(value@))),
{
    let all = chars_of(value);
    let line = string_of(trimmed(all.as_slice()));
    match shell_split(line.as_str()) {
        Some(args) => Ok(args),
        None => Err("DSH 参数格式无效：missing closing quote".to_string()),
    }
}

/// Token `i` sets `option` to `expected`, in one token or with the one that follows.
pub open spec fn sets_option(
    tokens: Seq<Seq<char>>,
    i: int,
    option: Seq<char>,
    expected: Seq<char>,
) -> bool {
    ||| tokens[i] == option && i + 1 < tokens.len() && tokens[i + 1] == expected
    ||| tokens[i] == option + "="@ + expected
}

pub open spec fn has_option(
    tokens: Seq<Seq<char>>,
    option: Seq<char>,
    expected: Seq<char>,
) -> bool {
    exists|i: int| 0 <= i < tokens.len() && #[trigger] sets_option(tokens, i, option, expected)
}

#[verifier::loop_isolation(false)]
pub fn option_matches(tokens: &Vec<String>, option: &str, expected: &str) -> (r: bool)
    ensures
        r == has_option(text::texts(tokens@), option@, expected@),
{
    let ghost all = text::texts(tokens@);
    let joined = option.to_string().concat("=").concat(expected);
    let mut i: usize = 0;
    while i < tokens.len()
        invariant
            i <= tokens.len(),
            forall|j: int| 0 <= j < i ==> !#[trigger] sets_option(all, j, option@, expected@),
        decreases tokens.len() - i,
    {
        assert(all[i as int] == tokens@[i as int]@);
        assert(i + 1 < tokens@.len() ==> all[i + 1] == tokens@[i + 1]@);
        if equal(tokens[i].as_str(), option) && i + 1 < tokens.len() && equal(
            tokens[i + 1].as_str(),
            expected,
        ) {
            assert(sets_option(all, i as int, option@, expected@));
            return true;
        }
        if equal(tokens[i].as_str(), joined.as_str()) {
            assert(sets_option(all, i as int, option@, expected@));
            return true;
        }
        i += 1;
    }
    false
}

/// `part` stands in `all` without a gap.
pub open spec fn stands_in(all: Seq<Seq<char>>, part: Seq<Seq<char>>) -> bool {
    exists|i: int|
        0 <= i <= all.len() - part.len() && #[trigger] all.subrange(i, i + part.len()) == part
}

fn window_matches(tokens: &Vec<String>, from: usize, expected: &Vec<String>) -> (r: bool)
    requires
        from + expected.len() <= tokens.len(),
    ensures
        r == (text::texts(tokens@).subrange(from as int, from + expected@.len()) == text::texts(
            expected@,
        )),
{
    let ghost part = text::texts(tokens@).subrange(from as int, from + expected@.len());
    let ghost want = text::texts(expected@);
    let mut k: usize = 0;
    while k < expected.len()
        invariant
            k <= expected.len(),
            from + expected.len() <= tokens.len(),
            part == text::texts(tokens@).subrange(from as int, from + expected@.len()),
            want == text::texts(expected@),
            forall|j: int| 0 <= j < k ==> part[j] == want[j],
        decreases expected.len() - k,
    {
        assert(part[k as int] == tokens@[from + k]@);
        assert(want[k as int] == expected@[k as int]@);
        if !equal(tokens[from + k].as_str(), expected[k].as_str()) {
            assert(part[k as int] != want[k as int]);
            return false;
        }
        k += 1;
    }
    assert(part =~= want);
    true
}

/// The command line carries the additional arguments of the configuration.
pub open spec fn carries_custom_args(tokens: Seq<Seq<char>>, custom_args: Seq<char>) -> bool {
    custom_arguments(custom_args) is Some && (custom_arguments(custom_args)->0.len() == 0
        || stands_in(tokens, custom_arguments(custom_args)->0))
}

#[verifier::loop_isolation(false)]
pub fn custom_args_match(tokens: &Vec<String>, custom_args: &str) -> (r: bool)
    ensures
        r == carries_custom_args(text::texts(tokens@), custom_args@),
{
    let expected = match parse_custom_args(custom_args) {
        Ok(expected) => expected,
        Err(_) => return false,
    };
    if expected.len() == 0 {
        return true;
    }
    let ghost all = text::texts(tokens@);
    let ghost want = text::texts(expected@);
    if expected.len() > tokens.len() {
        assert(!stands_in(all, want));
        return false;
    }
    let last: usize = tokens.len() - expected.len();
    let mut i: usize = 0;
    while i <= last
        invariant
            i <= last + 1,
            forall|j: int| 0 <= j < i ==> #[trigger] all.subrange(j, j + want.len()) != want,
        decreases last + 1 - i,
    {
        if window_matches(tokens, i, &expected) {
            assert(all.subrange(i as int, i + want.len()) == want);
            return true;
        }
        if i == last {
            assert(!stands_in(all, want));
            return false;
        }
        i += 1;
    }
    false
}

/// The command line of a service that runs with this configuration.
pub open spec fn runs_config(line: Seq<char>, config: LauncherConfig) -> bool {
    let tokens = tokens_of(line);
    &&& has_option(tokens, "--profile"@, text::trim(config.profile@))
    &&& has_option(tokens, "--host"@, text::trim(config.host@))
    &&& has_option(tokens, "--port"@, text::decimal(config.port as nat))
    &&& carries_custom_args(tokens, config.custom_args@)
}

pub fn dsh_command_matches(command_line: &str, config: &LauncherConfig) -> (r: bool)
    ensures
        r == runs_config(command_line@, *config),
{
    let tokens = command_tokens(command_line);
    let profile = string_of(trimmed(chars_of(config.profile.as_str()).as_slice()));
    let host = string_of(trimmed(chars_of(config.host.as_str()).as_slice()));
    let port = number(config.port as u64);
    option_matches(&tokens, "--profile", profile.as_str()) && option_matches(
        &tokens,
        "--host",
        host.as_str(),
    ) && option_matches(&tokens, "--port", port.as_str()) && custom_args_match(
        &tokens,
        config.custom_args.as_str(),
    )
}

pub open spec fn unquoted(token: Seq<char>) -> Seq<char> {
    text::strip_end_of(text::strip_start_of(token, seq!['\'', '"']), seq!['\'', '"'])
}

/// A token that names the DSH command or a file of its package.
pub open spec fn names_dsh(token: Seq<char>) -> bool {
    let t = unquoted(token);
    ||| t == "dsh"@
    ||| text::ends_with(t, "/dsh"@)
    ||| text::ends_with(t, "/dsh.cmd"@)
    ||| text::ends_with(t, "/dsh.ps1"@)
    ||| text::contains_text(t, "/@deepseek-ai/dsh/"@)
    ||| text::contains_text(t, "/deepseek-harness/"@)
}

fn token_names_dsh(token: &[char]) -> (r: bool)
    ensures
        r == names_dsh(token@),
{
    let quotes: Vec<char> = vec!['\'', '"'];
    assert(quotes@ == seq!['\'', '"']);
    let t = stripped_end(stripped_start(token, quotes.as_slice()), quotes.as_slice());
    same(t, chars_of("dsh").as_slice()) || finishes(t, chars_of("/dsh").as_slice()) || finishes(
        t,
        chars_of("/dsh.cmd").as_slice(),
    ) || finishes(t, chars_of("/dsh.ps1").as_slice()) || has_text(t, "/@deepseek-ai/dsh/")
        || has_text(t, "/deepseek-harness/")
}

/// A command line, in lower case and with forward slashes, one of whose words names DSH.
pub open spec fn is_dsh_line(line: Seq<char>) -> bool {
    let words = text::words(text::replace_char(text::lowered(line), '\\', '/'));
    exists|i: int| 0 <= i < words.len() && names_dsh(#[trigger] words[i])
}

#[verifier::loop_isolation(false)]
pub fn looks_like_dsh_process(command_line: &str) -> (r: bool)
    ensures
        r == is_dsh_line(command_line@),
{
    let lower = lower_case(chars_of(command_line).as_slice());
    let slashed = with_replaced(lower.as_slice(), '\\', '/');
    let words = words_of(slashed.as_slice());
    let ghost all = text::words(slashed@);
    let mut i: usize = 0;
    while i < words.len()
        invariant
            i <= words.len(),
            forall|j: int| 0 <= j < i ==> !names_dsh(#[trigger] all[j]),
        decreases words.len() - i,
    {
        assert(all[i as int] == words@[i as int]@);
        if token_names_dsh(words[i].as_slice()) {
            return true;
        }
        i += 1;
    }
    false
}

// ---------------------------------------------------------------------------
// Processes
// ---------------------------------------------------------------------------

/// How a command that was run ended.
#[derive(Debug)]
pub enum CommandOutcome {
    /// It could not be run; why.
    NotRun(String),
    Finished { success: bool, stdout: Vec<u8> },
}

/// A command that is run to find something out.
#[derive(Debug)]
pub struct Query {
    pub program: &'static str,
    pub args: Vec<String>,
}

/// The command that lists the processes that listen on a port.
pub open spec fn listener_args(platform: PlatformTarget, port: u16) -> Seq<Seq<char>> {
    if platform == PlatformTarget::Windows {
        seq![
            "-NoProfile"@,
            "-NonInteractive"@,
            "-Command"@,
            "(Get-NetTCPConnection -State Listen -LocalPort "@ + text::decimal(port as nat)
                + " -ErrorAction Stop | Select-Object -ExpandProperty OwningProcess -Unique) -join \"`n\""@,
        ]
    } else {
        seq!["-nP"@, "-t"@, "-iTCP:"@ + text::decimal(port as nat), "-sTCP:LISTEN"@]
    }
}

pub fn listener_query(platform: PlatformTarget, port: u16) -> (r: Query)
    ensures
        r.program@ == (if platform == PlatformTarget::Windows {
            "powershell.exe"@
        } else {
            "lsof"@
        }),
        text::texts(r.args@) == listener_args(platform, port),
{
    let p = number(port as u64);
    let mut args: Vec<String> = Vec::new();
    let query = if matches!(platform, PlatformTarget::Windows) {
        args.push("-NoProfile".to_string());
        args.push("-NonInteractive".to_string());
        args.push("-Command".to_string());
        args.push(
            "(Get-NetTCPConnection -State Listen -LocalPort ".to_string().concat(p.as_str()).concat(
                " -ErrorAction Stop | Select-Object -ExpandProperty OwningProcess -Unique) -join \"`n\"",
            ),
        );
        Query { program: "powershell.exe", args }
    } else {
        args.push("-nP".to_string());
        args.push("-t".to_string());
        args.push("-iTCP:".to_string().concat(p.as_str()));
        args.push("-sTCP:LISTEN".to_string());
        Query { program: "lsof", args }
    };
    assert(text::texts(query.args@) =~= listener_args(platform, port));
    query
}

/// The command that shows the command line of a process.
pub open spec fn command_args(platform: PlatformTarget, pid: u32) -> Seq<Seq<char>> {
    if platform == PlatformTarget::Windows {
        seq![
            "-NoProfile"@,
            "-NonInteractive"@,
            "-Command"@,
            "(Get-CimInstance Win32_Process -Filter \"ProcessId = "@ + text::decimal(pid as nat)
                + "\" -ErrorAction Stop).CommandLine"@,
        ]
    } else {
        seq!["-p"@, text::decimal(pid as nat), "-o"@, "command="@]
    }
}

pub fn command_query(platform: PlatformTarget, pid: u32) -> (r: Query)
    ensures
        r.program@ == (if platform == PlatformTarget::Windows {
            "powershell.exe"@
        } else {
            "ps"@
        }),
        text::texts(r.args@) == command_args(platform, pid),
{
    let p = number(pid as u64);
    let mut args: Vec<String> = Vec::new();
    let query = if matches!(platform, PlatformTarget::Windows) {
        args.push("-NoProfile".to_string());
        args.push("-NonInteractive".to_string());
        args.push("-Command".to_string());
        args.push(
            "(Get-CimInstance Win32_Process -Filter \"ProcessId = ".to_string().concat(
                p.as_str(),
            ).concat("\" -ErrorAction Stop).CommandLine"),
        );
        Query { program: "powershell.exe", args }
    } else {
        args.push("-p".to_string());
        args.push(p);
        args.push("-o".to_string());
        args.push("command=".to_string());
        Query { program: "ps", args }
    };
    assert(text::texts(query.args@) =~= command_args(platform, pid));
    query
}

/// A line, apart from the white space around it, writes down a process number.
pub open spec fn line_pid(line: Seq<char>) -> Option<nat> {
    text::parsed(text::trim(line), u32::MAX as nat)
}

/// `pid` stands on one of the lines.
pub open spec fn lists_pid(lines: Seq<Seq<char>>, pid: nat) -> bool {
    exists|i: int| 0 <= i < lines.len() && line_pid(#[trigger] lines[i]) == Some(pid)
}

/// The one process that the lines name; the complaint where they name none or several.
pub open spec fn single_pid(lines: Seq<Seq<char>>, port: u16, r: Result<u32, Seq<char>>) -> bool {
    match r {
        Ok(pid) => forall|p: nat| #[trigger] lists_pid(lines, p) <==> p == pid as nat,
        Err(e) => {
            ||| e == "无法定位端口 "@ + text::decimal(port as nat) + " 的监听进程"@ && (forall|
                p: nat,
            | !#[trigger] lists_pid(lines, p))
            ||| e == "端口 "@ + text::decimal(port as nat)
                + " 对应多个监听进程，已拒绝终止"@ && (exists|p: nat, q: nat|
                p != q && #[trigger] lists_pid(lines, p) && #[trigger] lists_pid(lines, q))
        },
    }
}

/// A result whose error is text, as a value of the specification.
pub open spec fn outcome<T>(r: Result<T, String>) -> Result<T, Seq<char>> {
    match r {
        Ok(v) => Ok(v),
        Err(e) => Err(e@),
    }
}

#[verifier::loop_isolation(false)]
pub fn parse_single_pid(output: &str, port: u16) -> (r: Result<u32, String>)
    ensures
        single_pid(text::lines(output@), port, outcome(r)),
{
    let lines = lines_of(chars_of(output).as_slice());
    let ghost all = text::lines(output@);
    let mut found: Option<u32> = None;
    let mut i: usize = 0;
    while i < lines.len()
        invariant
            i <= lines.len(),
            match found {
                None => forall|j: int| 0 <= j < i ==> line_pid(#[trigger] all[j]) is None,
                Some(pid) => {
                    &&& exists|j: int| 0 <= j < i && line_pid(#[trigger] all[j]) == Some(pid as nat)
                    &&& forall|j: int|
                        0 <= j < i ==> line_pid(#[trigger] all[j]) is None || line_pid(all[j])
                            == Some(pid as nat)
                },
            },
        decreases lines.len() - i,
    {
        assert(all[i as int] == lines@[i as int]@);
        let t = trimmed(lines[i].as_slice());
        if let Some(n) = parse_number(t, u32::MAX as u64) {
            let pid: u32 = n as u32;
            assert(line_pid(all[i as int]) == Some(pid as nat));
            match found {
                None => {
                    found = Some(pid);
                },
                Some(first) => {
                    if first != pid {
                        assert(lists_pid(all, first as nat));
                        assert(lists_pid(all, pid as nat));
                        return Err(
                            "端口 ".to_string().concat(number(port as u64).as_str()).concat(
                                " 对应多个监听进程，已拒绝终止",
                            ),
                        );
                    }
                },
            }
        }
        i += 1;
    }
    match found {
        Some(pid) => {
            assert(lists_pid(all, pid as nat));
            Ok(pid)
        },
        None => Err(
            "无法定位端口 ".to_string().concat(number(port as u64).as_str()).concat(" 的监听进程"),
        ),
    }
}

/// Which process listens on the port, by what the listing command printed.
pub fn external_listener_pid(platform: PlatformTarget, port: u16, listing: &CommandOutcome) -> (r:
    Result<u32, String>)
    ensures
        match *listing {
            CommandOutcome::NotRun(error) => outcome(r) == Err::<u32, Seq<char>>(
                (if platform == PlatformTarget::Windows {
                    "无法定位监听进程："@
                } else {
                    "无法执行 lsof 定位监听进程："@
                }) + error@,
            ),
            CommandOutcome::Finished { success, stdout } => if success {
                single_pid(text::lines(adapters::lossy(stdout@)), port, outcome(r))
            } else {
                outcome(r) == Err::<u32, Seq<char>>(
                    "无法定位端口 "@ + text::decimal(port as nat) + " 的监听进程"@,
                )
            },
        },
{
    match listing {
        CommandOutcome::NotRun(error) => if matches!(platform, PlatformTarget::Windows) {
            Err("无法定位监听进程：".to_string().concat(error.as_str()))
        } else {
            Err("无法执行 lsof 定位监听进程：".to_string().concat(error.as_str()))
        },
        CommandOutcome::Finished { success, stdout } => if *success {
            parse_single_pid(lossy_text(stdout.as_slice()).as_str(), port)
        } else {
            Err("无法定位端口 ".to_string().concat(number(port as u64).as_str()).concat(" 的监听进程"))
        },
    }
}

/// The command line of a process, by what the showing command printed.
pub open spec fn shown_command(shown: CommandOutcome) -> Result<Seq<char>, Seq<char>> {
    match shown {
        CommandOutcome::NotRun(error) => Err("无法读取监听进程信息："@ + error@),
        CommandOutcome::Finished { success, stdout } => {
            let line = text::trim(adapters::lossy(stdout@));
            if !success {
                Err("无法读取监听进程信息，可能没有足够权限"@)
            } else if line.len() == 0 {
                Err("监听进程命令行为空，已拒绝终止"@)
            } else {
                Ok(line)
            }
        },
    }
}

pub open spec fn text_outcome(r: Result<String, String>) -> Result<Seq<char>, Seq<char>> {
    match r {
        Ok(v) => Ok(v@),
        Err(e) => Err(e@),
    }
}

pub fn external_process_command(shown: &CommandOutcome) -> (r: Result<String, String>)
    ensures
        text_outcome(r) == shown_command(*shown),
{
    match shown {
        CommandOutcome::NotRun(error) => Err(
            "无法读取监听进程信息：".to_string().concat(error.as_str()),
        ),
        CommandOutcome::Finished { success, stdout } => {
            if !*success {
                return Err("无法读取监听进程信息，可能没有足够权限".to_string());
            }
            let all = chars_of(lossy_text(stdout.as_slice()).as_str());
            let line = trimmed(all.as_slice());
            if line.len() == 0 {
                Err("监听进程命令行为空，已拒绝终止".to_string())
            } else {
                Ok(string_of(line))
            }
        },
    }
}

/// What is known of the process behind a port: who listens, and with which command line.
#[derive(Debug)]
pub struct Listener {
    pub pid: Result<u32, String>,
    /// The command line of the process in question.
    pub command: Result<String, String>,
}

/// The process still listens and still runs the same command.
pub open spec fn still_matches(seen: Listener, pid: u32, command: Seq<char>) -> bool {
    seen.pid == Ok::<u32, String>(pid) && (seen.command matches Ok(c) && c@ == command)
}

pub fn external_process_still_matches(seen: &Listener, pid: u32, expected_command: &str) -> (r: bool)
    ensures
        r == still_matches(*seen, pid, expected_command@),
{
    let listens = match &seen.pid {
        Ok(found) => *found == pid,
        Err(_) => false,
    };
    match &seen.command {
        Ok(command) => listens && equal(command.as_str(), expected_command),
        Err(_) => false,
    }
}

/// A process other than the old one that listens and runs this configuration of DSH.
pub open spec fn is_successor(config: LauncherConfig, old_pid: u32, seen: Listener) -> bool {
    &&& seen.pid is Ok
    &&& seen.pid->Ok_0 != old_pid
    &&& seen.command is Ok
    &&& is_dsh_line(seen.command->Ok_0@)
    &&& runs_config(seen.command->Ok_0@, config)
}

pub fn find_successor(config: &LauncherConfig, old_pid: u32, seen: &Listener) -> (r: Option<
    (u32, String),
>)
    ensures
        match r {
            Some(found) => is_successor(*config, old_pid, *seen) && seen.pid == Ok::<u32, String>(
                found.0,
            ) && found.1@ == seen.command->Ok_0@,
            None => !is_successor(*config, old_pid, *seen),
        },
{
    match (&seen.pid, &seen.command) {
        (Ok(pid), Ok(command)) => {
            if *pid != old_pid && looks_like_dsh_process(command.as_str()) && dsh_command_matches(
                command.as_str(),
                config,
            ) {
                Some((*pid, command.clone()))
            } else {
                None
            }
        },
        _ => None,
    }
}

// ---------------------------------------------------------------------------
// Ending a process that is not a child
// ---------------------------------------------------------------------------

/// Where the ending of a process stands.
#[derive(Debug)]
pub enum TerminationStage {
    /// Whether it is still the same process must be found out.
    Identify,
    /// It must be asked to end.
    Signal,
    /// Whether it has ended must be found out, again and again until time is up.
    Wait,
    /// It did not end in time: whether it is still the same process must be found out.
    Recheck,
    /// It must be forced to end.
    Force,
    Ended(Result<(), String>),
}

/// Why a process could not be signalled.
#[derive(Debug)]
pub enum SignalFailure {
    /// The system's error.
    System(String),
    /// The status with which the command that ends processes on Windows exited.
    Status(String),
}

/// The failure as it stands behind the words that say what failed.
pub open spec fn failure_text(f: SignalFailure) -> Seq<char> {
    match f {
        SignalFailure::System(e) => "："@ + e@,
        SignalFailure::Status(s) => "，taskkill 退出状态："@ + s@,
    }
}

fn describe_failure(what: &str, f: &SignalFailure) -> (r: String)
    ensures
        r@ == what@ + failure_text(*f),
{
    let r = match f {
        SignalFailure::System(e) => what.to_string().concat("：").concat(e.as_str()),
        SignalFailure::Status(s) => what.to_string().concat("，taskkill 退出状态：").concat(
            s.as_str(),
        ),
    };
    assert(r@ =~= what@ + failure_text(*f));
    r
}

/// What was found out, or how an action ended.
#[derive(Debug)]
pub enum TerminationEvent {
    Seen(Listener),
    Signalled(Result<(), SignalFailure>),
    /// Whether the process is gone, and whether time is up.
    Polled { gone: bool, expired: bool },
}

#[derive(Debug)]
pub struct Termination {
    pub platform: PlatformTarget,
    pub pid: u32,
    pub port: u16,
    pub command: String,
    pub stage: TerminationStage,
}

/// What must be done next.
#[derive(Debug, Clone, Copy)]
pub enum TerminationAction {
    Look,
    Terminate,
    /// On Windows the whole tree is ended by force at once.
    TaskKill,
    Poll,
    Kill,
    Finished,
}

pub open spec fn ended_ok(s: TerminationStage) -> bool {
    s matches TerminationStage::Ended(r) && r is Ok
}

pub open spec fn ended_err(s: TerminationStage, e: Seq<char>) -> bool {
    s matches TerminationStage::Ended(r) && (r matches Err(m) && m@ == e)
}

/// Where the ending stands once an event is known. An event that answers another question
/// changes nothing.
pub open spec fn terminated(t: Termination, event: TerminationEvent, next: TerminationStage) -> bool {
    match (t.stage, event) {
        (TerminationStage::Identify, TerminationEvent::Seen(seen)) => if !still_matches(
            seen,
            t.pid,
            t.command@,
        ) {
            ended_err(next, "监听进程在终止前发生变化，已拒绝操作"@)
        } else if t.platform != PlatformTarget::Windows && t.pid > i32::MAX {
            ended_err(next, "监听进程 PID 无效"@)
        } else {
            next is Signal
        },
        (TerminationStage::Signal, TerminationEvent::Signalled(done)) => match done {
            Err(e) => ended_err(next, "终止外部 DSH 失败"@ + failure_text(e)),
            Ok(_) => if t.platform == PlatformTarget::Windows {
                ended_ok(next)
            } else {
                next is Wait
            },
        },
        (TerminationStage::Wait, TerminationEvent::Polled { gone, expired }) => if expired {
            next is Recheck
        } else if gone {
            ended_ok(next)
        } else {
            next is Wait
        },
        (TerminationStage::Recheck, TerminationEvent::Seen(seen)) => if seen.pid != Ok::<
            u32,
            String,
        >(t.pid) {
            ended_ok(next)
        } else {
            match seen.command {
                Err(e) => ended_err(next, e@),
                Ok(c) => if c@ != t.command@ {
                    ended_err(next, "监听进程在强制终止前发生变化，已拒绝操作"@)
                } else {
                    next is Force
                },
            }
        },
        (TerminationStage::Force, TerminationEvent::Signalled(done)) => match done {
            Err(e) => ended_err(next, "强制终止外部 DSH 失败"@ + failure_text(e)),
            Ok(_) => ended_ok(next),
        },
        _ => next == t.stage,
    }
}

impl Termination {
    pub fn new(platform: PlatformTarget, pid: u32, port: u16, command: String) -> (r: Termination)
        ensures
            r.platform == platform && r.pid == pid && r.port == port && r.command@ == command@
                && r.stage is Identify,
    {
        Termination { platform, pid, port, command, stage: TerminationStage::Identify }
    }

    pub fn action(&self) -> (r: TerminationAction)
        ensures
            r == (match self.stage {
                TerminationStage::Identify => TerminationAction::Look,
                TerminationStage::Signal => if self.platform == PlatformTarget::Windows {
                    TerminationAction::TaskKill
                } else {
                    TerminationAction::Terminate
                },
                TerminationStage::Wait => TerminationAction::Poll,
                TerminationStage::Recheck => TerminationAction::Look,
                TerminationStage::Force => TerminationAction::Kill,
                TerminationStage::Ended(_) => TerminationAction::Finished,
            }),
    {
        match self.stage {
            TerminationStage::Identify => TerminationAction::Look,
            TerminationStage::Signal => if matches!(self.platform, PlatformTarget::Windows) {
                TerminationAction::TaskKill
            } else {
                TerminationAction::Terminate
            },
            TerminationStage::Wait => TerminationAction::Poll,
            TerminationStage::Recheck => TerminationAction::Look,
            TerminationStage::Force => TerminationAction::Kill,
            TerminationStage::Ended(_) => TerminationAction::Finished,
        }
    }

    /// Takes note of what was found out.
    pub fn terminate_external_process(&mut self, event: TerminationEvent)
        ensures
            terminated(*old(self), event, final(self).stage),
            final(self).platform == old(self).platform,
            final(self).pid == old(self).pid,
            final(self).port == old(self).port,
            final(self).command == old(self).command,
    {
        match (&self.stage, event) {
            (TerminationStage::Identify, TerminationEvent::Seen(seen)) => {
                self.stage = if !external_process_still_matches(
                    &seen,
                    self.pid,
                    self.command.as_str(),
                ) {
                    refused("监听进程在终止前发生变化，已拒绝操作")
                } else if !matches!(self.platform, PlatformTarget::Windows) && self.pid
                    > i32::MAX as u32 {
                    refused("监听进程 PID 无效")
                } else {
                    TerminationStage::Signal
                };
            },
            (TerminationStage::Signal, TerminationEvent::Signalled(done)) => {
                self.stage = match done {
                    Err(e) => TerminationStage::Ended(
                        Err(describe_failure("终止外部 DSH 失败", &e)),
                    ),
                    Ok(_) => if matches!(self.platform, PlatformTarget::Windows) {
                        TerminationStage::Ended(Ok(()))
                    } else {
                        TerminationStage::Wait
                    },
                };
            },
            (TerminationStage::Wait, TerminationEvent::Polled { gone, expired }) => {
                self.stage = if expired {
                    TerminationStage::Recheck
                } else if gone {
                    TerminationStage::Ended(Ok(()))
                } else {
                    TerminationStage::Wait
                };
            },
            (TerminationStage::Recheck, TerminationEvent::Seen(seen)) => {
                let listens = match seen.pid {
                    Ok(found) => found == self.pid,
                    Err(_) => false,
                };
                self.stage = if !listens {
                    TerminationStage::Ended(Ok(()))
                } else {
                    match seen.command {
                        Err(e) => TerminationStage::Ended(Err(e)),
                        Ok(c) => if !equal(c.as_str(), self.command.as_str()) {
                            refused("监听进程在强制终止前发生变化，已拒绝操作")
                        } else {
                            TerminationStage::Force
                        },
                    }
                };
            },
            (TerminationStage::Force, TerminationEvent::Signalled(done)) => {
                self.stage = match done {
                    Err(e) => TerminationStage::Ended(
                        Err(describe_failure("强制终止外部 DSH 失败", &e)),
                    ),
                    Ok(_) => TerminationStage::Ended(Ok(())),
                };
            },
            _ => {},
        }
    }
}

fn refused(message: &str) -> (r: TerminationStage)
    ensures
        ended_err(r, message@),
{
    TerminationStage::Ended(Err(message.to_string()))
}

/// A process is asked or forced to end only when it was seen, just before, to listen on the
/// port and to run the command that it was found with.
pub proof fn only_an_identified_process_is_ended(
    t: Termination,
    event: TerminationEvent,
    next: TerminationStage,
)
    requires
        terminated(t, event, next),
        next is Signal && !(t.stage is Signal) || next is Force && !(t.stage is Force),
    ensures
        event matches TerminationEvent::Seen(seen) && still_matches(seen, t.pid, t.command@),
{
}

/// A process that has ended, or whose ending was refused, is left alone.
pub proof fn an_ended_process_is_left_alone(
    t: Termination,
    event: TerminationEvent,
    next: TerminationStage,
)
    requires
        t.stage is Ended,
        terminated(t, event, next),
    ensures
        next == t.stage,
{
}

// ---------------------------------------------------------------------------
// Addresses and command lines
// ---------------------------------------------------------------------------

/// The address of a service names its host and its port; a host with a colon stands in
/// brackets, whether it was written with them or not.
pub proof fn an_address_names_host_and_port(host: Seq<char>, port: u16)
    requires
        host.len() > 0,
        !text::is_space(host[0]) && !text::is_space(host.last()),
        host[0] != '[',
    ensures
        ({
            let address = service_address(host, port);
            &&& !host.contains(':') ==> address == "http://"@ + host + ":"@ + text::decimal(
                port as nat,
            )
            &&& host.contains(':') ==> address == "http://["@ + host + "]:"@ + text::decimal(
                port as nat,
            )
            &&& service_address(seq!['['] + host + seq![']'], port) == address
            &&& service_address(seq![' '] + host, port) == address
        }),
{
    reveal_strlit("[");
    reveal_strlit("]");
    reveal_strlit("http://");
    reveal_strlit("http://[");
    text::lemma_trimmed(host);
    assert(host.take(1)[0] == host[0]);
    assert(bare_host(host) == host);
    let bracketed = seq!['['] + host + seq![']'];
    assert(bracketed[0] == '[' && bracketed.last() == ']');
    text::lemma_trimmed(bracketed);
    assert(bracketed.take(1) =~= "["@);
    let inner = bracketed.skip(1);
    assert(inner.skip(inner.len() - 1) =~= "]"@);
    assert(inner.take(inner.len() - 1) =~= host);
    let spaced = seq![' '] + host;
    assert(spaced.skip(1) =~= host);
    assert(text::trim_start(spaced) == text::trim_start(host));
    if host.contains(':') {
        let n = text::decimal(port as nat);
        assert("http://"@ + ("["@ + host + "]:"@ + n) =~= "http://["@ + host + "]:"@ + n);
    } else {
        let n = text::decimal(port as nat);
        assert("http://"@ + (host + ":"@ + n) =~= "http://"@ + host + ":"@ + n);
    }
}

/// Whatever command is started with the arguments of a configuration is recognised as running
/// that configuration.
pub proof fn a_service_is_recognised_by_its_arguments(
    line: Seq<char>,
    command: Seq<Seq<char>>,
    config: LauncherConfig,
)
    requires
        custom_arguments(config.custom_args@) is Some,
        tokens_of(line) == command + seq![
            "--profile"@,
            text::trim(config.profile@),
            "--host"@,
            text::trim(config.host@),
            "--port"@,
            text::decimal(config.port as nat),
        ] + custom_arguments(config.custom_args@)->0,
    ensures
        runs_config(line, config),
{
    let tokens = tokens_of(line);
    let n = command.len() as int;
    let custom = custom_arguments(config.custom_args@)->0;
    assert(tokens[n] == "--profile"@ && tokens[n + 1] == text::trim(config.profile@));
    assert(tokens[n + 2] == "--host"@ && tokens[n + 3] == text::trim(config.host@));
    assert(tokens[n + 4] == "--port"@ && tokens[n + 5] == text::decimal(config.port as nat));
    assert(sets_option(tokens, n, "--profile"@, text::trim(config.profile@)));
    assert(sets_option(tokens, n + 2, "--host"@, text::trim(config.host@)));
    assert(sets_option(tokens, n + 4, "--port"@, text::decimal(config.port as nat)));
    assert(tokens.subrange(n + 6, n + 6 + custom.len()) =~= custom);
}

/// A command line that does not name the port of a configuration, nor its profile or host, is
/// not taken for one that runs it.
pub proof fn another_configuration_is_not_recognised(line: Seq<char>, config: LauncherConfig)
    ensures
        ({
            let tokens = tokens_of(line);
            let port = text::decimal(config.port as nat);
            let profile = text::trim(config.profile@);
            let host = text::trim(config.host@);
            &&& !tokens.contains(port) && !tokens.contains("--port="@ + port) ==> !runs_config(
                line,
                config,
            )
            &&& !tokens.contains(profile) && !tokens.contains("--profile="@ + profile)
                ==> !runs_config(line, config)
            &&& !tokens.contains(host) && !tokens.contains("--host="@ + host) ==> !runs_config(
                line,
                config,
            )
            &&& runs_config(line, config) ==> custom_arguments(config.custom_args@) is Some
                && forall|i: int|
                0 <= i < custom_arguments(config.custom_args@)->0.len() ==> tokens.contains(
                    #[trigger] custom_arguments(config.custom_args@)->0[i],
                )
        }),
{
    let tokens = tokens_of(line);
    reveal_strlit("--port=");
    reveal_strlit("--port");
    reveal_strlit("--profile=");
    reveal_strlit("--profile");
    reveal_strlit("--host=");
    reveal_strlit("--host");
    reveal_strlit("=");
    assert("--port"@ + "="@ =~= "--port="@);
    assert("--profile"@ + "="@ =~= "--profile="@);
    assert("--host"@ + "="@ =~= "--host="@);
    if runs_config(line, config) {
        let custom = custom_arguments(config.custom_args@)->0;
        if custom.len() > 0 {
            let at = choose|i: int|
                0 <= i <= tokens.len() - custom.len() && #[trigger] tokens.subrange(
                    i,
                    i + custom.len(),
                ) == custom;
            assert forall|i: int| 0 <= i < custom.len() implies tokens.contains(
                #[trigger] custom[i],
            ) by {
                assert(tokens.subrange(at, at + custom.len())[i] == tokens[at + i]);
            }
        }
        lemma_named_option(tokens, "--port"@, text::decimal(config.port as nat));
        lemma_named_option(tokens, "--profile"@, text::trim(config.profile@));
        lemma_named_option(tokens, "--host"@, text::trim(config.host@));
    }
}

proof fn lemma_named_option(tokens: Seq<Seq<char>>, option: Seq<char>, expected: Seq<char>)
    requires
        has_option(tokens, option, expected),
    ensures
        tokens.contains(expected) || tokens.contains(option + "="@ + expected),
{
    let i = choose|i: int| 0 <= i < tokens.len() && #[trigger] sets_option(
        tokens,
        i,
        option,
        expected,
    );
    assert(tokens[i] == option + "="@ + expected || tokens[i + 1] == expected);
}

/// The command of DSH is recognised by its name, wherever it is, and its package by the path
/// of its files.
pub proof fn the_command_of_dsh_is_recognised(dir: Seq<char>, rest: Seq<char>)
    requires
        dir.len() > 0,
        dir[0] != '\'' && dir[0] != '"',
        rest.len() > 0,
        rest.last() != '\'' && rest.last() != '"',
    ensures
        names_dsh("dsh"@),
        names_dsh(dir + "/dsh"@),
        names_dsh(dir + "/dsh.cmd"@),
        names_dsh(dir + "/dsh.ps1"@),
        names_dsh(dir + "/@deepseek-ai/dsh/"@ + rest),
        names_dsh(dir + "/deepseek-harness/"@ + rest),
{
    reveal_strlit("dsh");
    reveal_strlit("/dsh");
    reveal_strlit("/dsh.cmd");
    reveal_strlit("/dsh.ps1");
    reveal_strlit("/@deepseek-ai/dsh/");
    reveal_strlit("/deepseek-harness/");
    lemma_not_quoted("dsh"@);
    lemma_not_quoted(dir + "/dsh"@);
    lemma_not_quoted(dir + "/dsh.cmd"@);
    lemma_not_quoted(dir + "/dsh.ps1"@);
    lemma_not_quoted(dir + "/@deepseek-ai/dsh/"@ + rest);
    lemma_not_quoted(dir + "/deepseek-harness/"@ + rest);
    let n = dir.len() as int;
    assert((dir + "/dsh"@).skip(n) =~= "/dsh"@);
    assert((dir + "/dsh.cmd"@).skip(n) =~= "/dsh.cmd"@);
    assert((dir + "/dsh.ps1"@).skip(n) =~= "/dsh.ps1"@);
    text::lemma_contains(dir, "/@deepseek-ai/dsh/"@, rest);
    text::lemma_contains(dir, "/deepseek-harness/"@, rest);
}

/// A text without quotes around it stays as it is.
pub proof fn lemma_not_quoted(t: Seq<char>)
    requires
        t.len() > 0,
        t[0] != '\'' && t[0] != '"',
        t.last() != '\'' && t.last() != '"',
    ensures
        unquoted(t) == t,
{
    let quotes = seq!['\'', '"'];
    assert(!quotes.contains(t[0]));
    assert(!quotes.contains(t.last()));
}

/// The listening processes of a port and the command line of a process are asked for by that
/// port and that number.
pub proof fn a_query_names_what_it_asks_for(platform: PlatformTarget, port: u16, pid: u32)
    ensures
        platform == PlatformTarget::Windows ==> {
            &&& listener_args(platform, port).len() == 4
            &&& listener_args(platform, port)[3] == "(Get-NetTCPConnection -State Listen -LocalPort "@
                + text::decimal(port as nat)
                + " -ErrorAction Stop | Select-Object -ExpandProperty OwningProcess -Unique) -join \"`n\""@
            &&& command_args(platform, pid).len() == 4
            &&& command_args(platform, pid)[3]
                == "(Get-CimInstance Win32_Process -Filter \"ProcessId = "@ + text::decimal(
                pid as nat,
            ) + "\" -ErrorAction Stop).CommandLine"@
        },
        platform != PlatformTarget::Windows ==> {
            &&& listener_args(platform, port) == seq![
                "-nP"@,
                "-t"@,
                "-iTCP:"@ + text::decimal(port as nat),
                "-sTCP:LISTEN"@,
            ]
            &&& command_args(platform, pid) == seq![
                "-p"@,
                text::decimal(pid as nat),
                "-o"@,
                "command="@,
            ]
        },
{
}

/// A process is ended in steps: asked, waited for, and forced only if it is still there and
/// still the same when time is up. On Windows the first step is the only one.
pub proof fn a_process_is_ended_in_steps(
    t: Termination,
    event: TerminationEvent,
    next: TerminationStage,
)
    requires
        terminated(t, event, next),
    ensures
        t.stage is Identify ==> (event matches TerminationEvent::Seen(seen) ==> {
            let same = seen.pid is Ok && seen.pid->Ok_0 == t.pid && seen.command is Ok
                && seen.command->Ok_0@ == t.command@;
            &&& next is Signal <==> same && (t.platform == PlatformTarget::Windows || t.pid
                <= 0x7fff_ffff)
            &&& !(next is Signal) ==> next is Ended && !ended_ok(next)
        }),
        t.stage is Signal ==> (event matches TerminationEvent::Signalled(done) ==> {
            &&& done is Err ==> next is Ended && !ended_ok(next)
            &&& done is Ok && t.platform == PlatformTarget::Windows ==> ended_ok(next)
            &&& done is Ok && t.platform != PlatformTarget::Windows ==> next is Wait
        }),
        t.stage is Wait ==> (event matches TerminationEvent::Polled { gone, expired } ==> {
            &&& expired ==> next is Recheck
            &&& !expired && gone ==> ended_ok(next)
            &&& !expired && !gone ==> next is Wait
        }),
        t.stage is Recheck ==> (event matches TerminationEvent::Seen(seen) ==> {
            let listens = seen.pid is Ok && seen.pid->Ok_0 == t.pid;
            &&& !listens ==> ended_ok(next)
            &&& listens && seen.command is Ok && seen.command->Ok_0@ == t.command@ ==> next is Force
            &&& listens && !(seen.command is Ok && seen.command->Ok_0@ == t.command@) ==> next is Ended
                && !ended_ok(next)
        }),
        t.stage is Force ==> (event matches TerminationEvent::Signalled(done) ==> next is Ended && (
        ended_ok(next) <==> done is Ok)),
{
}

/// The command line of a process is what was printed of it, and a process without one is not
/// touched.
pub proof fn a_command_line_is_needed(shown: CommandOutcome)
    ensures
        match shown_command(shown) {
            Ok(line) => shown matches CommandOutcome::Finished { success, stdout } && success && line
                == text::trim(adapters::lossy(stdout@)) && line.len() > 0,
            Err(_) => shown is NotRun || (shown matches CommandOutcome::Finished {
                success,
                stdout,
            } && (!success || text::trim(adapters::lossy(stdout@)).len() == 0)),
        },
{
}

/// The process that listens on a port is the one whose number was printed. Where two different
/// numbers were printed, or none, no process is named.
pub proof fn one_listener_is_named(
    lines: Seq<Seq<char>>,
    port: u16,
    pid: u32,
    other: u32,
    i: int,
    j: int,
    r: Result<u32, Seq<char>>,
)
    requires
        single_pid(lines, port, r),
        0 <= i < lines.len(),
        0 <= j < lines.len(),
        lines[i] == text::decimal(pid as nat),
        lines[j] == text::decimal(other as nat),
    ensures
        pid != other ==> r is Err,
        (forall|k: int| 0 <= k < lines.len() ==> #[trigger] lines[k] == text::decimal(pid as nat))
            ==> r == Ok::<u32, Seq<char>>(pid),
{
    lemma_printed_pid(pid);
    lemma_printed_pid(other);
    assert(line_pid(lines[i]) == Some(pid as nat));
    assert(line_pid(lines[j]) == Some(other as nat));
    assert(lists_pid(lines, pid as nat));
    assert(lists_pid(lines, other as nat));
    if forall|k: int| 0 <= k < lines.len() ==> #[trigger] lines[k] == text::decimal(pid as nat) {
        assert forall|p: nat| #[trigger] lists_pid(lines, p) implies p == pid as nat by {
            let k = choose|k: int| 0 <= k < lines.len() && line_pid(#[trigger] lines[k]) == Some(p);
            assert(lines[k] == text::decimal(pid as nat));
        }
    }
}

/// Without a number no process is named.
pub proof fn without_a_number_there_is_no_listener(
    lines: Seq<Seq<char>>,
    port: u16,
    r: Result<u32, Seq<char>>,
)
    requires
        single_pid(lines, port, r),
        forall|k: int| 0 <= k < lines.len() ==> line_pid(#[trigger] lines[k]) is None,
    ensures
        r is Err,
{
    if let Ok(pid) = r {
        assert(lists_pid(lines, pid as nat));
    }
}

proof fn lemma_printed_pid(pid: u32)
    ensures
        line_pid(text::decimal(pid as nat)) == Some(pid as nat),
{
    text::a_number_is_read_back(pid as nat, u32::MAX as nat);
    let d = text::decimal(pid as nat);
    assert(text::is_digit(d[0]) && text::is_digit(d[d.len() - 1]));
    text::lemma_trimmed(d);
}

/// A successor is another process than the old one that runs DSH as it is configured.
pub proof fn a_successor_runs_dsh_as_configured(
    config: LauncherConfig,
    old_pid: u32,
    pid: u32,
    line: String,
    why: String,
)
    ensures
        is_successor(config, old_pid, (Listener { pid: Ok(pid), command: Ok(line) })) <==> pid
            != old_pid && is_dsh_line(line@) && runs_config(line@, config),
        !is_successor(config, old_pid, (Listener { pid: Err(why), command: Ok(line) })),
        !is_successor(config, old_pid, (Listener { pid: Ok(pid), command: Err(why) })),
{
}

} // verus!
