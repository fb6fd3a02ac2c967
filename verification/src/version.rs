//! The version that the DSH command reports.

use vstd::prelude::*;
use vstd::slice::slice_subrange;

use crate::adapters;
use crate::adapters::semver_canonical;
use crate::text;
use crate::text::{
    char_is_alnum, char_is_digit, chars_of, first_chars, string_of, trimmed,
};

verus! {

/// How long a command may take to print its version, and how often it is looked at.
pub const VERSION_TIMEOUT_SECS: u64 = 8;

pub const VERSION_POLL_MILLIS: u64 = 40;

// ---------------------------------------------------------------------------
// Versions in a text
// ---------------------------------------------------------------------------

/// A character that ties what follows it to a longer word.
pub open spec fn is_edge(c: char) -> bool {
    text::is_alnum(c) || c == '.' || c == '_' || c == '-' || c == '/'
}

pub fn is_semver_token_edge(c: char) -> (r: bool)
    ensures
        r == is_edge(c),
{
    char_is_alnum(c) || c == '.' || c == '_' || c == '-' || c == '/'
}

/// Where the digits that start at `i` end.
pub open spec fn digits_end(s: Seq<char>, i: int) -> int
    decreases s.len() - i,
{
    if 0 <= i < s.len() && text::is_digit(s[i]) {
        digits_end(s, i + 1)
    } else {
        i
    }
}

pub open spec fn is_ident_char(c: char) -> bool {
    text::is_alnum(c) || c == '-'
}

/// Where the identifier that starts at `i` ends.
pub open spec fn ident_end(s: Seq<char>, i: int) -> int
    decreases s.len() - i,
{
    if 0 <= i < s.len() && is_ident_char(s[i]) {
        ident_end(s, i + 1)
    } else {
        i
    }
}

proof fn lemma_ends(s: Seq<char>, i: int)
    requires
        0 <= i <= s.len(),
    ensures
        i <= digits_end(s, i) <= s.len(),
        i <= ident_end(s, i) <= s.len(),
    decreases s.len() - i,
{
    if i < s.len() {
        lemma_ends(s, i + 1);
    }
}

/// The character `c` stands at `i`.
pub open spec fn stands(s: Seq<char>, i: int, c: char) -> bool {
    0 <= i < s.len() && s[i] == c
}

/// Where the three numbers with dots between them that start at `i` end.
pub open spec fn numbers_end(s: Seq<char>, i: int) -> Option<int> {
    let a = digits_end(s, i);
    let b = digits_end(s, a + 1);
    let c = digits_end(s, b + 1);
    if a > i && stands(s, a, '.') && b > a + 1 && stands(s, b, '.') && c > b + 1 {
        Some(c)
    } else {
        None
    }
}

/// Where the identifiers with dots between them that start at `i` end.
pub open spec fn idents_end(s: Seq<char>, i: int) -> Option<int>
    decreases s.len() - i,
{
    let e = ident_end(s, i);
    if e <= i || e > s.len() {
        None
    } else if stands(s, e, '.') {
        idents_end(s, e + 1)
    } else {
        Some(e)
    }
}

/// Where the part that `lead` introduces at `i` ends; at `i` where there is none.
pub open spec fn part_end(s: Seq<char>, i: int, lead: char) -> Option<int> {
    if stands(s, i, lead) {
        idents_end(s, i + 1)
    } else {
        Some(i)
    }
}

/// Where the version that starts at `i` ends: three numbers, a pre-release, a build.
pub open spec fn version_end(s: Seq<char>, i: int) -> Option<int> {
    match numbers_end(s, i) {
        None => None,
        Some(a) => match part_end(s, a, '-') {
            None => None,
            Some(b) => part_end(s, b, '+'),
        },
    }
}

fn skip_digits(s: &[char], from: usize) -> (r: usize)
    requires
        from <= s.len(),
    ensures
        r == digits_end(s@, from as int),
        from <= r <= s.len(),
{
    let mut i: usize = from;
    while i < s.len() && char_is_digit(s[i])
        invariant
            from <= i <= s.len(),
            digits_end(s@, i as int) == digits_end(s@, from as int),
        decreases s.len() - i,
    {
        i += 1;
    }
    i
}

fn skip_idents(s: &[char], from: usize) -> (r: Option<usize>)
    requires
        from <= s.len(),
    ensures
        match r {
            Some(e) => idents_end(s@, from as int) == Some(e as int) && from <= e <= s.len(),
            None => idents_end(s@, from as int) is None,
        },
{
    let mut start: usize = from;
    loop
        invariant
            from <= start <= s.len(),
            idents_end(s@, start as int) == idents_end(s@, from as int),
        decreases s.len() - start,
    {
        let mut e: usize = start;
        while e < s.len() && (char_is_alnum(s[e]) || s[e] == '-')
            invariant
                start <= e <= s.len(),
                ident_end(s@, e as int) == ident_end(s@, start as int),
            decreases s.len() - e,
        {
            e += 1;
        }
        assert(ident_end(s@, start as int) == e);
        if e == start {
            return None;
        }
        if e < s.len() && s[e] == '.' {
            start = e + 1;
        } else {
            return Some(e);
        }
    }
}

fn skip_part(s: &[char], from: usize, lead: char) -> (r: Option<usize>)
    requires
        from <= s.len(),
    ensures
        match r {
            Some(e) => part_end(s@, from as int, lead) == Some(e as int) && from <= e <= s.len(),
            None => part_end(s@, from as int, lead) is None,
        },
{
    if from < s.len() && s[from] == lead {
        skip_idents(s, from + 1)
    } else {
        Some(from)
    }
}

pub fn parse_semver_at(s: &[char], start: usize) -> (r: Option<usize>)
    ensures
        match r {
            Some(e) => version_end(s@, start as int) == Some(e as int) && start < e <= s.len(),
            None => version_end(s@, start as int) is None,
        },
{
    if start >= s.len() {
        return None;
    }
    let a: usize = skip_digits(s, start);
    if a == start || a >= s.len() || s[a] != '.' {
        return None;
    }
    let b: usize = skip_digits(s, a + 1);
    if b == a + 1 || b >= s.len() || s[b] != '.' {
        return None;
    }
    let c: usize = skip_digits(s, b + 1);
    if c == b + 1 {
        return None;
    }
    match skip_part(s, c, '-') {
        Some(d) => skip_part(s, d, '+'),
        None => None,
    }
}

/// The version that ends at `end` is not the beginning of a longer word. A full stop may
/// follow, but no further number.
pub open spec fn ends_whole(s: Seq<char>, end: int) -> bool {
    if end >= s.len() {
        true
    } else if s[end] == '.' {
        !(end + 1 < s.len() && text::is_digit(s[end + 1]))
    } else {
        !(text::is_alnum(s[end]) || s[end] == '_' || s[end] == '-' || s[end] == '/')
    }
}

pub fn semver_terminator_ok(s: &[char], end: usize) -> (r: bool)
    ensures
        r == ends_whole(s@, end as int),
{
    if end >= s.len() {
        true
    } else if s[end] == '.' {
        !(end < s.len() - 1 && char_is_digit(s[end + 1]))
    } else {
        !(char_is_alnum(s[end]) || s[end] == '_' || s[end] == '-' || s[end] == '/')
    }
}

/// The version that a word at `i` is: from its first digit to its end. A `v` may stand
/// before the first digit.
pub open spec fn token_at(s: Seq<char>, i: int) -> Option<(int, int)> {
    let prefixed = s[i] == 'v' || s[i] == 'V';
    let from = if prefixed {
        i + 1
    } else {
        i
    };
    if !(0 <= from < s.len() && text::is_digit(s[from])) {
        None
    } else if i > 0 && is_edge(s[i - 1]) {
        None
    } else {
        match version_end(s, from) {
            Some(end) => if ends_whole(s, end) {
                Some((from, end))
            } else {
                None
            },
            None => None,
        }
    }
}

/// The version at `i`, if there is one.
pub open spec fn version_at(s: Seq<char>, i: int) -> Option<Seq<char>> {
    match token_at(s, i) {
        Some(t) => if adapters::semver_text(s.subrange(t.0, t.1)) {
            Some(s.subrange(t.0, t.1))
        } else {
            None
        },
        None => None,
    }
}

/// The first version at `i` or after it.
pub open spec fn first_version(s: Seq<char>, i: int) -> Option<Seq<char>>
    decreases s.len() - i,
{
    if i < 0 || i >= s.len() {
        None
    } else if version_at(s, i) is Some {
        version_at(s, i)
    } else {
        first_version(s, i + 1)
    }
}

fn find_token(s: &[char], i: usize) -> (r: Option<(usize, usize)>)
    requires
        i < s.len(),
    ensures
        match r {
            Some(t) => token_at(s@, i as int) == Some((t.0 as int, t.1 as int)) && t.0 < t.1
                <= s.len(),
            None => token_at(s@, i as int) is None,
        },
{
    let from: usize = if s[i] == 'v' || s[i] == 'V' {
        i + 1
    } else {
        i
    };
    if from >= s.len() || !char_is_digit(s[from]) {
        return None;
    }
    if i > 0 && is_semver_token_edge(s[i - 1]) {
        return None;
    }
    match parse_semver_at(s, from) {
        Some(end) => if semver_terminator_ok(s, end) {
            Some((from, end))
        } else {
            None
        },
        None => None,
    }
}

/// The first version that stands in a text as a word of its own.
pub fn extract_semver_token(output: &str) -> (r: Option<String>)
    ensures
        text::opt_text(r) == first_version(output@, 0),
        r is Some ==> adapters::semver_text(r->0@),
{
    let s = chars_of(output);
    let mut i: usize = 0;
    while i < s.len()
        invariant
            i <= s.len(),
            s@ == output@,
            first_version(output@, 0) == first_version(output@, i as int),
        decreases s.len() - i,
    {
        if let Some((from, end)) = find_token(s.as_slice(), i) {
            let token = string_of(slice_subrange(s.as_slice(), from, end));
            if semver_canonical(token.as_str()).is_ok() {
                return Some(token);
            }
        }
        i += 1;
    }
    None
}

// ---------------------------------------------------------------------------
// The version command
// ---------------------------------------------------------------------------

/// The version that was printed, to the one output or, failing that, to the other.
pub open spec fn printed_version(stdout: Seq<char>, stderr: Seq<char>) -> Option<Seq<char>> {
    match first_version(stdout, 0) {
        Some(v) => Some(v),
        None => first_version(stderr, 0),
    }
}

pub fn parse_dsh_version(stdout: &str, stderr: &str) -> (r: Option<String>)
    ensures
        text::opt_text(r) == printed_version(stdout@, stderr@),
{
    match extract_semver_token(stdout) {
        Some(v) => Some(v),
        None => extract_semver_token(stderr),
    }
}

/// What is said of an output without a version: the beginning of what was printed.
pub open spec fn version_complaint(stdout: Seq<char>, stderr: Seq<char>) -> Seq<char> {
    let out = text::trim(stdout);
    let err = text::trim(stderr);
    let seen = if err.len() == 0 {
        out
    } else if out.len() == 0 {
        err
    } else {
        out.push(' ') + err
    };
    if seen.len() == 0 {
        "dsh --version 未返回任何输出，无法识别版本"@
    } else {
        "未能从 dsh 输出中识别语义化版本："@ + text::shortened(seen, 160)
    }
}

pub fn version_parse_error(stdout: &str, stderr: &str) -> (r: String)
    ensures
        r@ == version_complaint(stdout@, stderr@),
{
    let all_out = chars_of(stdout);
    let all_err = chars_of(stderr);
    let out = trimmed(all_out.as_slice());
    let err = trimmed(all_err.as_slice());
    let mut seen = string_of(out);
    if err.len() == 0 {
        if out.len() == 0 {
            return "dsh --version 未返回任何输出，无法识别版本".to_string();
        }
    } else {
        if out.len() > 0 {
            seen.push(' ');
        }
        seen.append(string_of(err).as_str());
    }
    assert(out@.len() == 0 ==> out@ + err@ =~= err@);
    let snippet = string_of(first_chars(chars_of(seen.as_str()).as_slice(), 160));
    "未能从 dsh 输出中识别语义化版本：".to_string().concat(snippet.as_str())
}

/// How the version command ended.
#[derive(Debug)]
pub enum VersionProbe {
    /// It could not be run; why.
    NotRun(String),
    TimedOut,
    /// It could not be watched; why.
    NotWatched(String),
    Exited { success: bool, status: String, stdout: String, stderr: String },
}

/// The version that the command reports, or why there is none.
pub open spec fn probed_version(p: VersionProbe) -> Result<Seq<char>, Seq<char>> {
    match p {
        VersionProbe::NotRun(e) => Err("无法执行 dsh："@ + e@),
        VersionProbe::TimedOut => Err("执行 dsh --version 超时"@),
        VersionProbe::NotWatched(e) => Err("检查 dsh --version 状态失败："@ + e@),
        VersionProbe::Exited { success, status, stdout, stderr } => if success {
            match printed_version(stdout@, stderr@) {
                Some(v) => Ok(v),
                None => Err(version_complaint(stdout@, stderr@)),
            }
        } else if text::trim(stderr@).len() > 0 {
            Err(text::trim(stderr@))
        } else if text::trim(stdout@).len() > 0 {
            Err(text::trim(stdout@))
        } else {
            Err("dsh --version 以退出码 "@ + status@ + " 失败"@)
        },
    }
}

pub fn dsh_version(p: &VersionProbe) -> (r: Result<String, String>)
    ensures
        crate::process::text_outcome(r) == probed_version(*p),
{
    match p {
        VersionProbe::NotRun(e) => Err("无法执行 dsh：".to_string().concat(e.as_str())),
        VersionProbe::TimedOut => Err("执行 dsh --version 超时".to_string()),
        VersionProbe::NotWatched(e) => Err(
            "检查 dsh --version 状态失败：".to_string().concat(e.as_str()),
        ),
        VersionProbe::Exited { success, status, stdout, stderr } => {
            if *success {
                return match parse_dsh_version(stdout.as_str(), stderr.as_str()) {
                    Some(v) => Ok(v),
                    None => Err(version_parse_error(stdout.as_str(), stderr.as_str())),
                };
            }
            let all_err = chars_of(stderr.as_str());
            let err = trimmed(all_err.as_slice());
            if err.len() > 0 {
                return Err(string_of(err));
            }
            let all_out = chars_of(stdout.as_str());
            let out = trimmed(all_out.as_slice());
            if out.len() > 0 {
                return Err(string_of(out));
            }
            Err(
                "dsh --version 以退出码 ".to_string().concat(status.as_str()).concat(" 失败"),
            )
        },
    }
}

/// The version that starts at `from` is not the end of a longer word: no letter, digit,
/// dot, underscore, slash or minus stands before it, nor before its `v`.
pub open spec fn starts_whole(s: Seq<char>, from: int) -> bool {
    ||| from == 0 || !is_edge(s[from - 1])
    ||| (s[from - 1] == 'v' || s[from - 1] == 'V') && (from == 1 || !is_edge(s[from - 2]))
}

/// What stands before and behind a version is such that the version is a word of its own:
/// of the characters that may not stand before it, only a full stop may follow, and no
/// digit behind that.
pub open spec fn is_whole_word(s: Seq<char>, from: int, end: int) -> bool {
    &&& starts_whole(s, from)
    &&& end < s.len() ==> !is_edge(s[end]) || s[end] == '.' && !(end + 1 < s.len()
        && text::is_digit(s[end + 1]))
}

/// What is read from an output as a version stands in it, and is not part of a longer word.
pub proof fn a_version_is_a_whole_word(s: Seq<char>, i: int)
    requires
        0 <= i <= s.len(),
        first_version(s, i) is Some,
    ensures
        exists|from: int, end: int|
            i <= from < end <= s.len() && first_version(s, i) == Some(
                #[trigger] s.subrange(from, end),
            ) && is_whole_word(s, from, end) && text::is_digit(s[from]),
    decreases s.len() - i,
{
    if i < s.len() {
        if version_at(s, i) is Some {
            let t = token_at(s, i)->0;
            lemma_version_end(s, t.0);
            assert(first_version(s, i) == Some(s.subrange(t.0, t.1)));
        } else {
            a_version_is_a_whole_word(s, i + 1);
            let (from, end) = choose|from: int, end: int|
                i + 1 <= from < end <= s.len() && first_version(s, i + 1) == Some(
                    #[trigger] s.subrange(from, end),
                ) && is_whole_word(s, from, end) && text::is_digit(s[from]);
            assert(first_version(s, i) == Some(s.subrange(from, end)));
        }
    }
}

proof fn lemma_version_end(s: Seq<char>, i: int)
    requires
        0 <= i < s.len(),
        version_end(s, i) is Some,
    ensures
        i < version_end(s, i)->0 <= s.len(),
{
    let a = digits_end(s, i);
    lemma_ends(s, i);
    lemma_ends(s, a + 1);
    let b = digits_end(s, a + 1);
    lemma_ends(s, b + 1);
    let c = digits_end(s, b + 1);
    lemma_part_end(s, c, '-');
    let d = part_end(s, c, '-')->0;
    lemma_part_end(s, d, '+');
}

proof fn lemma_part_end(s: Seq<char>, i: int, lead: char)
    requires
        0 <= i <= s.len(),
    ensures
        part_end(s, i, lead) matches Some(e) ==> i <= e <= s.len(),
{
    if stands(s, i, lead) {
        lemma_idents_end(s, i + 1);
    }
}

proof fn lemma_idents_end(s: Seq<char>, i: int)
    requires
        0 <= i <= s.len(),
    ensures
        idents_end(s, i) matches Some(e) ==> i <= e <= s.len(),
    decreases s.len() - i,
{
    lemma_ends(s, i);
    let e = ident_end(s, i);
    if e > i && stands(s, e, '.') {
        lemma_idents_end(s, e + 1);
    }
}

// ---------------------------------------------------------------------------
// Which versions are read
// ---------------------------------------------------------------------------

/// Some digits, and nothing else.
pub open spec fn is_number(s: Seq<char>) -> bool {
    s.len() > 0 && forall|i: int| 0 <= i < s.len() ==> text::is_digit(#[trigger] s[i])
}

/// A version that stands in an output as a word of its own is read from it, with a `v` before
/// it or without, if there is no number before it.
pub proof fn a_printed_version_is_read(
    before: Seq<char>,
    major: Seq<char>,
    minor: Seq<char>,
    patch: Seq<char>,
    after: Seq<char>,
)
    requires
        is_number(major) && is_number(minor) && is_number(patch),
        adapters::semver_text(major + seq!['.'] + minor + seq!['.'] + patch),
        forall|i: int| 0 <= i < before.len() ==> !text::is_digit(#[trigger] before[i]),
        before.len() == 0 || before.last() == ' ' || before.last() == '\n',
        after.len() == 0 || after[0] == ' ' || after[0] == '\n' || after[0] == '\r',
    ensures
        ({
            let version = major + seq!['.'] + minor + seq!['.'] + patch;
            &&& first_version(before + version + after, 0) == Some(version)
            &&& first_version(before + seq!['v'] + version + after, 0) == Some(version)
        }),
{
    let version = major + seq!['.'] + minor + seq!['.'] + patch;
    assert(version[0] == major[0]);
    lemma_version_here(before, major, minor, patch, after);
    lemma_read_after(before, version, after);
    lemma_version_here(before + seq!['v'], major, minor, patch, after);
    lemma_read_behind_v(before, version, after);
}

proof fn lemma_read_after(before: Seq<char>, version: Seq<char>, after: Seq<char>)
    requires
        version.len() > 0,
        text::is_digit(version[0]),
        adapters::semver_text(version),
        forall|i: int| 0 <= i < before.len() ==> !text::is_digit(#[trigger] before[i]),
        before.len() == 0 || before.last() == ' ' || before.last() == '\n',
        ({
            let s = before + version + after;
            let n = before.len() as int;
            version_end(s, n) == Some(n + version.len()) && ends_whole(s, n + version.len())
        }),
    ensures
        first_version(before + version + after, 0) == Some(version),
{
    let s = before + version + after;
    let n = before.len() as int;
    assert(s[n] == version[0]);
    assert(s.subrange(n, n + version.len()) =~= version);
    assert(s.take(n) =~= before);
    lemma_nothing_before(before, s);
    if n > 0 {
        assert(s[n - 1] == before[n - 1]);
    }
    assert(token_at(s, n) == Some((n, n + version.len())));
    lemma_first_version(s, 0, n);
}

proof fn lemma_read_behind_v(before: Seq<char>, version: Seq<char>, after: Seq<char>)
    requires
        version.len() > 0,
        text::is_digit(version[0]),
        adapters::semver_text(version),
        forall|i: int| 0 <= i < before.len() ==> !text::is_digit(#[trigger] before[i]),
        before.len() == 0 || before.last() == ' ' || before.last() == '\n',
        ({
            let s = before + seq!['v'] + version + after;
            let n = before.len() as int + 1;
            version_end(s, n) == Some(n + version.len()) && ends_whole(s, n + version.len())
        }),
    ensures
        first_version(before + seq!['v'] + version + after, 0) == Some(version),
{
    let s = before + seq!['v'] + version + after;
    let n = before.len() as int;
    assert(s[n] == 'v');
    assert(s[n + 1] == version[0]);
    assert(s.subrange(n + 1, n + 1 + version.len()) =~= version);
    assert(s.take(n) =~= before);
    lemma_nothing_before(before, s);
    if n > 0 {
        assert(s[n - 1] == before[n - 1]);
    }
    assert(token_at(s, n) == Some((n + 1, n + 1 + version.len())));
    lemma_first_version(s, 0, n);
}

/// No version begins where there is no digit.
proof fn lemma_nothing_before(before: Seq<char>, s: Seq<char>)
    requires
        before.len() < s.len(),
        s.take(before.len() as int) == before,
        forall|i: int| 0 <= i < before.len() ==> !text::is_digit(#[trigger] before[i]),
        before.len() == 0 || before.last() == ' ' || before.last() == '\n',
    ensures
        forall|i: int| 0 <= i < before.len() ==> #[trigger] version_at(s, i) is None,
{
    assert forall|i: int| 0 <= i < before.len() implies #[trigger] version_at(s, i) is None by {
        assert(s[i] == s.take(before.len() as int)[i]);
        if i + 1 < before.len() {
            assert(s[i + 1] == s.take(before.len() as int)[i + 1]);
        }
    }
}

proof fn lemma_first_version(s: Seq<char>, from: int, at: int)
    requires
        0 <= from <= at < s.len(),
        forall|i: int| from <= i < at ==> #[trigger] version_at(s, i) is None,
        version_at(s, at) is Some,
    ensures
        first_version(s, from) == version_at(s, at),
    decreases at - from,
{
    if from < at {
        assert(version_at(s, from) is None);
        lemma_first_version(s, from + 1, at);
    }
}

proof fn lemma_digits_end(s: Seq<char>, from: int, end: int)
    requires
        0 <= from <= end <= s.len(),
        forall|i: int| from <= i < end ==> text::is_digit(#[trigger] s[i]),
        end < s.len() ==> !text::is_digit(s[end]),
    ensures
        digits_end(s, from) == end,
    decreases end - from,
{
    if from < end {
        assert(text::is_digit(s[from]));
        lemma_digits_end(s, from + 1, end);
    }
}

proof fn lemma_version_here(
    before: Seq<char>,
    major: Seq<char>,
    minor: Seq<char>,
    patch: Seq<char>,
    after: Seq<char>,
)
    requires
        is_number(major) && is_number(minor) && is_number(patch),
        after.len() == 0 || after[0] == ' ' || after[0] == '\n' || after[0] == '\r',
    ensures
        ({
            let version = major + seq!['.'] + minor + seq!['.'] + patch;
            let s = before + version + after;
            let n = before.len() as int;
            version_end(s, n) == Some(n + version.len()) && ends_whole(s, n + version.len())
        }),
{
    let version = major + seq!['.'] + minor + seq!['.'] + patch;
    let s = before + version + after;
    let n = before.len() as int;
    let a = n + major.len();
    let b = a + 1 + minor.len();
    let c = b + 1 + patch.len();
    assert forall|i: int| n <= i < a implies text::is_digit(#[trigger] s[i]) by {
        assert(s[i] == major[i - n]);
    }
    assert(s[a] == '.');
    lemma_digits_end(s, n, a);
    assert forall|i: int| a + 1 <= i < b implies text::is_digit(#[trigger] s[i]) by {
        assert(s[i] == minor[i - a - 1]);
    }
    assert(s[b] == '.');
    lemma_digits_end(s, a + 1, b);
    assert forall|i: int| b + 1 <= i < c implies text::is_digit(#[trigger] s[i]) by {
        assert(s[i] == patch[i - b - 1]);
    }
    if c < s.len() {
        assert(s[c] == after[0]);
    }
    lemma_digits_end(s, b + 1, c);
}

/// What is printed to the standard output counts before what is printed to the other one.
pub proof fn the_standard_output_counts_first(stdout: Seq<char>, stderr: Seq<char>)
    ensures
        first_version(stdout, 0) is Some ==> printed_version(stdout, stderr) == first_version(
            stdout,
            0,
        ),
        first_version(stdout, 0) is None ==> printed_version(stdout, stderr) == first_version(
            stderr,
            0,
        ),
{
}

/// The command has a version only if it was run, ended well and printed one. If it ended badly
/// it is quoted: what it printed as an error, else what it printed at all.
pub proof fn only_a_command_that_ended_well_has_a_version(
    stdout: String,
    stderr: String,
    status: String,
    why: String,
)
    ensures
        ({
            let well = VersionProbe::Exited { success: true, status, stdout, stderr };
            let badly = VersionProbe::Exited { success: false, status, stdout, stderr };
            let version = printed_version(stdout@, stderr@);
            let out = text::trim(stdout@);
            let err = text::trim(stderr@);
            &&& version is Some ==> probed_version(well) == Ok::<Seq<char>, Seq<char>>(version->0)
            &&& version is None ==> probed_version(well) is Err
            &&& err.len() > 0 ==> probed_version(badly) == Err::<Seq<char>, Seq<char>>(err)
            &&& err.len() == 0 && out.len() > 0 ==> probed_version(badly) == Err::<
                Seq<char>,
                Seq<char>,
            >(out)
            &&& probed_version(badly) is Err
            &&& probed_version(VersionProbe::TimedOut) is Err
            &&& probed_version(VersionProbe::NotRun(why)) is Err
            &&& probed_version(VersionProbe::NotWatched(why)) is Err
        }),
{
}

/// A pre-release belongs to its version: a minus and letters, digits or further minuses behind
/// the three numbers.
pub proof fn a_pre_release_belongs_to_its_version(
    major: Seq<char>,
    minor: Seq<char>,
    patch: Seq<char>,
    pre: Seq<char>,
    after: Seq<char>,
)
    requires
        is_number(major) && is_number(minor) && is_number(patch),
        pre.len() > 0,
        forall|i: int|
            0 <= i < pre.len() ==> text::is_digit(#[trigger] pre[i]) || 'a' <= pre[i] <= 'z' || 'A'
                <= pre[i] <= 'Z' || pre[i] == '-',
        after.len() == 0 || after[0] == ' ' || after[0] == '\n' || after[0] == '\r',
    ensures
        ({
            let version = major + seq!['.'] + minor + seq!['.'] + patch + seq!['-'] + pre;
            version_end(version + after, 0) == Some(version.len() as int) && ends_whole(
                version + after,
                version.len() as int,
            )
        }),
{
    let numbers = major + seq!['.'] + minor + seq!['.'] + patch;
    let version = numbers + seq!['-'] + pre;
    let s = version + after;
    let a = major.len() as int;
    let b = a + 1 + minor.len();
    let c = b + 1 + patch.len();
    assert forall|i: int| 0 <= i < a implies text::is_digit(#[trigger] s[i]) by {
        assert(s[i] == major[i]);
    }
    assert(s[a] == '.');
    lemma_digits_end(s, 0, a);
    assert forall|i: int| a + 1 <= i < b implies text::is_digit(#[trigger] s[i]) by {
        assert(s[i] == minor[i - a - 1]);
    }
    assert(s[b] == '.');
    lemma_digits_end(s, a + 1, b);
    assert forall|i: int| b + 1 <= i < c implies text::is_digit(#[trigger] s[i]) by {
        assert(s[i] == patch[i - b - 1]);
    }
    assert(s[c] == '-');
    lemma_digits_end(s, b + 1, c);
    let e = version.len() as int;
    assert forall|i: int| c + 1 <= i < e implies is_ident_char(#[trigger] s[i]) by {
        assert(s[i] == pre[i - c - 1]);
    }
    if e < s.len() {
        assert(s[e] == after[0]);
    }
    lemma_ident_end(s, c + 1, e);
    assert(idents_end(s, c + 1) == Some(e));
}

proof fn lemma_ident_end(s: Seq<char>, from: int, end: int)
    requires
        0 <= from <= end <= s.len(),
        forall|i: int| from <= i < end ==> is_ident_char(#[trigger] s[i]),
        end < s.len() ==> !is_ident_char(s[end]),
    ensures
        ident_end(s, from) == end,
    decreases end - from,
{
    if from < end {
        assert(is_ident_char(s[from]));
        lemma_ident_end(s, from + 1, end);
    }
}

} // verus!
