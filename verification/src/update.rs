//! Whether a newer release of the launcher itself is out.
//!
//! A release is looked up once and the outcome is kept; a second request waits for the
//! first, and only a forced one looks again.

use vstd::prelude::*;

use crate::adapters;
use crate::adapters::{semver_canonical, semver_newer};
use crate::text;
use crate::text::{after_prefix, chars_of, first_chars, split_at_char, string_of, trimmed};

verus! {

/// Where a release page leads when the release names none that may be opened.
pub const RELEASES_PAGE_URL: &'static str = "https://github.com/jockiller/dsh-desktop/releases";

/// Only pages of this project's releases are opened.
pub const ALLOWED_URL_PREFIX: &'static str = "https://github.com/jockiller/dsh-desktop/releases";

pub const RELEASE_API_URL: &'static str =
    "https://api.github.com/repos/jockiller/dsh-desktop/releases/latest";

/// How many seconds a request may take, and how many another caller waits for it.
pub const FETCH_TIMEOUT_SECS: u64 = 12;

pub const WAIT_TIMEOUT_SECS: u64 = 20;

/// The most characters of a release's notes that are shown.
pub const NOTES_LIMIT: usize = 4000;

#[derive(Debug, PartialEq, Eq)]
pub struct ReleaseUpdate {
    /// The version of the latest release, without its `v`.
    pub latest_version: Option<String>,
    /// The page of the release, which may be opened.
    pub release_url: Option<String>,
    pub update_available: bool,
    /// The notes of the release.
    pub notes: Option<String>,
}

impl Clone for ReleaseUpdate {
    fn clone(&self) -> (r: Self)
        ensures
            r == *self,
    {
        ReleaseUpdate {
            latest_version: clone_text(&self.latest_version),
            release_url: clone_text(&self.release_url),
            update_available: self.update_available,
            notes: clone_text(&self.notes),
        }
    }
}

pub fn clone_text(t: &Option<String>) -> (r: Option<String>)
    ensures
        r == *t,
{
    match t {
        Some(t) => Some(t.clone()),
        None => None,
    }
}

/// The fields of a release that are read.
#[derive(Debug)]
pub struct ReleasePayload {
    pub tag_name: Option<String>,
    pub html_url: Option<String>,
    pub body: Option<String>,
}

/// The notes of a release, unless they are blank.
pub open spec fn notes_of(body: Option<Seq<char>>) -> Option<Seq<char>> {
    match body {
        Some(b) => if text::trim(b).len() > 0 {
            Some(text::trim(b))
        } else {
            None
        },
        None => None,
    }
}

/// The tag, the page and the notes of a release that could be read and names its tag.
pub fn parse_release_json(release: Option<ReleasePayload>) -> (r: Option<
    (String, String, Option<String>),
>)
    ensures
        match r {
            Some(t) => release matches Some(p) && p.tag_name is Some && t.0@ == text::trim(
                p.tag_name->0@,
            ) && t.1@ == (match p.html_url {
                Some(u) => u@,
                None => Seq::<char>::empty(),
            }) && text::opt_text(t.2) == notes_of(text::opt_text(p.body)),
            None => release is None || release->0.tag_name is None,
        },
{
    let release = match release {
        Some(release) => release,
        None => return None,
    };
    let tag = match release.tag_name {
        Some(tag) => tag,
        None => return None,
    };
    let tag_name = string_of(trimmed(chars_of(tag.as_str()).as_slice()));
    let body = match release.body {
        Some(body) => {
            let all = chars_of(body.as_str());
            let kept = trimmed(all.as_slice());
            if kept.len() > 0 {
                Some(string_of(kept))
            } else {
                None
            }
        },
        None => None,
    };
    let page = match release.html_url {
        Some(page) => page,
        None => String::new(),
    };
    Some((tag_name, page, body))
}

/// The version that a tag names: the tag without a leading `v`.
pub open spec fn tag_version(tag: Seq<char>) -> Option<Seq<char>> {
    let t = text::trim(tag);
    let v = if t.len() > 0 && (t[0] == 'v' || t[0] == 'V') {
        t.skip(1)
    } else {
        t
    };
    if v.len() > 0 {
        Some(v)
    } else {
        None
    }
}

pub fn normalize_tag(tag: &str) -> (r: Option<String>)
    ensures
        text::opt_text(r) == tag_version(tag@),
{
    let all = chars_of(tag);
    let t = trimmed(all.as_slice());
    let v = if t.len() > 0 && (t[0] == 'v' || t[0] == 'V') {
        vstd::slice::slice_subrange(t, 1, t.len())
    } else {
        t
    };
    assert(t@.len() > 0 ==> t@.subrange(1, t@.len() as int) == t@.skip(1));
    if v.len() > 0 {
        Some(string_of(v))
    } else {
        None
    }
}

/// The version of the latest release, where both its tag and the running version can be
/// read.
pub open spec fn comparable(tag: Seq<char>, current: Seq<char>) -> bool {
    tag_version(tag) is Some && adapters::semver_text(tag_version(tag)->0)
        && adapters::semver_text(text::trim(current))
}

/// The page that is offered for a release.
pub open spec fn offered_page(html_url: Seq<char>) -> Seq<char> {
    if allowed_release_url(html_url) {
        text::trim(html_url)
    } else {
        "https://github.com/jockiller/dsh-desktop/releases"@
    }
}

pub fn evaluate_release(tag_name: &str, html_url: &str, body: Option<&str>, current: &str) -> (r:
    ReleaseUpdate)
    ensures
        if comparable(tag_name@, current@) {
            &&& text::opt_text(r.latest_version) == tag_version(tag_name@)
            &&& text::opt_text(r.release_url) == Some(offered_page(html_url@))
            &&& r.update_available == adapters::semver_greater(
                tag_version(tag_name@)->0,
                text::trim(current@),
            )
            &&& text::opt_text(r.notes) == (match body {
                Some(b) => Some(text::shortened(b@, 4000)),
                None => None,
            })
        } else {
            r.latest_version is None && r.release_url is None && !r.update_available
                && r.notes is None
        },
        tag_version(tag_name@) == Some(text::trim(current@)) ==> !r.update_available,
        r.update_available ==> !adapters::semver_greater(
            text::trim(current@),
            tag_version(tag_name@)->0,
        ),
{
    let nothing = ReleaseUpdate {
        latest_version: None,
        release_url: None,
        update_available: false,
        notes: None,
    };
    let tag = match normalize_tag(tag_name) {
        Some(tag) => tag,
        None => return nothing,
    };
    let latest = match semver_canonical(tag.as_str()) {
        Ok(latest) => latest,
        Err(_) => return nothing,
    };
    let now = string_of(trimmed(chars_of(current).as_slice()));
    let running = match semver_canonical(now.as_str()) {
        Ok(running) => running,
        Err(_) => return nothing,
    };
    let release_url = if validate_release_url(html_url) {
        string_of(trimmed(chars_of(html_url).as_slice()))
    } else {
        RELEASES_PAGE_URL.to_string()
    };
    let update_available = semver_newer(latest.as_str(), running.as_str());
    let notes = match body {
        Some(body) => Some(string_of(first_chars(chars_of(body).as_slice(), NOTES_LIMIT))),
        None => None,
    };
    ReleaseUpdate {
        latest_version: Some(latest),
        release_url: Some(release_url),
        update_available,
        notes,
    }
}

/// A byte that the path of an allowed page may not hold: escapes, quotes, white space,
/// control characters and everything that is not ASCII.
pub open spec fn forbidden_byte(b: int) -> bool {
    ||| b == '%' as int
    ||| b == '\\' as int
    ||| b == '"' as int
    ||| b == '\'' as int
    ||| b == '<' as int
    ||| b == '>' as int
    ||| b == '{' as int
    ||| b == '}' as int
    ||| b == '|' as int
    ||| b == '^' as int
    ||| b == '`' as int
    ||| b < 0x21
    ||| b > 0x7e
}

pub fn is_forbidden_url_byte(byte: u8) -> (r: bool)
    ensures
        r == forbidden_byte(byte as int),
{
    byte == 0x25 || byte == 0x5c || byte == 0x22 || byte == 0x27 || byte == 0x3c || byte == 0x3e
        || byte == 0x7b || byte == 0x7d || byte == 0x7c || byte == 0x5e || byte == 0x60 || byte
        < 0x21 || byte > 0x7e
}

/// A page of this project's releases: the release list or a path below it, in plain ASCII
/// and without a step up.
pub open spec fn allowed_release_url(url: Seq<char>) -> bool {
    let u = text::trim(url);
    let rest = text::strip_prefix(u, "https://github.com/jockiller/dsh-desktop/releases"@);
    &&& u.len() <= 500
    &&& rest is Some
    &&& rest->0.len() == 0 || rest->0[0] == '/'
    &&& forall|i: int| 0 <= i < rest->0.len() ==> !forbidden_byte(#[trigger] rest->0[i] as int)
    &&& !text::split(rest->0, '/').contains(seq!['.', '.'])
}

#[verifier::loop_isolation(false)]
pub fn validate_release_url(url: &str) -> (r: bool)
    ensures
        r == allowed_release_url(url@),
{
    let all = chars_of(url);
    let u = trimmed(all.as_slice());
    if u.len() > 500 {
        return false;
    }
    let rest = match after_prefix(u, ALLOWED_URL_PREFIX) {
        Some(rest) => rest,
        None => return false,
    };
    if rest.len() > 0 && rest[0] != '/' {
        return false;
    }
    let mut i: usize = 0;
    while i < rest.len()
        invariant
            i <= rest.len(),
            forall|j: int| 0 <= j < i ==> !forbidden_byte(#[trigger] rest@[j] as int),
        decreases rest.len() - i,
    {
        let c: char = rest[i];
        if c < '!' || c > '~' {
            assert(forbidden_byte(rest@[i as int] as int));
            return false;
        }
        if is_forbidden_url_byte(c as u8) {
            assert(forbidden_byte(rest@[i as int] as int));
            return false;
        }
        i += 1;
    }
    let segments = split_at_char(rest, '/');
    let ghost all_segments = text::split(rest@, '/');
    let mut k: usize = 0;
    while k < segments.len()
        invariant
            k <= segments.len(),
            text::pieces(segments@) == all_segments,
            forall|j: int| 0 <= j < k ==> all_segments[j] != seq!['.', '.'],
        decreases segments.len() - k,
    {
        assert(all_segments[k as int] == segments@[k as int]@);
        if segments[k].len() == 2 && segments[k][0] == '.' && segments[k][1] == '.' {
            assert(all_segments[k as int] =~= seq!['.', '.']);
            assert(all_segments.contains(seq!['.', '.']));
            return false;
        }
        assert(all_segments[k as int] != seq!['.', '.']) by {
            if all_segments[k as int] == seq!['.', '.'] {
                assert(segments@[k as int]@[0] == '.' && segments@[k as int]@[1] == '.');
            }
        }
        k += 1;
    }
    assert(!all_segments.contains(seq!['.', '.']));
    true
}

/// Whatever a release names, the page that is offered is one that may be opened.
pub proof fn offered_page_may_be_opened(html_url: Seq<char>)
    ensures
        allowed_release_url(offered_page(html_url)),
{
    if allowed_release_url(html_url) {
        text::lemma_trim_twice(html_url);
    } else {
        let page = "https://github.com/jockiller/dsh-desktop/releases"@;
        reveal_strlit("https://github.com/jockiller/dsh-desktop/releases");
        text::lemma_trimmed(page);
        assert(page.take(page.len() as int) == page);
        let rest = page.skip(page.len() as int);
        assert(rest == Seq::<char>::empty());
        text::lemma_find(rest, '/');
        let parts = text::split(rest, '/');
        assert(parts == seq![rest]);
        if parts.contains(seq!['.', '.']) {
            let k = choose|k: int| 0 <= k < parts.len() && parts[k] == seq!['.', '.'];
            assert(parts[k].len() == 0);
            assert(seq!['.', '.'].len() == 2);
        }
    }
}

// ---------------------------------------------------------------------------
// One lookup at a time
// ---------------------------------------------------------------------------

/// How far the lookup of the latest release has come in this process.
#[derive(Debug)]
pub enum CheckPhase {
    Pending,
    InFlight,
    Done(Option<ReleaseUpdate>),
}

/// What a caller that wants to know of an update does next.
#[derive(Debug)]
pub enum CheckStep {
    /// Another caller is asking: wait for its outcome.
    Wait,
    /// The outcome is known.
    Return(Option<ReleaseUpdate>),
    /// Ask, and report the outcome.
    Fetch,
}

impl CheckPhase {
    pub fn release_update_blocking(&mut self, force: bool) -> (r: CheckStep)
        ensures
            match *old(self) {
                CheckPhase::InFlight => r is Wait && *final(self) is InFlight,
                CheckPhase::Done(cached) => if force {
                    r is Fetch && *final(self) is InFlight
                } else {
                    r == CheckStep::Return(cached) && *final(self) == *old(self)
                },
                CheckPhase::Pending => r is Fetch && *final(self) is InFlight,
            },
    {
        match self {
            CheckPhase::InFlight => return CheckStep::Wait,
            CheckPhase::Done(cached) => {
                if !force {
                    return CheckStep::Return(clone_update(cached));
                }
            },
            CheckPhase::Pending => {},
        }
        *self = CheckPhase::InFlight;
        CheckStep::Fetch
    }

    /// Keeps the outcome of the lookup for this and every later caller.
    pub fn finish(&mut self, outcome: Option<ReleaseUpdate>) -> (r: Option<ReleaseUpdate>)
        ensures
            r == outcome,
            *final(self) == CheckPhase::Done(outcome),
    {
        let kept = clone_update(&outcome);
        *self = CheckPhase::Done(kept);
        outcome
    }

    /// What a caller that waited is told: the outcome, once it is there; nothing, if it
    /// waited in vain.
    pub fn waited(&self, timed_out: bool) -> (r: CheckStep)
        ensures
            r == (match *self {
                CheckPhase::Done(cached) => CheckStep::Return(cached),
                CheckPhase::Pending => CheckStep::Return(None),
                CheckPhase::InFlight => if timed_out {
                    CheckStep::Return(None)
                } else {
                    CheckStep::Wait
                },
            }),
    {
        match self {
            CheckPhase::Done(cached) => CheckStep::Return(clone_update(cached)),
            CheckPhase::Pending => CheckStep::Return(None),
            CheckPhase::InFlight => if timed_out {
                CheckStep::Return(None)
            } else {
                CheckStep::Wait
            },
        }
    }
}

pub fn clone_update(u: &Option<ReleaseUpdate>) -> (r: Option<ReleaseUpdate>)
    ensures
        r == *u,
{
    match u {
        Some(u) => Some(u.clone()),
        None => None,
    }
}

// ---------------------------------------------------------------------------
// What a release says
// ---------------------------------------------------------------------------

/// A tag names the version behind its `v`, if it has one; a tag that is empty, or nothing but
/// a `v`, names none.
pub proof fn a_tag_names_the_version_behind_its_v(version: Seq<char>)
    requires
        version.len() > 0,
        version[0] != 'v' && version[0] != 'V',
        !text::is_space(version[0]) && !text::is_space(version.last()),
    ensures
        tag_version(version) == Some(version),
        tag_version(seq!['v'] + version) == Some(version),
        tag_version(seq!['V'] + version) == Some(version),
        tag_version(Seq::empty()) is None,
        tag_version(seq!['v']) is None,
{
    text::lemma_trimmed(version);
    let small = seq!['v'] + version;
    let large = seq!['V'] + version;
    assert(small[0] == 'v' && small.last() == version.last());
    assert(large[0] == 'V' && large.last() == version.last());
    text::lemma_trimmed(small);
    text::lemma_trimmed(large);
    assert(small.skip(1) =~= version);
    assert(large.skip(1) =~= version);
    text::lemma_trimmed(seq!['v']);
    text::lemma_trim_start(Seq::empty());
    text::lemma_trim_end(Seq::empty());
}

/// Two versions are compared only if both can be read.
pub proof fn only_versions_are_compared(version: Seq<char>, current: Seq<char>)
    requires
        version.len() > 0,
        version[0] != 'v' && version[0] != 'V',
        !text::is_space(version[0]) && !text::is_space(version.last()),
    ensures
        comparable(seq!['v'] + version, current) <==> adapters::semver_text(version)
            && adapters::semver_text(text::trim(current)),
{
    a_tag_names_the_version_behind_its_v(version);
}

/// The notes of a release are its text without the white space around it; a blank text is
/// none.
pub proof fn blank_notes_are_none(body: Seq<char>)
    ensures
        notes_of(None) is None,
        text::trim(body).len() == 0 ==> notes_of(Some(body)) is None,
        text::trim(body).len() > 0 ==> notes_of(Some(body)) == Some(text::trim(body)),
{
}

/// A page below the project's releases may be opened if its path is in plain characters and
/// has no step up.
pub proof fn a_page_of_the_releases_may_be_opened(rest: Seq<char>)
    requires
        rest.len() > 0,
        rest[0] == '/',
        rest.len() <= 400,
        forall|i: int|
            0 <= i < rest.len() ==> 'a' <= #[trigger] rest[i] <= 'z' || 'A' <= rest[i] <= 'Z'
                || '0' <= rest[i] <= '9' || rest[i] == '/' || rest[i] == '-' || rest[i] == '_'
                || rest[i] == '.',
        !text::split(rest, '/').contains(seq!['.', '.']),
    ensures
        allowed_release_url("https://github.com/jockiller/dsh-desktop/releases"@ + rest),
        allowed_release_url("https://github.com/jockiller/dsh-desktop/releases"@),
        offered_page("https://github.com/jockiller/dsh-desktop/releases"@ + rest)
            == "https://github.com/jockiller/dsh-desktop/releases"@ + rest,
{
    let base = "https://github.com/jockiller/dsh-desktop/releases"@;
    reveal_strlit("https://github.com/jockiller/dsh-desktop/releases");
    let url = base + rest;
    let n = base.len() as int;
    assert(url[0] == 'h');
    assert(url.last() == rest.last());
    assert(!text::is_space(rest[rest.len() - 1]));
    text::lemma_trimmed(url);
    assert(url.take(n) =~= base);
    assert(url.skip(n) =~= rest);
    text::lemma_trimmed(base);
    assert(base.take(n) =~= base);
    assert(base.skip(n) =~= Seq::<char>::empty());
    text::lemma_split_last(Seq::<char>::empty(), '/');
    assert(text::split(Seq::<char>::empty(), '/')[0].len() == 0);
}

/// A page elsewhere is never opened, nor one whose path holds an escape, a quote, white space,
/// a backslash or a step up, nor one on a host that only begins like the right one; the
/// project's releases are offered instead.
pub proof fn a_page_elsewhere_is_not_opened(url: Seq<char>, rest: Seq<char>, i: int)
    requires
        url.len() > 0,
        !text::is_space(url[0]) && !text::is_space(url.last()),
    ensures
        ({
            let base = "https://github.com/jockiller/dsh-desktop/releases"@;
            &&& !text::starts_with(url, base) ==> !allowed_release_url(url)
            &&& url.len() > 500 ==> !allowed_release_url(url)
            &&& url == base + rest && rest.len() > 0 && rest[0] != '/' ==> !allowed_release_url(url)
            &&& url == base + rest && 0 <= i < rest.len() && (rest[i] == '%' || rest[i] == '\\'
                || rest[i] == '"' || rest[i] == '\'' || rest[i] == '<' || rest[i] == '>' || rest[i]
                == '{' || rest[i] == '}' || rest[i] == '|' || rest[i] == '^' || rest[i] == '`'
                || rest[i] <= ' ' || rest[i] > '~') ==> !allowed_release_url(url)
            &&& url == base + rest && text::split(rest, '/').contains(seq!['.', '.'])
                ==> !allowed_release_url(url)
            &&& !allowed_release_url(url) ==> offered_page(url) == base
        }),
{
    let base = "https://github.com/jockiller/dsh-desktop/releases"@;
    text::lemma_trimmed(url);
    if url == base + rest {
        assert(url.take(base.len() as int) =~= base);
        assert(url.skip(base.len() as int) =~= rest);
        if 0 <= i < rest.len() && forbidden_byte(rest[i] as int) {
            assert(!allowed_release_url(url));
        }
    }
}

} // verus!
