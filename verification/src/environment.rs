//! The environment of the processes that are started: variables as bytes, search paths,
//! and what the user's login shell adds.

use vstd::prelude::*;
use vstd::slice::slice_subrange;

use crate::adapters;
use crate::adapters::lossy_text;
use crate::config::PlatformTarget;
use crate::text;
use crate::text::{chars_of, equal, lines_of, lower_case, same, string_of, trimmed};

verus! {

// ---------------------------------------------------------------------------
// Bytes
// ---------------------------------------------------------------------------

pub fn same_bytes(a: &[u8], b: &[u8]) -> (r: bool)
    ensures
        r == (a@ == b@),
{
    if a.len() != b.len() {
        return false;
    }
    let mut i: usize = 0;
    while i < a.len()
        invariant
            i <= a.len(),
            a.len() == b.len(),
            forall|j: int| 0 <= j < i ==> a@[j] == b@[j],
        decreases a.len() - i,
    {
        if a[i] != b[i] {
            assert(a@[i as int] != b@[i as int]);
            return false;
        }
        i += 1;
    }
    assert(a@ =~= b@);
    true
}

pub fn copied_bytes(s: &[u8]) -> (r: Vec<u8>)
    ensures
        r@ == s@,
{
    let mut out: Vec<u8> = Vec::new();
    let mut i: usize = 0;
    while i < s.len()
        invariant
            i <= s.len(),
            out@ == s@.take(i as int),
        decreases s.len() - i,
    {
        out.push(s[i]);
        assert(s@.take(i as int + 1) == s@.take(i as int).push(s@[i as int]));
        i += 1;
    }
    assert(s@.take(s@.len() as int) == s@);
    out
}

pub fn byte_position(s: &[u8], x: u8) -> (r: usize)
    ensures
        r == text::find(s@, x),
        r <= s.len(),
{
    let mut i: usize = 0;
    while i < s.len() && s[i] != x
        invariant
            i <= s.len(),
            forall|j: int| 0 <= j < i ==> s@[j] != x,
        decreases s.len() - i,
    {
        i += 1;
    }
    proof {
        text::lemma_find_is(s@, x, i as int);
    }
    i
}

/// What a vector of byte vectors holds.
pub open spec fn chunks(v: Seq<Vec<u8>>) -> Seq<Seq<u8>> {
    v.map_values(|p: Vec<u8>| p@)
}

pub fn copied_chunks(v: &Vec<Vec<u8>>) -> (r: Vec<Vec<u8>>)
    ensures
        chunks(r@) == chunks(v@),
{
    let mut out: Vec<Vec<u8>> = Vec::new();
    let mut i: usize = 0;
    while i < v.len()
        invariant
            i <= v.len(),
            out@.len() == i,
            forall|j: int| 0 <= j < i ==> (#[trigger] out@[j])@ == v@[j]@,
        decreases v.len() - i,
    {
        out.push(copied_bytes(v[i].as_slice()));
        i += 1;
    }
    assert(chunks(out@) =~= chunks(v@));
    out
}

pub fn split_bytes(s: &[u8], x: u8) -> (r: Vec<Vec<u8>>)
    ensures
        chunks(r@) == text::split(s@, x),
{
    let mut out: Vec<Vec<u8>> = Vec::new();
    let mut from: usize = 0;
    assert(s@.skip(0) == s@);
    assert(chunks(out@) + text::split(s@, x) == text::split(s@, x));
    loop
        invariant_except_break
            from <= s.len(),
            chunks(out@) + text::split(s@.skip(from as int), x) == text::split(s@, x),
        ensures
            chunks(out@) == text::split(s@, x),
        decreases s.len() - from,
    {
        let rest = slice_subrange(s, from, s.len());
        assert(rest@ == s@.skip(from as int));
        let n: usize = byte_position(rest, x);
        let piece = copied_bytes(slice_subrange(rest, 0, n));
        let ghost before = chunks(out@);
        out.push(piece);
        assert(chunks(out@) == before.push(piece@));
        if n >= rest.len() {
            assert(piece@ == rest@);
            assert(before.push(piece@) == before + seq![rest@]);
            break;
        }
        assert(piece@ == rest@.take(n as int));
        assert(rest@.skip(n + 1) == s@.skip(from + n + 1));
        assert(before.push(piece@) + text::split(rest@.skip(n + 1), x) == before + (seq![
            rest@.take(n as int),
        ] + text::split(rest@.skip(n + 1), x)));
        from = from + n + 1;
    }
    out
}

/// The UTF-8 bytes of a string.
pub open spec fn bytes_of(s: Seq<char>) -> Seq<u8> {
    vstd::utf8::encode_utf8(s)
}

pub fn text_bytes(s: &str) -> (r: Vec<u8>)
    ensures
        r@ == bytes_of(s@),
{
    copied_bytes(s.as_bytes())
}

// ---------------------------------------------------------------------------
// Variables
// ---------------------------------------------------------------------------

/// Variables, by name and value.
pub type Vars = Vec<(Vec<u8>, Vec<u8>)>;

pub open spec fn vars_view(v: Seq<(Vec<u8>, Vec<u8>)>) -> Seq<(Seq<u8>, Seq<u8>)> {
    v.map_values(|p: (Vec<u8>, Vec<u8>)| (p.0@, p.1@))
}

/// Whether two names name the same variable: on Windows the case of letters does not
/// count.
pub open spec fn same_key(platform: PlatformTarget, a: Seq<u8>, b: Seq<u8>) -> bool {
    if platform == PlatformTarget::Windows {
        text::lowered(adapters::lossy(a)) == text::lowered(adapters::lossy(b))
    } else {
        a == b
    }
}

pub fn environment_key_eq(platform: PlatformTarget, left: &[u8], right: &[u8]) -> (r: bool)
    ensures
        r == same_key(platform, left@, right@),
{
    if matches!(platform, PlatformTarget::Windows) {
        let a = lower_case(chars_of(lossy_text(left).as_str()).as_slice());
        let b = lower_case(chars_of(lossy_text(right).as_str()).as_slice());
        same(a.as_slice(), b.as_slice())
    } else {
        same_bytes(left, right)
    }
}

/// Where a variable stands first; the number of variables where it does not.
pub open spec fn key_index(
    platform: PlatformTarget,
    vars: Seq<(Seq<u8>, Seq<u8>)>,
    key: Seq<u8>,
) -> int
    decreases vars.len(),
{
    if vars.len() == 0 || same_key(platform, vars[0].0, key) {
        0
    } else {
        1 + key_index(platform, vars.skip(1), key)
    }
}

pub proof fn lemma_key_index(
    platform: PlatformTarget,
    vars: Seq<(Seq<u8>, Seq<u8>)>,
    key: Seq<u8>,
)
    ensures
        0 <= key_index(platform, vars, key) <= vars.len(),
        key_index(platform, vars, key) < vars.len() ==> same_key(
            platform,
            vars[key_index(platform, vars, key)].0,
            key,
        ),
        forall|j: int|
            0 <= j < key_index(platform, vars, key) ==> !same_key(
                platform,
                #[trigger] vars[j].0,
                key,
            ),
    decreases vars.len(),
{
    if vars.len() > 0 && !same_key(platform, vars[0].0, key) {
        lemma_key_index(platform, vars.skip(1), key);
        assert forall|j: int| 0 <= j < key_index(platform, vars, key) implies !same_key(
            platform,
            #[trigger] vars[j].0,
            key,
        ) by {
            if j > 0 {
                assert(vars.skip(1)[j - 1] == vars[j]);
            }
        }
    }
}

fn find_key(platform: PlatformTarget, vars: &Vars, key: &[u8]) -> (r: usize)
    ensures
        r == key_index(platform, vars_view(vars@), key@),
        r <= vars.len(),
{
    let ghost all = vars_view(vars@);
    let mut i: usize = 0;
    assert(all.skip(0) == all);
    while i < vars.len()
        invariant
            i <= vars.len(),
            all == vars_view(vars@),
            key_index(platform, all, key@) == i + key_index(platform, all.skip(i as int), key@),
        decreases vars.len() - i,
    {
        assert(all.skip(i as int)[0] == all[i as int]);
        if environment_key_eq(platform, vars[i].0.as_slice(), key) {
            return i;
        }
        assert(all.skip(i as int).skip(1) == all.skip(i as int + 1));
        i += 1;
    }
    i
}

/// The value of a variable.
pub open spec fn var_value(
    platform: PlatformTarget,
    vars: Seq<(Seq<u8>, Seq<u8>)>,
    key: Seq<u8>,
) -> Option<Seq<u8>> {
    let i = key_index(platform, vars, key);
    if i < vars.len() {
        Some(vars[i].1)
    } else {
        None
    }
}

pub open spec fn opt_bytes(v: Option<Vec<u8>>) -> Option<Seq<u8>> {
    match v {
        Some(b) => Some(b@),
        None => None,
    }
}

pub fn environment_value(platform: PlatformTarget, envs: &Vars, key: &[u8]) -> (r: Option<Vec<u8>>)
    ensures
        opt_bytes(r) == var_value(platform, vars_view(envs@), key@),
{
    let i: usize = find_key(platform, envs, key);
    if i < envs.len() {
        Some(copied_bytes(envs[i].1.as_slice()))
    } else {
        None
    }
}

/// The variables with one of them set: in its place where it is there, else at the end.
pub open spec fn with_var(
    platform: PlatformTarget,
    vars: Seq<(Seq<u8>, Seq<u8>)>,
    key: Seq<u8>,
    value: Seq<u8>,
) -> Seq<(Seq<u8>, Seq<u8>)> {
    let i = key_index(platform, vars, key);
    if 0 <= i < vars.len() {
        vars.update(i, (vars[i].0, value))
    } else {
        vars.push((key, value))
    }
}

pub fn set_environment_value(
    platform: PlatformTarget,
    environment: &mut Vars,
    key: &[u8],
    value: &[u8],
)
    ensures
        vars_view(final(environment)@) == with_var(
            platform,
            vars_view(old(environment)@),
            key@,
            value@,
        ),
{
    let ghost before = vars_view(environment@);
    let i: usize = find_key(platform, environment, key);
    if i < environment.len() {
        let kept = copied_bytes(environment[i].0.as_slice());
        environment.set(i, (kept, copied_bytes(value)));
    } else {
        environment.push((copied_bytes(key), copied_bytes(value)));
    }
    assert(vars_view(environment@) =~= with_var(platform, before, key@, value@));
}

/// The variables with every one of the overlay set, in its order.
pub open spec fn merged(
    platform: PlatformTarget,
    base: Seq<(Seq<u8>, Seq<u8>)>,
    overlay: Seq<(Seq<u8>, Seq<u8>)>,
) -> Seq<(Seq<u8>, Seq<u8>)>
    decreases overlay.len(),
{
    if overlay.len() == 0 {
        base
    } else {
        let last = overlay.last();
        with_var(platform, merged(platform, base, overlay.drop_last()), last.0, last.1)
    }
}

pub fn merge_environment(platform: PlatformTarget, base: &mut Vars, overlay: &Vars)
    ensures
        vars_view(final(base)@) == merged(platform, vars_view(old(base)@), vars_view(overlay@)),
{
    let ghost before = vars_view(base@);
    let ghost all = vars_view(overlay@);
    let mut i: usize = 0;
    assert(all.take(0) == Seq::<(Seq<u8>, Seq<u8>)>::empty());
    while i < overlay.len()
        invariant
            i <= overlay.len(),
            all == vars_view(overlay@),
            vars_view(base@) == merged(platform, before, all.take(i as int)),
        decreases overlay.len() - i,
    {
        let ghost next = all.take(i as int + 1);
        assert(next.drop_last() == all.take(i as int));
        assert(next.last() == (overlay@[i as int].0@, overlay@[i as int].1@));
        set_environment_value(
            platform,
            base,
            overlay[i].0.as_slice(),
            overlay[i].1.as_slice(),
        );
        i += 1;
    }
    assert(all.take(all.len() as int) == all);
}

/// The variables that are taken over from the login shell: those of the tool chain.
pub open spec fn is_tool_key(key: Seq<char>) -> bool {
    ||| key == "PATH"@
    ||| key == "MANPATH"@
    ||| key == "PNPM_HOME"@
    ||| key == "NVM_DIR"@
    ||| key == "NVM_BIN"@
    ||| key == "NVM_PATH"@
    ||| key == "VOLTA_HOME"@
    ||| key == "VOLTA_BIN"@
    ||| key == "ASDF_DIR"@
    ||| key == "ASDF_DATA_DIR"@
    ||| key == "MISE_DATA_DIR"@
    ||| key == "FNM_DIR"@
    ||| key == "FNM_MULTISHELL_PATH"@
}

pub fn should_overlay_shell_environment_key(key: &[u8]) -> (r: bool)
    ensures
        r == is_tool_key(adapters::lossy(key@)),
{
    let k = lossy_text(key);
    let k = k.as_str();
    equal(k, "PATH") || equal(k, "MANPATH") || equal(k, "PNPM_HOME") || equal(k, "NVM_DIR")
        || equal(k, "NVM_BIN") || equal(k, "NVM_PATH") || equal(k, "VOLTA_HOME") || equal(
        k,
        "VOLTA_BIN",
    ) || equal(k, "ASDF_DIR") || equal(k, "ASDF_DATA_DIR") || equal(k, "MISE_DATA_DIR") || equal(
        k,
        "FNM_DIR",
    ) || equal(k, "FNM_MULTISHELL_PATH")
}

/// The variables of the tool chain among those given.
pub open spec fn tool_vars(vars: Seq<(Seq<u8>, Seq<u8>)>) -> Seq<(Seq<u8>, Seq<u8>)>
    decreases vars.len(),
{
    if vars.len() == 0 {
        Seq::empty()
    } else if is_tool_key(adapters::lossy(vars.last().0)) {
        tool_vars(vars.drop_last()).push(vars.last())
    } else {
        tool_vars(vars.drop_last())
    }
}

pub fn keep_tool_vars(vars: &Vars) -> (r: Vars)
    ensures
        vars_view(r@) == tool_vars(vars_view(vars@)),
{
    let ghost all = vars_view(vars@);
    let mut out: Vars = Vec::new();
    let mut i: usize = 0;
    assert(vars_view(out@) =~= tool_vars(all.take(0)));
    while i < vars.len()
        invariant
            i <= vars.len(),
            all == vars_view(vars@),
            vars_view(out@) == tool_vars(all.take(i as int)),
        decreases vars.len() - i,
    {
        let ghost next = all.take(i as int + 1);
        let ghost before = vars_view(out@);
        assert(next.drop_last() == all.take(i as int));
        assert(next.last() == (vars@[i as int].0@, vars@[i as int].1@));
        if should_overlay_shell_environment_key(vars[i].0.as_slice()) {
            out.push((copied_bytes(vars[i].0.as_slice()), copied_bytes(vars[i].1.as_slice())));
            assert(vars_view(out@) =~= before.push(next.last()));
        }
        i += 1;
    }
    assert(all.take(all.len() as int) == all);
    out
}

// ---------------------------------------------------------------------------
// What `env` prints
// ---------------------------------------------------------------------------

/// An entry without the carriage returns at its end.
pub open spec fn without_returns(e: Seq<u8>) -> Seq<u8>
    decreases e.len(),
{
    if e.len() > 0 && e.last() == 0x0d {
        without_returns(e.drop_last())
    } else {
        e
    }
}

/// The name and the value of an entry; nothing where there is no `=` or no name.
pub open spec fn entry_of(e: Seq<u8>) -> Option<(Seq<u8>, Seq<u8>)> {
    let n = text::find(e, 0x3du8);
    if 0 < n < e.len() {
        Some((e.take(n), e.skip(n + 1)))
    } else {
        None
    }
}

/// The entries among the pieces, with or without carriage returns at their ends.
pub open spec fn entries_of(pieces: Seq<Seq<u8>>, by_line: bool) -> Seq<(Seq<u8>, Seq<u8>)>
    decreases pieces.len(),
{
    if pieces.len() == 0 {
        Seq::empty()
    } else {
        let rest = entries_of(pieces.drop_last(), by_line);
        let e = if by_line {
            without_returns(pieces.last())
        } else {
            pieces.last()
        };
        match entry_of(e) {
            Some(p) => rest.push(p),
            None => rest,
        }
    }
}

/// The variables that a listing names. One that holds a zero byte is separated by those,
/// and then a value may hold newlines; any other is separated by newlines.
pub open spec fn listed_vars(raw: Seq<u8>) -> Seq<(Seq<u8>, Seq<u8>)> {
    if raw.contains(0u8) {
        entries_of(text::split(raw, 0u8), false)
    } else {
        entries_of(text::split(raw, 0x0au8), true)
    }
}

fn drop_returns(e: &[u8]) -> (r: &[u8])
    ensures
        r@ == without_returns(e@),
{
    let mut to: usize = e.len();
    assert(e@.take(to as int) == e@);
    while to > 0 && e[to - 1] == 0x0d
        invariant
            to <= e.len(),
            without_returns(e@.take(to as int)) == without_returns(e@),
        decreases to,
    {
        assert(e@.take(to as int).drop_last() == e@.take(to as int - 1));
        to -= 1;
    }
    assert(e@.subrange(0, to as int) == e@.take(to as int));
    slice_subrange(e, 0, to)
}

pub fn parse_env_output(raw: &[u8]) -> (r: Vars)
    ensures
        vars_view(r@) == listed_vars(raw@),
{
    let zero: usize = byte_position(raw, 0);
    proof {
        text::lemma_find(raw@, 0u8);
    }
    let by_line = zero >= raw.len();
    let pieces = if by_line {
        split_bytes(raw, 0x0a)
    } else {
        split_bytes(raw, 0)
    };
    let ghost all = chunks(pieces@);
    let mut out: Vars = Vec::new();
    let mut i: usize = 0;
    assert(vars_view(out@) =~= entries_of(all.take(0), by_line));
    while i < pieces.len()
        invariant
            i <= pieces.len(),
            all == chunks(pieces@),
            vars_view(out@) == entries_of(all.take(i as int), by_line),
        decreases pieces.len() - i,
    {
        let ghost next = all.take(i as int + 1);
        let ghost before = vars_view(out@);
        assert(next.drop_last() == all.take(i as int));
        assert(next.last() == pieces@[i as int]@);
        let e = if by_line {
            drop_returns(pieces[i].as_slice())
        } else {
            pieces[i].as_slice()
        };
        let n: usize = byte_position(e, 0x3d);
        if 0 < n && n < e.len() {
            assert(e@.take(n as int) == e@.subrange(0, n as int));
            assert(e@.skip(n + 1) == e@.subrange(n + 1, e@.len() as int));
            let key = copied_bytes(slice_subrange(e, 0, n));
            let value = copied_bytes(slice_subrange(e, n + 1, e.len()));
            out.push((key, value));
            assert(vars_view(out@) =~= before.push((e@.take(n as int), e@.skip(n + 1))));
        }
        i += 1;
    }
    assert(all.take(all.len() as int) == all);
    out
}

/// What follows the marker and the line break behind it.
pub open spec fn after_mark(raw: Seq<u8>, marker: Seq<u8>) -> Option<Seq<u8>>
    decreases raw.len(),
{
    if text::starts_with(raw, marker) {
        let rest = raw.skip(marker.len() as int);
        Some(
            if rest.len() >= 2 && rest[0] == 0x0d && rest[1] == 0x0a {
                rest.skip(2)
            } else if rest.len() >= 1 && rest[0] == 0x0a {
                rest.skip(1)
            } else {
                rest
            },
        )
    } else if raw.len() == 0 {
        None
    } else {
        after_mark(raw.skip(1), marker)
    }
}

pub fn extract_after_marker(raw: &[u8], marker: &str) -> (r: Option<Vec<u8>>)
    requires
        marker@.len() > 0,
    ensures
        opt_bytes(r) == after_mark(raw@, bytes_of(marker@)),
{
    let mark = text_bytes(marker);
    let mut i: usize = 0;
    assert(raw@.skip(0) == raw@);
    while i < raw.len()
        invariant
            i <= raw.len(),
            mark@ == bytes_of(marker@),
            after_mark(raw@, mark@) == after_mark(raw@.skip(i as int), mark@),
        decreases raw.len() - i,
    {
        let rest = slice_subrange(raw, i, raw.len());
        assert(rest@ == raw@.skip(i as int));
        if mark.len() <= rest.len() {
            assert(rest@.take(mark@.len() as int) == rest@.subrange(0, mark@.len() as int));
            if same_bytes(slice_subrange(rest, 0, mark.len()), mark.as_slice()) {
                let from: usize = mark.len();
                let tail = slice_subrange(rest, from, rest.len());
                assert(tail@ == rest@.skip(from as int));
                let skip: usize = if tail.len() >= 2 && tail[0] == 0x0d && tail[1] == 0x0a {
                    2
                } else if tail.len() >= 1 && tail[0] == 0x0a {
                    1
                } else {
                    0
                };
                assert(tail@.skip(skip as int) == tail@.subrange(
                    skip as int,
                    tail@.len() as int,
                ));
                assert(tail@.skip(0) == tail@);
                return Some(copied_bytes(slice_subrange(tail, skip, tail.len())));
            }
        }
        assert(raw@.skip(i as int).skip(1) == raw@.skip(i as int + 1));
        i += 1;
    }
    proof {
        assert(mark@.len() > 0) by {
            reveal_with_fuel(vstd::utf8::encode_utf8, 2);
        }
    }
    None
}

/// The first line that holds more than white space, without the white space around it.
pub open spec fn first_filled(lines: Seq<Seq<char>>) -> Option<Seq<char>>
    decreases lines.len(),
{
    if lines.len() == 0 {
        None
    } else if text::trim(lines[0]).len() > 0 {
        Some(text::trim(lines[0]))
    } else {
        first_filled(lines.skip(1))
    }
}

pub fn first_filled_line(output: &str) -> (r: Option<String>)
    ensures
        text::opt_text(r) == first_filled(text::lines(output@)),
{
    let lines = lines_of(chars_of(output).as_slice());
    let ghost all = text::lines(output@);
    let mut i: usize = 0;
    assert(all.skip(0) == all);
    while i < lines.len()
        invariant
            i <= lines.len(),
            text::pieces(lines@) == all,
            all == text::lines(output@),
            first_filled(all) == first_filled(all.skip(i as int)),
        decreases lines.len() - i,
    {
        assert(all.skip(i as int)[0] == lines@[i as int]@);
        let t = trimmed(lines[i].as_slice());
        if t.len() > 0 {
            return Some(string_of(t));
        }
        assert(all.skip(i as int).skip(1) == all.skip(i as int + 1));
        i += 1;
    }
    None
}

pub fn first_non_empty_line(payload: &[u8]) -> (r: Option<String>)
    ensures
        text::opt_text(r) == first_filled(text::lines(adapters::lossy(payload@))),
{
    first_filled_line(lossy_text(payload).as_str())
}

// ---------------------------------------------------------------------------
// The environment of a started service
// ---------------------------------------------------------------------------

/// The launcher's own variables, with those of the tool chain replaced by what the login
/// shell printed, where it printed anything.
pub open spec fn launch_vars(
    platform: PlatformTarget,
    base: Seq<(Seq<u8>, Seq<u8>)>,
    shell: Option<Seq<u8>>,
) -> Seq<(Seq<u8>, Seq<u8>)> {
    match shell {
        Some(printed) => merged(platform, base, tool_vars(listed_vars(printed))),
        None => base,
    }
}

pub fn launcher_environment(platform: PlatformTarget, base: Vars, shell: Option<&[u8]>) -> (r: (
    Vars,
    bool,
))
    ensures
        vars_view(r.0@) == launch_vars(
            platform,
            vars_view(base@),
            match shell {
                Some(printed) => Some(printed@),
                None => None,
            },
        ),
        r.1 == (shell is Some),
{
    let mut envs = base;
    match shell {
        Some(printed) => {
            let tools = keep_tool_vars(&parse_env_output(printed));
            merge_environment(platform, &mut envs, &tools);
            (envs, true)
        },
        None => (envs, false),
    }
}

/// A variable that the overlay does not name keeps its value and its place.
pub proof fn merging_keeps_other_variables(
    platform: PlatformTarget,
    base: Seq<(Seq<u8>, Seq<u8>)>,
    overlay: Seq<(Seq<u8>, Seq<u8>)>,
    i: int,
)
    requires
        0 <= i < base.len(),
        forall|j: int| 0 <= j < overlay.len() ==> !same_key(
            platform,
            base[i].0,
            #[trigger] overlay[j].0,
        ),
    ensures
        merged(platform, base, overlay).len() >= base.len(),
        merged(platform, base, overlay)[i] == base[i],
    decreases overlay.len(),
{
    if overlay.len() > 0 {
        let front = overlay.drop_last();
        assert forall|j: int| 0 <= j < front.len() implies !same_key(
            platform,
            base[i].0,
            #[trigger] front[j].0,
        ) by {
            assert(front[j] == overlay[j]);
        }
        merging_keeps_other_variables(platform, base, front, i);
        lemma_key_index(platform, merged(platform, base, front), overlay.last().0);
        assert(overlay.last() == overlay[overlay.len() - 1]);
    }
}

/// Merging sets the variable that was merged last.
pub proof fn merging_sets_the_last_variable(
    platform: PlatformTarget,
    base: Seq<(Seq<u8>, Seq<u8>)>,
    overlay: Seq<(Seq<u8>, Seq<u8>)>,
)
    requires
        overlay.len() > 0,
    ensures
        var_value(platform, merged(platform, base, overlay), overlay.last().0) == Some(
            overlay.last().1,
        ),
{
    let before = merged(platform, base, overlay.drop_last());
    setting_a_variable_sets_it(platform, before, overlay.last().0, overlay.last().1);
}

/// A variable that was set has its value.
pub proof fn setting_a_variable_sets_it(
    platform: PlatformTarget,
    vars: Seq<(Seq<u8>, Seq<u8>)>,
    key: Seq<u8>,
    value: Seq<u8>,
)
    ensures
        var_value(platform, with_var(platform, vars, key, value), key) == Some(value),
{
    let after = with_var(platform, vars, key, value);
    lemma_key_index(platform, vars, key);
    lemma_key_index(platform, after, key);
    let i = key_index(platform, vars, key);
    let k = key_index(platform, after, key);
    if i < vars.len() {
        assert(after[i].0 == vars[i].0);
        if k < i {
            assert(after[k] == vars[k]);
        }
        if k > i {
            assert(!same_key(platform, after[i].0, key));
        }
    } else {
        assert(after[i].0 == key);
        if k < i {
            assert(after[k] == vars[k]);
        }
        if k > i {
            assert(!same_key(platform, after[i].0, key));
        }
    }
}

/// What the login shell prints never touches a variable that is no part of the tool chain:
/// it keeps its place and its bytes, whatever they are.
pub proof fn the_login_shell_changes_tool_variables_only(
    platform: PlatformTarget,
    base: Seq<(Seq<u8>, Seq<u8>)>,
    shell: Option<Seq<u8>>,
    i: int,
)
    requires
        platform != PlatformTarget::Windows,
        0 <= i < base.len(),
        !is_tool_key(adapters::lossy(base[i].0)),
    ensures
        launch_vars(platform, base, shell).len() >= base.len(),
        launch_vars(platform, base, shell)[i] == base[i],
{
    if let Some(printed) = shell {
        let overlay = tool_vars(listed_vars(printed));
        lemma_tool_vars(listed_vars(printed));
        merging_keeps_other_variables(platform, base, overlay, i);
    }
}

proof fn lemma_tool_vars(vars: Seq<(Seq<u8>, Seq<u8>)>)
    ensures
        forall|j: int|
            0 <= j < tool_vars(vars).len() ==> is_tool_key(
                adapters::lossy(#[trigger] tool_vars(vars)[j].0),
            ),
    decreases vars.len(),
{
    if vars.len() > 0 {
        lemma_tool_vars(vars.drop_last());
        let front = tool_vars(vars.drop_last());
        assert forall|j: int| 0 <= j < tool_vars(vars).len() implies is_tool_key(
            adapters::lossy(#[trigger] tool_vars(vars)[j].0),
        ) by {
            if j < front.len() {
                assert(tool_vars(vars)[j] == front[j]);
            }
        }
    }
}

/// A variable that is set leaves every other one as it was, and adds at most itself.
pub proof fn setting_a_variable_keeps_the_others(
    platform: PlatformTarget,
    vars: Seq<(Seq<u8>, Seq<u8>)>,
    key: Seq<u8>,
    value: Seq<u8>,
    i: int,
)
    requires
        0 <= i < vars.len(),
        !same_key(platform, vars[i].0, key),
    ensures
        with_var(platform, vars, key, value)[i] == vars[i],
        vars.len() <= with_var(platform, vars, key, value).len() <= vars.len() + 1,
        with_var(platform, vars, key, value).len() == vars.len() + 1 <==> var_value(
            platform,
            vars,
            key,
        ) is None,
{
    lemma_key_index(platform, vars, key);
}

/// Of several variables with one name the last that the login shell prints counts, where the
/// name is one of the tool chain.
pub proof fn a_tool_variable_of_the_shell_is_taken_over(
    platform: PlatformTarget,
    base: Seq<(Seq<u8>, Seq<u8>)>,
    printed: Seq<u8>,
    i: int,
)
    requires
        platform != PlatformTarget::Windows,
        0 <= i < listed_vars(printed).len(),
        is_tool_key(adapters::lossy(listed_vars(printed)[i].0)),
        forall|j: int|
            i < j < listed_vars(printed).len() ==> (#[trigger] listed_vars(printed)[j]).0
                != listed_vars(printed)[i].0,
    ensures
        var_value(platform, launch_vars(platform, base, Some(printed)), listed_vars(printed)[i].0)
            == Some(listed_vars(printed)[i].1),
{
    lemma_last_of_a_name(platform, base, listed_vars(printed), i);
}

proof fn lemma_last_of_a_name(
    platform: PlatformTarget,
    base: Seq<(Seq<u8>, Seq<u8>)>,
    vars: Seq<(Seq<u8>, Seq<u8>)>,
    i: int,
)
    requires
        platform != PlatformTarget::Windows,
        0 <= i < vars.len(),
        is_tool_key(adapters::lossy(vars[i].0)),
        forall|j: int| i < j < vars.len() ==> (#[trigger] vars[j]).0 != vars[i].0,
    ensures
        var_value(platform, merged(platform, base, tool_vars(vars)), vars[i].0) == Some(vars[i].1),
    decreases vars.len(),
{
    let last = vars.last();
    let tools = tool_vars(vars);
    let front = vars.drop_last();
    if i == vars.len() - 1 {
        assert(tools.last() == last);
        merging_sets_the_last_variable(platform, base, tools);
    } else {
        assert(front[i] == vars[i]);
        assert forall|j: int| i < j < front.len() implies (#[trigger] front[j]).0 != front[i].0 by {
            assert(front[j] == vars[j]);
        }
        lemma_last_of_a_name(platform, base, front, i);
        if is_tool_key(adapters::lossy(last.0)) {
            let before = merged(platform, base, tool_vars(front));
            assert(tools.drop_last() =~= tool_vars(front));
            assert(last.0 != vars[i].0);
            lemma_other_value(platform, before, last.0, last.1, vars[i].0);
        }
    }
}

proof fn lemma_other_value(
    platform: PlatformTarget,
    vars: Seq<(Seq<u8>, Seq<u8>)>,
    key: Seq<u8>,
    value: Seq<u8>,
    other: Seq<u8>,
)
    requires
        platform != PlatformTarget::Windows,
        key != other,
    ensures
        var_value(platform, with_var(platform, vars, key, value), other) == var_value(
            platform,
            vars,
            other,
        ),
{
    let after = with_var(platform, vars, key, value);
    lemma_key_index(platform, vars, key);
    lemma_key_index(platform, vars, other);
    lemma_key_index(platform, after, other);
    let a = key_index(platform, vars, other);
    let b = key_index(platform, after, other);
    if a < b {
        if a < vars.len() {
            assert(after[a].0 == vars[a].0);
        }
    } else if b < a {
        assert(after[b].0 == vars[b].0);
    }
}

/// A variable that is not set keeps the value that it has, where names are told apart by their
/// bytes.
pub proof fn another_variable_keeps_its_value(
    platform: PlatformTarget,
    vars: Seq<(Seq<u8>, Seq<u8>)>,
    key: Seq<u8>,
    value: Seq<u8>,
    other: Seq<u8>,
)
    requires
        platform != PlatformTarget::Windows,
        key != other,
    ensures
        var_value(platform, with_var(platform, vars, key, value), other) == var_value(
            platform,
            vars,
            other,
        ),
{
    lemma_other_value(platform, vars, key, value, other);
}

/// Variables as a listing that is separated by zero bytes writes them.
pub open spec fn listing_of(vars: Seq<(Seq<u8>, Seq<u8>)>) -> Seq<u8>
    decreases vars.len(),
{
    if vars.len() == 0 {
        Seq::empty()
    } else {
        vars[0].0 + seq![0x3du8] + vars[0].1 + seq![0u8] + listing_of(vars.skip(1))
    }
}

/// Variables that can stand in such a listing.
pub open spec fn can_be_listed(vars: Seq<(Seq<u8>, Seq<u8>)>) -> bool {
    forall|i: int|
        0 <= i < vars.len() ==> (#[trigger] vars[i]).0.len() > 0 && !vars[i].0.contains(0x3du8)
            && !vars[i].0.contains(0u8) && !vars[i].1.contains(0u8)
}

/// Variables that were listed are read back, in their order and with all their bytes: a value
/// may hold line breaks and equals signs.
pub proof fn listed_variables_are_read_back(vars: Seq<(Seq<u8>, Seq<u8>)>)
    requires
        vars.len() > 0,
        can_be_listed(vars),
    ensures
        listed_vars(listing_of(vars)) == vars,
{
    let raw = listing_of(vars);
    let first = vars[0].0 + seq![0x3du8] + vars[0].1;
    assert(raw[first.len() as int] == 0u8);
    assert(raw.contains(0u8));
    lemma_listing(vars);
}

proof fn lemma_entry(name: Seq<u8>, value: Seq<u8>)
    requires
        name.len() > 0,
        !name.contains(0x3du8),
    ensures
        entry_of(name + seq![0x3du8] + value) == Some((name, value)),
{
    let e = name + seq![0x3du8] + value;
    text::lemma_find_is(e, 0x3du8, name.len() as int);
    assert(e.take(name.len() as int) =~= name);
    assert(e.skip(name.len() as int + 1) =~= value);
}

proof fn lemma_entries_front(piece: Seq<u8>, rest: Seq<Seq<u8>>)
    ensures
        entries_of(seq![piece] + rest, false) == (match entry_of(piece) {
            Some(p) => seq![p],
            None => Seq::empty(),
        }) + entries_of(rest, false),
    decreases rest.len(),
{
    let all = seq![piece] + rest;
    if rest.len() == 0 {
        assert(all.drop_last() =~= Seq::<Seq<u8>>::empty());
        assert(all.last() == piece);
        assert(entries_of(all.drop_last(), false) =~= Seq::<(Seq<u8>, Seq<u8>)>::empty());
        assert(entries_of(all, false) =~= (match entry_of(piece) {
            Some(p) => seq![p],
            None => Seq::empty(),
        }) + entries_of(rest, false));
    } else {
        lemma_entries_front(piece, rest.drop_last());
        assert(all.drop_last() =~= seq![piece] + rest.drop_last());
        assert(all.last() == rest.last());
        assert(entries_of(all, false) =~= (match entry_of(piece) {
            Some(p) => seq![p],
            None => Seq::empty(),
        }) + entries_of(rest, false));
    }
}

proof fn lemma_listing(vars: Seq<(Seq<u8>, Seq<u8>)>)
    requires
        can_be_listed(vars),
    ensures
        entries_of(text::split(listing_of(vars), 0u8), false) == vars,
    decreases vars.len(),
{
    if vars.len() == 0 {
        let none = Seq::<u8>::empty();
        crate::search_path::lemma_split_whole(none, 0u8);
        let pieces = seq![none];
        assert(pieces.drop_last() =~= Seq::<Seq<u8>>::empty());
        assert(text::find(none, 0x3du8) == 0);
        assert(pieces.last() == none);
        assert(entry_of(none) is None);
        assert(entries_of(pieces.drop_last(), false) =~= Seq::<(Seq<u8>, Seq<u8>)>::empty());
        assert(entries_of(pieces, false) =~= vars);
    } else {
        let rest = vars.skip(1);
        assert forall|i: int| 0 <= i < rest.len() implies (#[trigger] rest[i]).0.len() > 0
            && !rest[i].0.contains(0x3du8) && !rest[i].0.contains(0u8) && !rest[i].1.contains(
            0u8,
        ) by {
            assert(rest[i] == vars[i + 1]);
        }
        lemma_listing(rest);
        let piece = vars[0].0 + seq![0x3du8] + vars[0].1;
        assert(!piece.contains(0u8));
        crate::search_path::lemma_split_front(piece, 0u8, listing_of(rest));
        lemma_entry(vars[0].0, vars[0].1);
        lemma_entries_front(piece, text::split(listing_of(rest), 0u8));
        assert(seq![vars[0]] + rest =~= vars);
    }
}

/// What follows the first marker and the line break behind it is the answer, whatever stands
/// before; without the marker there is none.
pub proof fn the_answer_follows_the_marker(noise: Seq<u8>, marker: Seq<u8>, answer: Seq<u8>)
    requires
        marker.len() > 0,
        forall|i: int|
            0 <= i < noise.len() ==> !text::starts_with(
                #[trigger] (noise + marker + seq![0x0au8] + answer).skip(i),
                marker,
            ),
    ensures
        after_mark(noise + marker + seq![0x0au8] + answer, marker) == Some(answer),
    decreases noise.len(),
{
    let all = noise + marker + seq![0x0au8] + answer;
    if noise.len() == 0 {
        assert(all.take(marker.len() as int) =~= marker);
        let rest = all.skip(marker.len() as int);
        assert(rest[0] == 0x0a);
        assert(rest.skip(1) =~= answer);
    } else {
        let less = noise.skip(1);
        let shorter = less + marker + seq![0x0au8] + answer;
        assert(all.skip(0) =~= all);
        assert(all.skip(1) =~= shorter);
        assert forall|i: int| 0 <= i < less.len() implies !text::starts_with(
            #[trigger] shorter.skip(i),
            marker,
        ) by {
            assert(shorter.skip(i) =~= all.skip(i + 1));
        }
        the_answer_follows_the_marker(less, marker, answer);
    }
}

/// Without the marker there is no answer.
pub proof fn without_the_marker_there_is_no_answer(raw: Seq<u8>, marker: Seq<u8>)
    requires
        marker.len() > 0,
        after_mark(raw, marker) is Some,
    ensures
        exists|i: int| 0 <= i <= raw.len() && text::starts_with(#[trigger] raw.skip(i), marker),
    decreases raw.len(),
{
    if text::starts_with(raw, marker) {
        assert(raw.skip(0) =~= raw);
    } else {
        let rest = raw.skip(1);
        without_the_marker_there_is_no_answer(rest, marker);
        let i = choose|i: int| 0 <= i <= rest.len() && text::starts_with(
            #[trigger] rest.skip(i),
            marker,
        );
        assert(raw.skip(i + 1) =~= rest.skip(i));
    }
}

/// The first line that is not blank is taken, without the white space around it.
pub proof fn the_first_line_that_is_not_blank_is_taken(lines: Seq<Seq<char>>)
    ensures
        match first_filled(lines) {
            Some(line) => exists|i: int|
                0 <= i < lines.len() && line == text::trim(#[trigger] lines[i]) && line.len() > 0
                    && forall|j: int| 0 <= j < i ==> text::trim(#[trigger] lines[j]).len() == 0,
            None => forall|i: int|
                0 <= i < lines.len() ==> text::trim(#[trigger] lines[i]).len() == 0,
        },
    decreases lines.len(),
{
    if lines.len() > 0 && text::trim(lines[0]).len() == 0 {
        let rest = lines.skip(1);
        the_first_line_that_is_not_blank_is_taken(rest);
        match first_filled(lines) {
            Some(line) => {
                let i = choose|i: int|
                    0 <= i < rest.len() && line == text::trim(#[trigger] rest[i]) && line.len() > 0
                        && forall|j: int|
                        0 <= j < i ==> text::trim(#[trigger] rest[j]).len() == 0;
                assert(lines[i + 1] == rest[i]);
                assert forall|j: int| 0 <= j < i + 1 implies text::trim(#[trigger] lines[j]).len()
                    == 0 by {
                    if j > 0 {
                        assert(rest[j - 1] == lines[j]);
                    }
                }
            },
            None => {
                assert forall|i: int| 0 <= i < lines.len() implies text::trim(
                    #[trigger] lines[i],
                ).len() == 0 by {
                    if i > 0 {
                        assert(rest[i - 1] == lines[i]);
                    }
                }
            },
        }
    }
}

/// Only the search path and what the managers of Node and their like set is taken over from the
/// shell.
pub proof fn the_tool_variables_are_known(key: Seq<char>)
    ensures
        is_tool_key(key) <==> seq![
            "PATH"@,
            "MANPATH"@,
            "PNPM_HOME"@,
            "NVM_DIR"@,
            "NVM_BIN"@,
            "NVM_PATH"@,
            "VOLTA_HOME"@,
            "VOLTA_BIN"@,
            "ASDF_DIR"@,
            "ASDF_DATA_DIR"@,
            "MISE_DATA_DIR"@,
            "FNM_DIR"@,
            "FNM_MULTISHELL_PATH"@,
        ].contains(key),
{
    let keys = seq![
        "PATH"@,
        "MANPATH"@,
        "PNPM_HOME"@,
        "NVM_DIR"@,
        "NVM_BIN"@,
        "NVM_PATH"@,
        "VOLTA_HOME"@,
        "VOLTA_BIN"@,
        "ASDF_DIR"@,
        "ASDF_DATA_DIR"@,
        "MISE_DATA_DIR"@,
        "FNM_DIR"@,
        "FNM_MULTISHELL_PATH"@,
    ];
    assert(keys[0] == "PATH"@ && keys[1] == "MANPATH"@ && keys[2] == "PNPM_HOME"@);
    assert(keys[3] == "NVM_DIR"@ && keys[4] == "NVM_BIN"@ && keys[5] == "NVM_PATH"@);
    assert(keys[6] == "VOLTA_HOME"@ && keys[7] == "VOLTA_BIN"@ && keys[8] == "ASDF_DIR"@);
    assert(keys[9] == "ASDF_DATA_DIR"@ && keys[10] == "MISE_DATA_DIR"@ && keys[11] == "FNM_DIR"@);
    assert(keys[12] == "FNM_MULTISHELL_PATH"@);
}

/// On Windows two names that differ only in the case of their letters name one variable;
/// elsewhere every difference counts.
pub proof fn the_case_of_a_name_counts_off_windows(a: Seq<u8>, b: Seq<u8>)
    ensures
        same_key(PlatformTarget::Windows, a, b) <==> text::lowered(adapters::lossy(a))
            == text::lowered(adapters::lossy(b)),
        same_key(PlatformTarget::Unix, a, b) <==> a == b,
        same_key(PlatformTarget::MacOS, a, b) <==> a == b,
        same_key(PlatformTarget::Windows, a, a),
{
}

/// A listing without zero bytes is read line by line, without the carriage return at the end of
/// a line.
pub proof fn a_listing_is_read_line_by_line(name: Seq<u8>, value: Seq<u8>)
    requires
        name.len() > 0,
        !name.contains(0x3du8) && !name.contains(0u8) && !name.contains(0x0au8),
        !value.contains(0u8) && !value.contains(0x0au8),
        value.len() > 0,
        value.last() != 0x0d,
    ensures
        listed_vars(name + seq![0x3du8] + value) == seq![(name, value)],
        listed_vars(name + seq![0x3du8] + value + seq![0x0du8, 0x0au8]) == seq![(name, value)],
{
    let line = name + seq![0x3du8] + value;
    let returned = line.push(0x0du8);
    let raw = line + seq![0x0du8, 0x0au8];
    assert forall|i: int| 0 <= i < line.len() implies line[i] != 0u8 && line[i] != 0x0au8 by {
        if i < name.len() {
            assert(name.contains(name[i]));
        } else if i > name.len() {
            assert(value.contains(value[i - name.len() - 1]));
        }
    }
    assert(line.last() == value.last());
    lemma_entry(name, value);
    text::lemma_split_last(line, 0x0au8);
    assert(without_returns(line) == line);
    let one = seq![line];
    assert(one.last() == line);
    assert(one.drop_last() =~= Seq::<Seq<u8>>::empty());
    assert(entries_of(one.drop_last(), true) =~= Seq::<(Seq<u8>, Seq<u8>)>::empty());
    assert(entries_of(one, true) =~= seq![(name, value)]);
    assert(raw =~= returned + seq![0x0au8] + Seq::<u8>::empty());
    assert forall|i: int| 0 <= i < returned.len() implies returned[i] != 0x0au8 by {
        if i < line.len() {
            assert(returned[i] == line[i]);
        }
    }
    text::lemma_split_first(returned, 0x0au8, Seq::<u8>::empty());
    text::lemma_split_last(Seq::<u8>::empty(), 0x0au8);
    let two = seq![returned] + seq![Seq::<u8>::empty()];
    assert(two.drop_last() =~= seq![returned]);
    assert(two.last() =~= Seq::<u8>::empty());
    assert(without_returns(two.last()) == two.last());
    text::lemma_find(Seq::<u8>::empty(), 0x3du8);
    assert(entry_of(two.last()) is None);
    let first = seq![returned];
    assert(first.last() == returned);
    assert(first.drop_last() =~= Seq::<Seq<u8>>::empty());
    assert(returned.drop_last() =~= line);
    assert(without_returns(returned) == line);
    assert(entries_of(first.drop_last(), true) =~= Seq::<(Seq<u8>, Seq<u8>)>::empty());
    assert(entries_of(first, true) =~= seq![(name, value)]);
    assert(entries_of(two, true) =~= seq![(name, value)]);
    assert(!raw.contains(0u8)) by {
        if raw.contains(0u8) {
            let k = choose|k: int| 0 <= k < raw.len() && raw[k] == 0u8;
            if k < line.len() {
                assert(line[k] == 0u8);
            }
        }
    }
}

} // verus!
