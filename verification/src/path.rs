//! Paths as text, by the rules of the platform they belong to.

use vstd::prelude::*;
use vstd::slice::slice_subrange;

use crate::config::PlatformTarget;
use crate::text;
use crate::text::{chars_of, string_of};

verus! {

/// Whether `c` separates the parts of a path.
pub open spec fn is_sep(host: PlatformTarget, c: char) -> bool {
    c == '/' || (host == PlatformTarget::Windows && c == '\\')
}

pub fn char_is_sep(host: PlatformTarget, c: char) -> (r: bool)
    ensures
        r == is_sep(host, c),
{
    c == '/' || (c == '\\' && matches!(host, PlatformTarget::Windows))
}

/// The separator that is put between two parts.
pub open spec fn separator(host: PlatformTarget) -> char {
    if host == PlatformTarget::Windows {
        '\\'
    } else {
        '/'
    }
}

/// A Windows path that starts with a drive letter and a colon.
pub open spec fn has_drive(p: Seq<char>) -> bool {
    p.len() >= 2 && p[1] == ':' && ('a' <= p[0] <= 'z' || 'A' <= p[0] <= 'Z')
}

pub open spec fn starts_at_root(host: PlatformTarget, p: Seq<char>) -> bool {
    p.len() > 0 && is_sep(host, p[0])
}

/// A Windows path that starts with two separators names a share.
pub open spec fn names_share(host: PlatformTarget, p: Seq<char>) -> bool {
    host == PlatformTarget::Windows && p.len() >= 2 && is_sep(host, p[0]) && is_sep(host, p[1])
}

/// The first position of a separator at or after `from`; the length of `p` where there
/// is none.
pub open spec fn find_sep(host: PlatformTarget, p: Seq<char>, from: int) -> int
    decreases p.len() - from,
{
    if from < 0 || from >= p.len() {
        p.len() as int
    } else if is_sep(host, p[from]) {
        from
    } else {
        find_sep(host, p, from + 1)
    }
}

pub fn sep_position(host: PlatformTarget, p: &[char], from: usize) -> (r: usize)
    requires
        from <= p.len(),
    ensures
        r == find_sep(host, p@, from as int),
        from <= r <= p.len(),
{
    let mut i: usize = from;
    while i < p.len() && !char_is_sep(host, p[i])
        invariant
            from <= i <= p.len(),
            find_sep(host, p@, i as int) == find_sep(host, p@, from as int),
        decreases p.len() - i,
    {
        i += 1;
    }
    i
}

/// How many characters at the start of a path name its drive or share.
pub open spec fn volume_len(host: PlatformTarget, p: Seq<char>) -> int {
    if host != PlatformTarget::Windows {
        0
    } else if has_drive(p) {
        2
    } else if names_share(host, p) {
        let server = find_sep(host, p, 2);
        if server < p.len() {
            find_sep(host, p, server + 1)
        } else {
            server
        }
    } else {
        0
    }
}

pub fn volume_length(host: PlatformTarget, p: &[char]) -> (r: usize)
    ensures
        r == volume_len(host, p@),
        r <= p.len(),
{
    if !matches!(host, PlatformTarget::Windows) {
        return 0;
    }
    if p.len() >= 2 && p[1] == ':' && (('a' <= p[0] && p[0] <= 'z') || ('A' <= p[0] && p[0]
        <= 'Z')) {
        return 2;
    }
    if p.len() >= 2 && char_is_sep(host, p[0]) && char_is_sep(host, p[1]) {
        let server: usize = sep_position(host, p, 2);
        if server < p.len() {
            return sep_position(host, p, server + 1);
        }
        return server;
    }
    0
}

/// The path `name` taken from the directory `base`. A name that starts at a root or on
/// a volume of its own does not depend on `base`, but for the volume that a Windows
/// name without one inherits.
pub open spec fn join(host: PlatformTarget, base: Seq<char>, name: Seq<char>) -> Seq<char> {
    if volume_len(host, name) > 0 {
        name
    } else if starts_at_root(host, name) {
        base.take(volume_len(host, base)) + name
    } else if base.len() == 0 || is_sep(host, base.last()) || (base.len() == 2 && volume_len(
        host,
        base,
    ) == 2) {
        base + name
    } else {
        base.push(separator(host)) + name
    }
}

pub fn child(host: PlatformTarget, base: &str, name: &str) -> (r: String)
    ensures
        r@ == join(host, base@, name@),
{
    let b = chars_of(base);
    let n = chars_of(name);
    if volume_length(host, n.as_slice()) > 0 {
        return string_of(n.as_slice());
    }
    if n.len() > 0 && char_is_sep(host, n[0]) {
        let v: usize = volume_length(host, b.as_slice());
        assert(b@.take(v as int) == b@.subrange(0, v as int));
        return string_of(slice_subrange(b.as_slice(), 0, v)).concat(name);
    }
    let mut out = string_of(b.as_slice());
    if !(b.len() == 0 || char_is_sep(host, b[b.len() - 1]) || (b.len() == 2 && volume_length(
        host,
        b.as_slice(),
    ) == 2)) {
        out.push(
            if matches!(host, PlatformTarget::Windows) {
                '\\'
            } else {
                '/'
            },
        );
    }
    out.append(name);
    out
}

/// How many characters of `p` are left when the separators at its end, but for a root,
/// and the parts that only say "here" are dropped.
pub open spec fn trimmed_len(host: PlatformTarget, p: Seq<char>, to: int) -> int
    decreases to,
{
    let v = volume_len(host, p);
    if to <= 0 || to <= v || to > p.len() {
        to
    } else if is_sep(host, p[to - 1]) {
        if to == v + 1 {
            to
        } else {
            trimmed_len(host, p, to - 1)
        }
    } else if to >= v + 2 && p[to - 1] == '.' && is_sep(host, p[to - 2]) {
        trimmed_len(host, p, to - 1)
    } else {
        to
    }
}

pub fn trimmed_length(host: PlatformTarget, p: &[char], to: usize) -> (r: usize)
    requires
        to <= p.len(),
    ensures
        r == trimmed_len(host, p@, to as int),
        r <= to,
{
    let v: usize = volume_length(host, p);
    let mut n: usize = to;
    loop
        invariant
            n <= to <= p.len(),
            v == volume_len(host, p@),
            trimmed_len(host, p@, n as int) == trimmed_len(host, p@, to as int),
        ensures
            n == trimmed_len(host, p@, to as int),
            n <= to,
        decreases n,
    {
        if n <= v {
            break;
        }
        if char_is_sep(host, p[n - 1]) {
            if n == v + 1 {
                break;
            }
            n -= 1;
        } else if n >= 2 && n - 2 >= v && p[n - 1] == '.' && char_is_sep(host, p[n - 2]) {
            n -= 1;
        } else {
            break;
        }
    }
    n
}

/// Where the last part of `p`, read up to `to`, starts.
pub open spec fn last_start(host: PlatformTarget, p: Seq<char>, to: int) -> int
    decreases to,
{
    if to <= 0 || to <= volume_len(host, p) || to > p.len() || is_sep(host, p[to - 1]) {
        to
    } else {
        last_start(host, p, to - 1)
    }
}

pub fn last_part_start(host: PlatformTarget, p: &[char], to: usize) -> (r: usize)
    requires
        to <= p.len(),
    ensures
        r == last_start(host, p@, to as int),
        r <= to,
{
    let v: usize = volume_length(host, p);
    let mut n: usize = to;
    while n > v && !char_is_sep(host, p[n - 1])
        invariant
            n <= to <= p.len(),
            v == volume_len(host, p@),
            last_start(host, p@, n as int) == last_start(host, p@, to as int),
        decreases n,
    {
        n -= 1;
    }
    n
}

/// The last part of a path, unless that is the root, the volume or the parent.
pub open spec fn file_name(host: PlatformTarget, p: Seq<char>) -> Option<Seq<char>> {
    let to = trimmed_len(host, p, p.len() as int);
    let from = last_start(host, p, to);
    if from >= to {
        None
    } else {
        let name = p.subrange(from, to);
        if name == seq!['.', '.'] || name == seq!['.'] {
            None
        } else {
            Some(name)
        }
    }
}

pub fn name_of(host: PlatformTarget, path: &str) -> (r: Option<String>)
    ensures
        text::opt_text(r) == file_name(host, path@),
{
    let p = chars_of(path);
    let to: usize = trimmed_length(host, p.as_slice(), p.len());
    let from: usize = last_part_start(host, p.as_slice(), to);
    if from >= to {
        return None;
    }
    let name = slice_subrange(p.as_slice(), from, to);
    assert(name@ == p@.subrange(from as int, to as int));
    if name.len() == 1 && name[0] == '.' {
        assert(name@ == seq!['.']);
        return None;
    }
    if name.len() == 2 && name[0] == '.' && name[1] == '.' {
        assert(name@ == seq!['.', '.']);
        return None;
    }
    assert(name@ != seq!['.', '.'] && name@ != seq!['.']);
    Some(string_of(name))
}

/// The directory that holds a path; nothing for a root, a bare volume or an empty path.
pub open spec fn parent(host: PlatformTarget, p: Seq<char>) -> Option<Seq<char>> {
    let to = trimmed_len(host, p, p.len() as int);
    let from = last_start(host, p, to);
    if from >= to {
        None
    } else {
        Some(p.take(trimmed_len(host, p, from)))
    }
}

pub fn parent_of(host: PlatformTarget, path: &str) -> (r: Option<String>)
    ensures
        text::opt_text(r) == parent(host, path@),
{
    let p = chars_of(path);
    let to: usize = trimmed_length(host, p.as_slice(), p.len());
    let from: usize = last_part_start(host, p.as_slice(), to);
    if from >= to {
        return None;
    }
    let end: usize = trimmed_length(host, p.as_slice(), from);
    assert(p@.take(end as int) == p@.subrange(0, end as int));
    Some(string_of(slice_subrange(p.as_slice(), 0, end)))
}

/// Whether a path names one place whatever the current directory is.
pub open spec fn is_absolute(host: PlatformTarget, p: Seq<char>) -> bool {
    if host == PlatformTarget::Windows {
        volume_len(host, p) > 0 && (names_share(host, p) || (p.len() > 2 && is_sep(host, p[2])))
    } else {
        starts_at_root(host, p)
    }
}

pub fn absolute(host: PlatformTarget, path: &str) -> (r: bool)
    ensures
        r == is_absolute(host, path@),
{
    let p = chars_of(path);
    if matches!(host, PlatformTarget::Windows) {
        volume_length(host, p.as_slice()) > 0 && ((p.len() >= 2 && char_is_sep(host, p[0])
            && char_is_sep(host, p[1])) || (p.len() > 2 && char_is_sep(host, p[2])))
    } else {
        p.len() > 0 && char_is_sep(host, p[0])
    }
}

/// A relative name stays below the directory it is joined to.
pub proof fn join_keeps_the_directory(host: PlatformTarget, base: Seq<char>, name: Seq<char>)
    requires
        volume_len(host, name) == 0,
        !starts_at_root(host, name),
    ensures
        text::starts_with(join(host, base, name), base),
        text::ends_with(join(host, base, name), name),
{
    let j = join(host, base, name);
    assert(j.take(base.len() as int) =~= base);
    assert(j.skip(j.len() - name.len()) =~= name);
}

// ---------------------------------------------------------------------------
// Two ways to write one path
// ---------------------------------------------------------------------------

/// The parts of a path that count: none that is empty, and "here" only at its start.
pub open spec fn counting_parts(pieces: Seq<Seq<char>>) -> Seq<Seq<char>>
    decreases pieces.len(),
{
    if pieces.len() == 0 {
        Seq::empty()
    } else {
        let front = counting_parts(pieces.drop_last());
        let last = pieces.last();
        if last.len() == 0 || (last == seq!['.'] && pieces.len() > 1) {
            front
        } else {
            front.push(last)
        }
    }
}

/// Two Unix paths that differ in nothing but repeated or trailing separators and steps to
/// where one is.
pub open spec fn same_path(a: Seq<char>, b: Seq<char>) -> bool {
    &&& text::starts_with(a, "/"@) == text::starts_with(b, "/"@)
    &&& counting_parts(text::split(a, '/')) == counting_parts(text::split(b, '/'))
}

fn parts_of(p: &[char]) -> (r: Vec<Vec<char>>)
    ensures
        text::pieces(r@) == counting_parts(text::split(p@, '/')),
{
    let all = text::split_at_char(p, '/');
    let ghost pieces = text::split(p@, '/');
    let mut out: Vec<Vec<char>> = Vec::new();
    let mut i: usize = 0;
    assert(text::pieces(out@) =~= counting_parts(pieces.take(0)));
    while i < all.len()
        invariant
            i <= all.len(),
            text::pieces(all@) == pieces,
            text::pieces(out@) == counting_parts(pieces.take(i as int)),
        decreases all.len() - i,
    {
        let ghost next = pieces.take(i as int + 1);
        let ghost before = text::pieces(out@);
        assert(next.drop_last() == pieces.take(i as int));
        assert(next.last() == all@[i as int]@);
        let here = all[i].len() == 1 && all[i][0] == '.';
        assert(here == (next.last() == seq!['.'])) by {
            if here {
                assert(next.last() =~= seq!['.']);
            }
        }
        if all[i].len() > 0 && !(here && i > 0) {
            out.push(text::copied(all[i].as_slice()));
            assert(text::pieces(out@) =~= before.push(next.last()));
        }
        i += 1;
    }
    assert(pieces.take(pieces.len() as int) == pieces);
    out
}

pub fn is_same_path(a: &str, b: &str) -> (r: bool)
    ensures
        r == same_path(a@, b@),
{
    let x = chars_of(a);
    let y = chars_of(b);
    let root = chars_of("/");
    if text::begins(x.as_slice(), root.as_slice()) != text::begins(y.as_slice(), root.as_slice()) {
        return false;
    }
    let p = parts_of(x.as_slice());
    let q = parts_of(y.as_slice());
    let ghost pp = text::pieces(p@);
    let ghost qq = text::pieces(q@);
    if p.len() != q.len() {
        assert(pp.len() != qq.len());
        return false;
    }
    let mut i: usize = 0;
    while i < p.len()
        invariant
            i <= p.len(),
            p.len() == q.len(),
            pp == text::pieces(p@),
            qq == text::pieces(q@),
            pp == counting_parts(text::split(a@, '/')),
            qq == counting_parts(text::split(b@, '/')),
            forall|j: int| 0 <= j < i ==> pp[j] == qq[j],
        decreases p.len() - i,
    {
        assert(pp[i as int] == p@[i as int]@ && qq[i as int] == q@[i as int]@);
        if !text::same(p[i].as_slice(), q[i].as_slice()) {
            return false;
        }
        i += 1;
    }
    assert(pp =~= qq);
    true
}

// ---------------------------------------------------------------------------
// Extensions
// ---------------------------------------------------------------------------

/// A dot behind the first character of a name sets off an extension.
pub open spec fn has_extension(host: PlatformTarget, p: Seq<char>) -> bool {
    file_name(host, p) matches Some(name) && exists|i: int|
        1 <= i < name.len() && #[trigger] name[i] == '.'
}

pub fn extended(host: PlatformTarget, path: &str) -> (r: bool)
    ensures
        r == has_extension(host, path@),
{
    match name_of(host, path) {
        Some(name) => {
            let n = chars_of(name.as_str());
            let mut i: usize = 1;
            while i < n.len()
                invariant
                    1 <= i,
                    n@ == name@,
                    file_name(host, path@) == Some(name@),
                    forall|j: int| 1 <= j < i && j < n@.len() ==> n@[j] != '.',
                decreases n.len() - i,
            {
                if n[i] == '.' {
                    let ghost found = file_name(host, path@)->0;
                    assert(1 <= i < found.len() && found[i as int] == '.');
                    return true;
                }
                i += 1;
            }
            false
        },
        None => false,
    }
}

/// A path without an extension, given one.
pub open spec fn with_suffix(host: PlatformTarget, p: Seq<char>, suffix: Seq<char>) -> Seq<char> {
    if file_name(host, p) is Some {
        p.take(trimmed_len(host, p, p.len() as int)) + suffix
    } else {
        p
    }
}

pub fn suffixed(host: PlatformTarget, path: &str, suffix: &str) -> (r: String)
    ensures
        r@ == with_suffix(host, path@, suffix@),
{
    if name_of(host, path).is_none() {
        return path.to_string();
    }
    let p = chars_of(path);
    let to: usize = trimmed_length(host, p.as_slice(), p.len());
    assert(p@.take(to as int) == p@.subrange(0, to as int));
    string_of(slice_subrange(p.as_slice(), 0, to)).concat(suffix)
}

/// How many characters of a name stand before its extension: all of them where it has none.
pub open spec fn stem_len(name: Seq<char>, to: int) -> int
    decreases to,
{
    if to <= 1 {
        name.len() as int
    } else if name[to - 1] == '.' {
        to - 1
    } else {
        stem_len(name, to - 1)
    }
}

/// A path with its extension replaced, or given one.
pub open spec fn with_extension(host: PlatformTarget, p: Seq<char>, extension: Seq<char>) -> Seq<
    char,
> {
    match file_name(host, p) {
        Some(name) => {
            let from = trimmed_len(host, p, p.len() as int) - name.len();
            p.take(from + stem_len(name, name.len() as int)) + "."@ + extension
        },
        None => p,
    }
}

pub fn re_extended(host: PlatformTarget, path: &str, extension: &str) -> (r: String)
    ensures
        r@ == with_extension(host, path@, extension@),
{
    let name = match name_of(host, path) {
        Some(name) => chars_of(name.as_str()),
        None => return path.to_string(),
    };
    let p = chars_of(path);
    let to: usize = trimmed_length(host, p.as_slice(), p.len());
    let from: usize = last_part_start(host, p.as_slice(), to);
    assert(name@ == p@.subrange(from as int, to as int));
    let mut stem: usize = name.len();
    while stem > 1 && name[stem - 1] != '.'
        invariant
            stem <= name@.len(),
            stem_len(name@, stem as int) == stem_len(name@, name@.len() as int),
        decreases stem,
    {
        stem -= 1;
    }
    let kept: usize = if stem > 1 {
        stem - 1
    } else {
        name.len()
    };
    let end: usize = from + kept;
    assert(p@.take(end as int) == p@.subrange(0, end as int));
    string_of(slice_subrange(p.as_slice(), 0, end)).concat(".").concat(extension)
}

// ---------------------------------------------------------------------------
// Directories and what is in them
// ---------------------------------------------------------------------------

/// A name is put behind a directory with one separator between them: a slash, and a backslash
/// on Windows. Where the directory ends with a separator, none is added.
pub proof fn a_name_is_put_behind_its_directory(
    host: PlatformTarget,
    base: Seq<char>,
    name: Seq<char>,
)
    requires
        name.len() > 0,
        name[0] != '/' && name[0] != '\\',
        name.len() < 2 || name[1] != ':',
        base.len() > 2,
    ensures
        host != PlatformTarget::Windows && base.last() != '/' ==> join(host, base, name) == base
            + seq!['/'] + name,
        host != PlatformTarget::Windows && base.last() == '/' ==> join(host, base, name) == base
            + name,
        host == PlatformTarget::Windows && base.last() != '/' && base.last() != '\\' ==> join(
            host,
            base,
            name,
        ) == base + seq!['\\'] + name,
        host == PlatformTarget::Windows && (base.last() == '/' || base.last() == '\\') ==> join(
            host,
            base,
            name,
        ) == base + name,
        join(host, Seq::empty(), name) == name,
        host != PlatformTarget::Windows ==> join(host, base, seq!['/'] + name) == seq!['/'] + name,
{
    assert(base.push('/') + name =~= base + seq!['/'] + name);
    assert(base.push('\\') + name =~= base + seq!['\\'] + name);
    assert(Seq::<char>::empty() + name =~= name);
    let rooted = seq!['/'] + name;
    assert(rooted[0] == '/');
    assert(base.take(0) + rooted =~= rooted);
}

/// A directory whose name stands as it is: it ends neither with a separator nor with a dot,
/// and is more than a drive.
pub open spec fn is_plain_directory(host: PlatformTarget, base: Seq<char>) -> bool {
    &&& base.len() > 2
    &&& base.last() != '/' && base.last() != '\\' && base.last() != '.'
    &&& host == PlatformTarget::Windows ==> has_drive(base)
}

/// A name that is one part of a path.
pub open spec fn is_plain_part(name: Seq<char>) -> bool {
    &&& name.len() > 0
    &&& name != seq!['.'] && name != seq!['.', '.']
    &&& !name.contains('/') && !name.contains('\\') && !name.contains(':')
}

/// A child of a directory is called by its name, and the directory holds it.
pub proof fn a_directory_holds_its_children(
    host: PlatformTarget,
    base: Seq<char>,
    name: Seq<char>,
)
    requires
        is_plain_directory(host, base),
        is_plain_part(name),
    ensures
        parent(host, join(host, base, name)) == Some(base),
        file_name(host, join(host, base, name)) == Some(name),
{
    lemma_plain_child(host, base, name);
}

proof fn lemma_plain_child(host: PlatformTarget, base: Seq<char>, name: Seq<char>)
    requires
        is_plain_directory(host, base),
        is_plain_part(name),
    ensures
        join(host, base, name) == base + seq![separator(host)] + name,
        trimmed_len(host, join(host, base, name), join(host, base, name).len() as int) == join(
            host,
            base,
            name,
        ).len(),
        parent(host, join(host, base, name)) == Some(base),
        file_name(host, join(host, base, name)) == Some(name),
{
    assert(name.contains(name[0]));
    if name.len() >= 2 {
        assert(name.contains(name[1]));
    }
    let p = join(host, base, name);
    assert(p =~= base + seq![separator(host)] + name);
    let n = base.len() as int;
    assert(p[0] == base[0] && p[1] == base[1]);
    if host == PlatformTarget::Windows {
        assert(volume_len(host, p) == 2);
    }
    let to = p.len() as int;
    assert(p[to - 1] == name.last());
    assert(name.contains(name.last()));
    if name.len() == 1 {
        if name[0] == '.' {
            assert(name =~= seq!['.']);
        }
    } else {
        assert(p[to - 2] == name[name.len() - 2]);
        assert(name.contains(name[name.len() - 2]));
    }
    assert(trimmed_len(host, p, to) == to);
    assert forall|i: int| n + 1 <= i < to implies !is_sep(host, #[trigger] p[i]) by {
        assert(p[i] == name[i - n - 1]);
        assert(name.contains(name[i - n - 1]));
    }
    lemma_last_start(host, p, n + 1, to);
    assert(p.subrange(n + 1, to) =~= name);
    assert(p[n] == separator(host));
    assert(p[n - 1] == base.last());
    assert(trimmed_len(host, p, n) == n);
    assert(trimmed_len(host, p, n + 1) == n);
    assert(p.take(n) =~= base);
}

proof fn lemma_last_start(host: PlatformTarget, p: Seq<char>, from: int, to: int)
    requires
        0 < from <= to <= p.len(),
        volume_len(host, p) < from,
        is_sep(host, p[from - 1]),
        forall|i: int| from <= i < to ==> !is_sep(host, #[trigger] p[i]),
    ensures
        last_start(host, p, to) == from,
    decreases to - from,
{
    if from < to {
        assert(!is_sep(host, p[to - 1]));
        lemma_last_start(host, p, from, to - 1);
    }
}

/// The extension of a name is replaced by another one: what stands before its last dot stays.
pub proof fn an_extension_is_replaced(
    host: PlatformTarget,
    base: Seq<char>,
    stem: Seq<char>,
    before: Seq<char>,
    extension: Seq<char>,
)
    requires
        is_plain_directory(host, base),
        stem.len() > 0,
        is_plain_part(stem + seq!['.'] + before),
        before.len() > 0,
        !before.contains('.'),
    ensures
        with_extension(host, join(host, base, stem + seq!['.'] + before), extension) == base + seq![
            if host == PlatformTarget::Windows {
                '\\'
            } else {
                '/'
            },
        ] + stem + seq!['.'] + extension,
{
    let name = stem + seq!['.'] + before;
    lemma_plain_child(host, base, name);
    lemma_stem(stem, before, name.len() as int);
    reveal_strlit(".");
    let p = join(host, base, name);
    let from = base.len() as int + 1;
    assert(p.take(from + stem.len()) =~= base + seq![separator(host)] + stem);
    assert(p.take(from + stem.len()) + "."@ + extension =~= base + seq![separator(host)] + stem
        + seq!['.'] + extension);
}

proof fn lemma_stem(stem: Seq<char>, before: Seq<char>, to: int)
    requires
        stem.len() > 0,
        !before.contains('.'),
        stem.len() + 1 <= to <= stem.len() + 1 + before.len(),
    ensures
        stem_len(stem + seq!['.'] + before, to) == stem.len(),
    decreases to,
{
    let name = stem + seq!['.'] + before;
    if to > stem.len() + 1 {
        assert(name[to - 1] == before[to - stem.len() - 2]);
        assert(before.contains(before[to - stem.len() - 2]));
        lemma_stem(stem, before, to - 1);
    } else {
        assert(name[to - 1] == '.');
    }
}

/// A path is absolute if it starts at the root; on Windows it must name a drive and start at
/// its root, or name a share.
pub proof fn a_path_from_the_root_is_absolute(host: PlatformTarget, p: Seq<char>)
    requires
        p.len() > 2,
    ensures
        host != PlatformTarget::Windows ==> (is_absolute(host, p) <==> p[0] == '/'),
        ({
            let letter = 'a' <= p[0] <= 'z' || 'A' <= p[0] <= 'Z';
            let rooted = p[2] == '/' || p[2] == '\\';
            let share = (p[0] == '/' || p[0] == '\\') && (p[1] == '/' || p[1] == '\\');
            host == PlatformTarget::Windows ==> (is_absolute(host, p) <==> letter && p[1] == ':'
                && rooted || share)
        }),
{
    if host == PlatformTarget::Windows && names_share(host, p) {
        lemma_find_sep(host, p, 2);
        let server = find_sep(host, p, 2);
        if server < p.len() {
            lemma_find_sep(host, p, server + 1);
        }
    }
}

proof fn lemma_find_sep(host: PlatformTarget, p: Seq<char>, from: int)
    requires
        0 <= from <= p.len(),
    ensures
        from <= find_sep(host, p, from) <= p.len(),
    decreases p.len() - from,
{
    if from < p.len() && !is_sep(host, p[from]) {
        lemma_find_sep(host, p, from + 1);
    }
}

/// A separator at the end of a path does not count, nor does one more where there is one
/// already.
pub proof fn separators_are_counted_once(a: Seq<char>)
    requires
        a.len() > 0,
    ensures
        same_path(a, a),
        same_path(a + seq!['/'], a),
        same_path(a, a + seq!['/']),
{
    reveal_strlit("/");
    lemma_split_end(a);
    let parts = text::split(a, '/');
    let longer = text::split(a + seq!['/'], '/');
    assert(longer.drop_last() =~= parts);
    assert((a + seq!['/']).take(1) =~= a.take(1));
}

proof fn lemma_split_end(a: Seq<char>)
    ensures
        text::split(a + seq!['/'], '/') == text::split(a, '/').push(Seq::empty()),
    decreases a.len(),
{
    text::lemma_find(a, '/');
    let n = text::find(a, '/');
    let longer = a + seq!['/'];
    text::lemma_split_last(Seq::<char>::empty(), '/');
    if n < a.len() {
        let first = a.take(n);
        let rest = a.skip(n + 1);
        assert(!first.contains('/')) by {
            if first.contains('/') {
                let k = choose|k: int| 0 <= k < first.len() && first[k] == '/';
                assert(a[k] == '/');
            }
        }
        lemma_split_end(rest);
        text::lemma_split_first(first, '/', rest + seq!['/']);
        assert(first + seq!['/'] + (rest + seq!['/']) =~= longer);
        assert(seq![first] + text::split(rest, '/').push(Seq::empty()) =~= (seq![first]
            + text::split(rest, '/')).push(Seq::empty()));
    } else {
        text::lemma_split_first(a, '/', Seq::empty());
        assert(a + seq!['/'] + Seq::<char>::empty() =~= longer);
        text::lemma_split_last(a, '/');
        assert(seq![a] + seq![Seq::<char>::empty()] =~= seq![a].push(Seq::empty()));
    }
}

/// Paths with different parts are different.
pub proof fn other_parts_make_another_path(a: Seq<char>, b: Seq<char>)
    requires
        !a.contains('/') && !b.contains('/'),
        a.len() > 0 && b.len() > 0,
        a != b,
    ensures
        !same_path(a, b),
        !same_path(seq!['/'] + a, a),
{
    reveal_strlit("/");
    text::lemma_split_last(a, '/');
    text::lemma_split_last(b, '/');
    lemma_one_part(a);
    lemma_one_part(b);
    assert(seq![a][0] == a && seq![b][0] == b);
    assert((seq!['/'] + a).take(1) =~= "/"@);
    assert(a.contains(a[0]));
    assert(a.take(1)[0] == a[0]);
}

proof fn lemma_one_part(a: Seq<char>)
    requires
        a.len() > 0,
    ensures
        counting_parts(seq![a]) == seq![a],
{
    let one = seq![a];
    assert(one.drop_last() =~= Seq::<Seq<char>>::empty());
    assert(counting_parts(one.drop_last()) =~= Seq::<Seq<char>>::empty());
    assert(counting_parts(one) =~= seq![a]);
}

} // verus!
