//! Text as sequences of characters: the pieces of string handling that the rest of
//! the library is stated over.

use vstd::prelude::*;
use vstd::slice::slice_subrange;

verus! {

// ---------------------------------------------------------------------------
// Characters
// ---------------------------------------------------------------------------

/// A character with the Unicode property `White_Space`.
pub open spec fn is_space(c: char) -> bool {
    ||| '\u{9}' <= c <= '\u{d}'
    ||| c == ' '
    ||| c == '\u{85}'
    ||| c == '\u{a0}'
    ||| c == '\u{1680}'
    ||| '\u{2000}' <= c <= '\u{200a}'
    ||| c == '\u{2028}'
    ||| c == '\u{2029}'
    ||| c == '\u{202f}'
    ||| c == '\u{205f}'
    ||| c == '\u{3000}'
}

pub fn char_is_space(c: char) -> (r: bool)
    ensures
        r == is_space(c),
{
    ('\u{9}' <= c && c <= '\u{d}') || c == ' ' || c == '\u{85}' || c == '\u{a0}' || c == '\u{1680}'
        || ('\u{2000}' <= c && c <= '\u{200a}') || c == '\u{2028}' || c == '\u{2029}'
        || c == '\u{202f}' || c == '\u{205f}' || c == '\u{3000}'
}

pub open spec fn is_digit(c: char) -> bool {
    '0' <= c <= '9'
}

/// An ASCII letter or digit.
pub open spec fn is_alnum(c: char) -> bool {
    is_digit(c) || 'a' <= c <= 'z' || 'A' <= c <= 'Z'
}

pub fn char_is_digit(c: char) -> (r: bool)
    ensures
        r == is_digit(c),
{
    '0' <= c && c <= '9'
}

pub fn char_is_alnum(c: char) -> (r: bool)
    ensures
        r == is_alnum(c),
{
    char_is_digit(c) || ('a' <= c && c <= 'z') || ('A' <= c && c <= 'Z')
}

/// The ASCII lower-case form of a character; other characters stay as they are.
pub open spec fn lower(c: char) -> char {
    if 'A' <= c <= 'Z' {
        ((c as u32) + 32) as char
    } else {
        c
    }
}

pub fn char_lower(c: char) -> (r: char)
    ensures
        r == lower(c),
{
    if 'A' <= c && c <= 'Z' {
        ((c as u8) + 32) as char
    } else {
        c
    }
}

pub open spec fn lowered(s: Seq<char>) -> Seq<char> {
    s.map_values(|c: char| lower(c))
}

// ---------------------------------------------------------------------------
// From strings to characters and back
// ---------------------------------------------------------------------------

/// `String::push` appends one character.
pub assume_specification[ String::push ](s: &mut String, c: char)
    ensures
        final(s)@ == old(s)@.push(c),
;

pub fn chars_of(s: &str) -> (r: Vec<char>)
    ensures
        r@ == s@,
{
    let mut out: Vec<char> = Vec::new();
    for c in it: s.chars()
        invariant
            it.seq() == s@,
            out@ == s@.take(it.index() as int),
    {
        out.push(c);
        assert(s@.take(it.index() as int + 1) == s@.take(it.index() as int).push(c));
    }
    assert(s@.take(s@.len() as int) == s@);
    out
}

pub fn string_of(s: &[char]) -> (r: String)
    ensures
        r@ == s@,
{
    let mut out = String::new();
    let mut i: usize = 0;
    while i < s.len()
        invariant
            i <= s.len(),
            out@ == s@.take(i as int),
        decreases s.len() - i,
    {
        out.push(s[i]);
        assert(s@.take(i as int + 1) == s@.take(i as int).push(s@[i as int]));
        i += 1;
    }
    assert(s@.take(s@.len() as int) == s@);
    out
}

// ---------------------------------------------------------------------------
// Trimming
// ---------------------------------------------------------------------------

pub open spec fn trim_start(s: Seq<char>) -> Seq<char>
    decreases s.len(),
{
    if s.len() > 0 && is_space(s[0]) {
        trim_start(s.skip(1))
    } else {
        s
    }
}

pub open spec fn trim_end(s: Seq<char>) -> Seq<char>
    decreases s.len(),
{
    if s.len() > 0 && is_space(s.last()) {
        trim_end(s.drop_last())
    } else {
        s
    }
}

/// `s` without the white space at its two ends.
pub open spec fn trim(s: Seq<char>) -> Seq<char> {
    trim_end(trim_start(s))
}

pub fn trimmed(s: &[char]) -> (r: &[char])
    ensures
        r@ == trim(s@),
{
    let mut from: usize = 0;
    assert(s@.skip(0) == s@);
    while from < s.len() && char_is_space(s[from])
        invariant
            from <= s.len(),
            trim_start(s@.skip(from as int)) == trim_start(s@),
        decreases s.len() - from,
    {
        assert(s@.skip(from as int).skip(1) == s@.skip(from as int + 1));
        from += 1;
    }
    assert(trim_start(s@) == s@.skip(from as int));
    let mut to: usize = s.len();
    assert(s@.subrange(from as int, to as int) == s@.skip(from as int));
    while from < to && char_is_space(s[to - 1])
        invariant
            from <= to <= s.len(),
            trim_end(s@.subrange(from as int, to as int)) == trim(s@),
        decreases to,
    {
        assert(s@.subrange(from as int, to as int).drop_last() == s@.subrange(
            from as int,
            to as int - 1,
        ));
        to -= 1;
    }
    slice_subrange(s, from, to)
}

/// `s` without the characters of `set` at its start.
pub open spec fn strip_start_of(s: Seq<char>, set: Seq<char>) -> Seq<char>
    decreases s.len(),
{
    if s.len() > 0 && set.contains(s[0]) {
        strip_start_of(s.skip(1), set)
    } else {
        s
    }
}

/// `s` without the characters of `set` at its end.
pub open spec fn strip_end_of(s: Seq<char>, set: Seq<char>) -> Seq<char>
    decreases s.len(),
{
    if s.len() > 0 && set.contains(s.last()) {
        strip_end_of(s.drop_last(), set)
    } else {
        s
    }
}

pub fn holds_char(s: &[char], c: char) -> (r: bool)
    ensures
        r == s@.contains(c),
{
    let mut i: usize = 0;
    while i < s.len()
        invariant
            i <= s.len(),
            forall|j: int| 0 <= j < i ==> s@[j] != c,
        decreases s.len() - i,
    {
        if s[i] == c {
            assert(s@[i as int] == c);
            return true;
        }
        i += 1;
    }
    false
}

pub fn stripped_start<'a>(s: &'a [char], set: &[char]) -> (r: &'a [char])
    ensures
        r@ == strip_start_of(s@, set@),
{
    let mut from: usize = 0;
    assert(s@.skip(0) == s@);
    while from < s.len() && holds_char(set, s[from])
        invariant
            from <= s.len(),
            strip_start_of(s@.skip(from as int), set@) == strip_start_of(s@, set@),
        decreases s.len() - from,
    {
        assert(s@.skip(from as int).skip(1) == s@.skip(from as int + 1));
        from += 1;
    }
    assert(s@.subrange(from as int, s@.len() as int) == s@.skip(from as int));
    slice_subrange(s, from, s.len())
}

pub fn stripped_end<'a>(s: &'a [char], set: &[char]) -> (r: &'a [char])
    ensures
        r@ == strip_end_of(s@, set@),
{
    let mut to: usize = s.len();
    assert(s@.take(to as int) == s@);
    while 0 < to && holds_char(set, s[to - 1])
        invariant
            to <= s.len(),
            strip_end_of(s@.take(to as int), set@) == strip_end_of(s@, set@),
        decreases to,
    {
        assert(s@.take(to as int).drop_last() == s@.take(to as int - 1));
        to -= 1;
    }
    assert(s@.subrange(0, to as int) == s@.take(to as int));
    slice_subrange(s, 0, to)
}

pub proof fn lemma_trim_ends(s: Seq<char>)
    ensures
        trim(s).len() > 0 ==> !is_space(trim(s)[0]) && !is_space(trim(s).last()),
{
    lemma_trim_start(s);
    lemma_trim_end(trim_start(s));
}

pub proof fn lemma_trim_end(s: Seq<char>)
    ensures
        trim_end(s).len() <= s.len(),
        trim_end(s) == s.take(trim_end(s).len() as int),
        trim_end(s).len() > 0 ==> !is_space(trim_end(s).last()),
        s.len() > 0 && !is_space(s[0]) ==> trim_end(s).len() > 0,
    decreases s.len(),
{
    if s.len() > 0 && is_space(s.last()) {
        lemma_trim_end(s.drop_last());
        let t = trim_end(s);
        assert(s.drop_last().take(t.len() as int) == s.take(t.len() as int));
    } else {
        assert(s.take(s.len() as int) == s);
    }
}

/// A text that neither starts nor ends with white space is trimmed already.
pub proof fn lemma_trimmed(s: Seq<char>)
    requires
        s.len() > 0 ==> !is_space(s[0]) && !is_space(s.last()),
    ensures
        trim(s) == s,
{
}

/// Trimming twice is trimming once.
pub proof fn lemma_trim_twice(s: Seq<char>)
    ensures
        trim(trim(s)) == trim(s),
{
    lemma_trim_ends(s);
    lemma_trimmed(trim(s));
}

// ---------------------------------------------------------------------------
// Searching and splitting
// ---------------------------------------------------------------------------

/// The first position of `x` in `s`; the length of `s` where it does not occur.
pub open spec fn find<T>(s: Seq<T>, x: T) -> int
    decreases s.len(),
{
    if s.len() == 0 || s[0] == x {
        0
    } else {
        1 + find(s.skip(1), x)
    }
}

pub proof fn lemma_find<T>(s: Seq<T>, x: T)
    ensures
        0 <= find(s, x) <= s.len(),
        find(s, x) < s.len() ==> s[find(s, x)] == x,
        forall|j: int| 0 <= j < find(s, x) ==> s[j] != x,
        find(s, x) < s.len() <==> s.contains(x),
    decreases s.len(),
{
    if s.len() == 0 || s[0] == x {
    } else {
        lemma_find(s.skip(1), x);
        let n = find(s.skip(1), x);
        assert forall|j: int| 0 <= j < find(s, x) implies s[j] != x by {
            if j > 0 {
                assert(s.skip(1)[j - 1] == s[j]);
            }
        }
    }
    if s.contains(x) {
        let k = choose|k: int| 0 <= k < s.len() && s[k] == x;
        if find(s, x) >= s.len() {
            assert(s[k] != x);
        }
    }
}

pub proof fn lemma_find_is<T>(s: Seq<T>, x: T, n: int)
    requires
        0 <= n <= s.len(),
        n < s.len() ==> s[n] == x,
        forall|j: int| 0 <= j < n ==> s[j] != x,
    ensures
        find(s, x) == n,
{
    lemma_find(s, x);
}

pub fn position(s: &[char], c: char) -> (r: usize)
    ensures
        r == find(s@, c),
        r <= s.len(),
{
    let mut i: usize = 0;
    while i < s.len() && s[i] != c
        invariant
            i <= s.len(),
            forall|j: int| 0 <= j < i ==> s@[j] != c,
        decreases s.len() - i,
    {
        i += 1;
    }
    proof {
        lemma_find_is(s@, c, i as int);
    }
    i
}

/// The pieces of `s` between the occurrences of `x`.
pub open spec fn split<T>(s: Seq<T>, x: T) -> Seq<Seq<T>>
    decreases s.len(),
{
    let n = find(s, x);
    if 0 <= n < s.len() {
        seq![s.take(n)] + split(s.skip(n + 1), x)
    } else {
        seq![s]
    }
}

/// What a vector of character vectors holds.
pub open spec fn pieces(v: Seq<Vec<char>>) -> Seq<Seq<char>> {
    v.map_values(|p: Vec<char>| p@)
}

/// What a vector of strings holds.
pub open spec fn texts(v: Seq<String>) -> Seq<Seq<char>> {
    v.map_values(|p: String| p@)
}

/// What an optional string holds.
pub open spec fn opt_text(v: Option<String>) -> Option<Seq<char>> {
    match v {
        Some(p) => Some(p@),
        None => None,
    }
}

pub fn copied(s: &[char]) -> (r: Vec<char>)
    ensures
        r@ == s@,
{
    let mut out: Vec<char> = Vec::new();
    let mut i: usize = 0;
    while i < s.len()
        invariant
            i <= s.len(),
            out@ == s@.take(i as int),
        decreases s.len() - i,
    {
        out.push(s[i]);
        assert(s@.take(i as int + 1) == s@.take(i as int).push(s@[i as int]));
        i += 1;
    }
    assert(s@.take(s@.len() as int) == s@);
    out
}

pub fn split_at_char(s: &[char], c: char) -> (r: Vec<Vec<char>>)
    ensures
        pieces(r@) == split(s@, c),
{
    let mut out: Vec<Vec<char>> = Vec::new();
    let mut from: usize = 0;
    assert(s@.skip(0) == s@);
    assert(pieces(out@) + split(s@, c) == split(s@, c));
    loop
        invariant_except_break
            from <= s.len(),
            pieces(out@) + split(s@.skip(from as int), c) == split(s@, c),
        ensures
            pieces(out@) == split(s@, c),
        decreases s.len() - from,
    {
        let rest = slice_subrange(s, from, s.len());
        assert(rest@ == s@.skip(from as int));
        let n: usize = position(rest, c);
        let piece = copied(slice_subrange(rest, 0, n));
        let ghost before = pieces(out@);
        out.push(piece);
        assert(pieces(out@) == before.push(piece@));
        if n >= rest.len() {
            assert(piece@ == rest@);
            assert(before.push(piece@) == before + seq![rest@]);
            break;
        }
        assert(piece@ == rest@.take(n as int));
        assert(rest@.skip(n + 1) == s@.skip(from + n + 1));
        assert(before.push(piece@) + split(rest@.skip(n + 1), c) == before + (seq![rest@.take(n as int)]
            + split(rest@.skip(n + 1), c)));
        from = from + n + 1;
    }
    out
}

/// A line without the carriage return at its end.
pub open spec fn without_cr(s: Seq<char>) -> Seq<char> {
    if s.len() > 0 && s.last() == '\r' {
        s.drop_last()
    } else {
        s
    }
}

/// The lines of `s`. A line ends at a newline, with or without a carriage return
/// before it; what follows the last newline is a line of its own if it is not empty.
pub open spec fn lines(s: Seq<char>) -> Seq<Seq<char>>
    decreases s.len(),
{
    let n = find(s, '\n');
    if s.len() == 0 {
        Seq::empty()
    } else if 0 <= n < s.len() {
        seq![without_cr(s.take(n))] + lines(s.skip(n + 1))
    } else {
        seq![s]
    }
}

pub fn lines_of(s: &[char]) -> (r: Vec<Vec<char>>)
    ensures
        pieces(r@) == lines(s@),
{
    let mut out: Vec<Vec<char>> = Vec::new();
    let mut from: usize = 0;
    assert(s@.skip(0) == s@);
    assert(pieces(out@) + lines(s@) == lines(s@));
    while from < s.len()
        invariant
            from <= s.len(),
            pieces(out@) + lines(s@.skip(from as int)) == lines(s@),
        decreases s.len() - from,
    {
        let rest = slice_subrange(s, from, s.len());
        assert(rest@ == s@.skip(from as int));
        let n: usize = position(rest, '\n');
        let ghost before = pieces(out@);
        if n >= rest.len() {
            let piece = copied(rest);
            out.push(piece);
            assert(pieces(out@) == before.push(rest@));
            assert(before.push(rest@) == before + seq![rest@]);
            from = s.len();
            assert(s@.skip(from as int) == Seq::<char>::empty());
            assert(lines(s@.skip(from as int)) == Seq::<Seq<char>>::empty());
            assert(pieces(out@) + lines(s@.skip(from as int)) == pieces(out@));
        } else {
            let end: usize = if n > 0 && rest[n - 1] == '\r' {
                n - 1
            } else {
                n
            };
            let piece = copied(slice_subrange(rest, 0, end));
            assert(piece@ == without_cr(rest@.take(n as int)));
            out.push(piece);
            assert(pieces(out@) == before.push(piece@));
            assert(rest@.skip(n + 1) == s@.skip(from + n + 1));
            assert(before.push(piece@) + lines(rest@.skip(n + 1)) == before + (seq![piece@] + lines(
                rest@.skip(n + 1),
            )));
            from = from + n + 1;
        }
    }
    assert(s@.skip(from as int) == Seq::<char>::empty());
    assert(pieces(out@) + Seq::<Seq<char>>::empty() == pieces(out@));
    out
}

/// The first position of a white-space character; the length of `s` where there is none.
pub open spec fn find_space(s: Seq<char>) -> int
    decreases s.len(),
{
    if s.len() == 0 || is_space(s[0]) {
        0
    } else {
        1 + find_space(s.skip(1))
    }
}

pub proof fn lemma_trim_start(s: Seq<char>)
    ensures
        trim_start(s).len() <= s.len(),
        trim_start(s) == s.skip(s.len() - trim_start(s).len()),
        trim_start(s).len() > 0 ==> !is_space(trim_start(s)[0]),
    decreases s.len(),
{
    if s.len() > 0 && is_space(s[0]) {
        lemma_trim_start(s.skip(1));
        let t = trim_start(s);
        assert(s.skip(1).skip(s.len() - 1 - t.len()) == s.skip(s.len() - t.len()));
    } else {
        assert(s.skip(0) == s);
    }
}

/// The longest runs of characters that are not white space, in order.
pub open spec fn words(s: Seq<char>) -> Seq<Seq<char>>
    decreases s.len(),
{
    let t = trim_start(s);
    let n = find_space(t);
    if 0 < n <= t.len() <= s.len() {
        seq![t.take(n)] + words(t.skip(n))
    } else {
        Seq::empty()
    }
}

pub fn words_of(s: &[char]) -> (r: Vec<Vec<char>>)
    ensures
        pieces(r@) == words(s@),
{
    let mut out: Vec<Vec<char>> = Vec::new();
    let mut from: usize = 0;
    assert(s@.skip(0) == s@);
    assert(pieces(out@) + words(s@) == words(s@));
    loop
        invariant
            from <= s.len(),
            pieces(out@) + words(s@.skip(from as int)) == words(s@),
        ensures
            pieces(out@) == words(s@),
        decreases s.len() - from,
    {
        let ghost rest = s@.skip(from as int);
        let mut a: usize = from;
        while a < s.len() && char_is_space(s[a])
            invariant
                from <= a <= s.len(),
                rest == s@.skip(from as int),
                trim_start(s@.skip(a as int)) == trim_start(rest),
            decreases s.len() - a,
        {
            assert(s@.skip(a as int).skip(1) == s@.skip(a as int + 1));
            a += 1;
        }
        let ghost t = s@.skip(a as int);
        assert(trim_start(rest) == t);
        if a >= s.len() {
            assert(t == Seq::<char>::empty());
            assert(words(rest) == Seq::<Seq<char>>::empty());
            assert(pieces(out@) + Seq::<Seq<char>>::empty() == pieces(out@));
            break;
        }
        let mut b: usize = a;
        while b < s.len() && !char_is_space(s[b])
            invariant
                a <= b <= s.len(),
                find_space(s@.skip(a as int)) == b - a + find_space(s@.skip(b as int)),
            decreases s.len() - b,
        {
            assert(s@.skip(b as int).skip(1) == s@.skip(b as int + 1));
            b += 1;
        }
        assert(find_space(t) == b - a);
        let piece = copied(slice_subrange(s, a, b));
        assert(piece@ == t.take(b - a));
        let ghost before = pieces(out@);
        out.push(piece);
        assert(pieces(out@) == before.push(piece@));
        assert(t.skip(b - a) == s@.skip(b as int));
        assert(words(rest) == seq![piece@] + words(s@.skip(b as int)));
        assert(before.push(piece@) + words(s@.skip(b as int)) == before + (seq![piece@] + words(
            s@.skip(b as int),
        )));
        from = b;
    }
    out
}

// ---------------------------------------------------------------------------
// Parts of a text
// ---------------------------------------------------------------------------

pub open spec fn starts_with<T>(s: Seq<T>, p: Seq<T>) -> bool {
    p.len() <= s.len() && s.take(p.len() as int) == p
}

pub open spec fn ends_with<T>(s: Seq<T>, p: Seq<T>) -> bool {
    p.len() <= s.len() && s.skip(s.len() - p.len()) == p
}

/// What follows the prefix `p`; nothing where `s` does not start with it.
pub open spec fn strip_prefix(s: Seq<char>, p: Seq<char>) -> Option<Seq<char>> {
    if starts_with(s, p) {
        Some(s.skip(p.len() as int))
    } else {
        None
    }
}

/// What precedes the suffix `p`; nothing where `s` does not end with it.
pub open spec fn strip_suffix(s: Seq<char>, p: Seq<char>) -> Option<Seq<char>> {
    if ends_with(s, p) {
        Some(s.take(s.len() - p.len()))
    } else {
        None
    }
}

/// The first position at which `p` occurs in `s`.
pub open spec fn find_text(s: Seq<char>, p: Seq<char>) -> Option<int>
    decreases s.len(),
{
    if starts_with(s, p) {
        Some(0)
    } else if s.len() == 0 {
        None
    } else {
        match find_text(s.skip(1), p) {
            Some(i) => Some(i + 1),
            None => None,
        }
    }
}

pub open spec fn contains_text(s: Seq<char>, p: Seq<char>) -> bool {
    find_text(s, p) is Some
}

pub fn same(a: &[char], b: &[char]) -> (r: bool)
    ensures
        r == (a@ == b@),
{
    if a.len() != b.len() {
        return false;
    }
    let mut i: usize = 0;
    while i < a.len()
        invariant
            i <= a.len(),
            a.len() == b.len(),
            forall|j: int| 0 <= j < i ==> a@[j] == b@[j],
        decreases a.len() - i,
    {
        if a[i] != b[i] {
            assert(a@[i as int] != b@[i as int]);
            return false;
        }
        i += 1;
    }
    assert(a@ =~= b@);
    true
}

/// Whether two strings hold the same characters.
pub fn equal(a: &str, b: &str) -> (r: bool)
    ensures
        r == (a@ == b@),
{
    same(chars_of(a).as_slice(), chars_of(b).as_slice())
}

pub fn begins(s: &[char], p: &[char]) -> (r: bool)
    ensures
        r == starts_with(s@, p@),
{
    if p.len() > s.len() {
        return false;
    }
    assert(s@.take(p@.len() as int) == s@.subrange(0, p@.len() as int));
    same(slice_subrange(s, 0, p.len()), p)
}

pub fn finishes(s: &[char], p: &[char]) -> (r: bool)
    ensures
        r == ends_with(s@, p@),
{
    if p.len() > s.len() {
        return false;
    }
    let from: usize = s.len() - p.len();
    assert(s@.skip(from as int) == s@.subrange(from as int, s@.len() as int));
    same(slice_subrange(s, from, s.len()), p)
}

pub fn after_prefix<'a>(s: &'a [char], p: &str) -> (r: Option<&'a [char]>)
    ensures
        match r {
            Some(rest) => strip_prefix(s@, p@) == Some(rest@),
            None => strip_prefix(s@, p@) is None,
        },
{
    let p = chars_of(p);
    if begins(s, p.as_slice()) {
        assert(s@.skip(p@.len() as int) == s@.subrange(p@.len() as int, s@.len() as int));
        Some(slice_subrange(s, p.len(), s.len()))
    } else {
        None
    }
}

pub fn before_suffix<'a>(s: &'a [char], p: &str) -> (r: Option<&'a [char]>)
    ensures
        match r {
            Some(rest) => strip_suffix(s@, p@) == Some(rest@),
            None => strip_suffix(s@, p@) is None,
        },
{
    let p = chars_of(p);
    if finishes(s, p.as_slice()) {
        let to: usize = s.len() - p.len();
        assert(s@.take(to as int) == s@.subrange(0, to as int));
        Some(slice_subrange(s, 0, to))
    } else {
        None
    }
}

pub fn search(s: &[char], p: &str) -> (r: Option<usize>)
    ensures
        match r {
            Some(i) => find_text(s@, p@) == Some(i as int) && i + p@.len() <= s.len(),
            None => find_text(s@, p@) is None,
        },
{
    let pat = chars_of(p);
    let mut i: usize = 0;
    assert(s@.skip(0) == s@);
    while i < s.len()
        invariant
            i <= s.len(),
            pat@ == p@,
            find_text(s@, p@) == (match find_text(s@.skip(i as int), p@) {
                Some(k) => Some(k + i),
                None => None,
            }),
        decreases s.len() - i,
    {
        let rest = slice_subrange(s, i, s.len());
        assert(rest@ == s@.skip(i as int));
        if begins(rest, pat.as_slice()) {
            return Some(i);
        }
        assert(s@.skip(i as int).skip(1) == s@.skip(i as int + 1));
        i += 1;
    }
    if pat.len() == 0 {
        assert(s@.skip(i as int).take(0) == p@);
        return Some(i);
    }
    None
}

pub fn has_text(s: &[char], p: &str) -> (r: bool)
    ensures
        r == contains_text(s@, p@),
{
    search(s, p).is_some()
}

/// What precedes and what follows the first `c`.
pub open spec fn split_once(s: Seq<char>, c: char) -> Option<(Seq<char>, Seq<char>)> {
    let n = find(s, c);
    if n < s.len() {
        Some((s.take(n), s.skip(n + 1)))
    } else {
        None
    }
}

pub fn cut_at<'a>(s: &'a [char], c: char) -> (r: Option<(&'a [char], &'a [char])>)
    ensures
        match r {
            Some(p) => split_once(s@, c) == Some((p.0@, p.1@)),
            None => split_once(s@, c) is None,
        },
{
    let n: usize = position(s, c);
    if n < s.len() {
        assert(s@.take(n as int) == s@.subrange(0, n as int));
        assert(s@.skip(n + 1) == s@.subrange(n + 1, s@.len() as int));
        Some((slice_subrange(s, 0, n), slice_subrange(s, n + 1, s.len())))
    } else {
        None
    }
}

// ---------------------------------------------------------------------------
// Joining and replacing
// ---------------------------------------------------------------------------

/// The parts one after another, with `sep` between each two.
pub open spec fn join(parts: Seq<Seq<char>>, sep: Seq<char>) -> Seq<char>
    decreases parts.len(),
{
    if parts.len() == 0 {
        Seq::empty()
    } else if parts.len() == 1 {
        parts[0]
    } else {
        join(parts.drop_last(), sep) + sep + parts.last()
    }
}

pub fn joined(parts: &[String], sep: &str) -> (r: String)
    ensures
        r@ == join(texts(parts@), sep@),
{
    let mut out = String::new();
    let mut i: usize = 0;
    while i < parts.len()
        invariant
            i <= parts.len(),
            out@ == join(texts(parts@.take(i as int)), sep@),
        decreases parts.len() - i,
    {
        let ghost next = texts(parts@.take(i as int + 1));
        assert(next.drop_last() == texts(parts@.take(i as int)));
        assert(next.last() == parts@[i as int]@);
        if i > 0 {
            out.append(sep);
            out.append(parts[i].as_str());
        } else {
            assert(next[0] == parts@[0]@);
            out = parts[i].clone();
        }
        i += 1;
    }
    assert(parts@.take(parts@.len() as int) == parts@);
    out
}

/// `s` with `to` in place of each `from`.
pub open spec fn replace_char(s: Seq<char>, from: char, to: char) -> Seq<char> {
    s.map_values(|c: char| if c == from { to } else { c })
}

pub fn with_replaced(s: &[char], from: char, to: char) -> (r: Vec<char>)
    ensures
        r@ == replace_char(s@, from, to),
{
    let mut out: Vec<char> = Vec::new();
    let mut i: usize = 0;
    while i < s.len()
        invariant
            i <= s.len(),
            out@.len() == i,
            forall|j: int| 0 <= j < i ==> out@[j] == if s@[j] == from { to } else { s@[j] },
        decreases s.len() - i,
    {
        out.push(if s[i] == from { to } else { s[i] });
        i += 1;
    }
    assert(out@ =~= replace_char(s@, from, to));
    out
}

pub fn lower_case(s: &[char]) -> (r: Vec<char>)
    ensures
        r@ == lowered(s@),
{
    let mut out: Vec<char> = Vec::new();
    let mut i: usize = 0;
    while i < s.len()
        invariant
            i <= s.len(),
            out@.len() == i,
            forall|j: int| 0 <= j < i ==> out@[j] == lower(s@[j]),
        decreases s.len() - i,
    {
        out.push(char_lower(s[i]));
        i += 1;
    }
    assert(out@ =~= lowered(s@));
    out
}

/// The first `n` characters.
pub open spec fn shortened(s: Seq<char>, n: int) -> Seq<char> {
    if s.len() <= n {
        s
    } else {
        s.take(n)
    }
}

pub fn first_chars(s: &[char], n: usize) -> (r: &[char])
    ensures
        r@ == shortened(s@, n as int),
{
    if s.len() <= n {
        s
    } else {
        assert(s@.take(n as int) == s@.subrange(0, n as int));
        slice_subrange(s, 0, n)
    }
}

/// `s` with `to` in place of each `from`, read from left to right.
pub open spec fn replace_each(s: Seq<char>, from: char, to: Seq<char>) -> Seq<char>
    decreases s.len(),
{
    if s.len() == 0 {
        Seq::empty()
    } else {
        replace_each(s.drop_last(), from, to) + if s.last() == from {
            to
        } else {
            seq![s.last()]
        }
    }
}

pub fn each_replaced(s: &[char], from: char, to: &str) -> (r: String)
    ensures
        r@ == replace_each(s@, from, to@),
{
    let mut out = String::new();
    let mut i: usize = 0;
    while i < s.len()
        invariant
            i <= s.len(),
            out@ == replace_each(s@.take(i as int), from, to@),
        decreases s.len() - i,
    {
        let ghost next = s@.take(i as int + 1);
        assert(next.drop_last() == s@.take(i as int));
        assert(out@.push(s@[i as int]) == out@ + seq![s@[i as int]]);
        if s[i] == from {
            out.append(to);
        } else {
            out.push(s[i]);
        }
        i += 1;
    }
    assert(s@.take(s@.len() as int) == s@);
    out
}

// ---------------------------------------------------------------------------
// Decimal numbers
// ---------------------------------------------------------------------------

pub open spec fn digit(d: int) -> char {
    (48 + d) as char
}

/// The decimal digits of `n`, without leading zeros.
pub open spec fn decimal(n: nat) -> Seq<char>
    decreases n,
{
    if n < 10 {
        seq![digit(n as int)]
    } else {
        decimal(n / 10).push(digit((n % 10) as int))
    }
}

pub fn digits_of(n: u64) -> (r: Vec<char>)
    ensures
        r@ == decimal(n as nat),
    decreases n,
{
    if n < 10 {
        let c: char = ((n as u8) + 48) as char;
        let mut out: Vec<char> = Vec::new();
        out.push(c);
        out
    } else {
        let mut out = digits_of(n / 10);
        let c: char = (((n % 10) as u8) + 48) as char;
        out.push(c);
        out
    }
}

pub fn number(n: u64) -> (r: String)
    ensures
        r@ == decimal(n as nat),
{
    string_of(digits_of(n).as_slice())
}

pub open spec fn all_digits(s: Seq<char>) -> bool {
    forall|i: int| 0 <= i < s.len() ==> is_digit(#[trigger] s[i])
}

/// The number that the digits of `s` write down.
pub open spec fn digits_value(s: Seq<char>) -> nat
    decreases s.len(),
{
    if s.len() == 0 {
        0
    } else {
        digits_value(s.drop_last()) * 10 + (s.last() as int - 48) as nat
    }
}

pub proof fn lemma_digits_value_grows(s: Seq<char>, i: int)
    requires
        0 <= i <= s.len(),
    ensures
        digits_value(s.take(i)) <= digits_value(s),
    decreases s.len(),
{
    if i < s.len() {
        lemma_digits_value_grows(s.drop_last(), i);
        assert(s.drop_last().take(i) == s.take(i));
    } else {
        assert(s.take(i) == s);
    }
}

/// A `+` may precede the digits of an unsigned number.
pub open spec fn unsigned_digits(s: Seq<char>) -> Seq<char> {
    if s.len() > 0 && s[0] == '+' {
        s.skip(1)
    } else {
        s
    }
}

/// The number that `s` writes down: an optional `+`, then digits, at most `max`.
pub open spec fn parsed(s: Seq<char>, max: nat) -> Option<nat> {
    let d = unsigned_digits(s);
    if d.len() > 0 && all_digits(d) && digits_value(d) <= max {
        Some(digits_value(d))
    } else {
        None
    }
}

pub fn parse_number(s: &[char], max: u64) -> (r: Option<u64>)
    ensures
        match r {
            Some(n) => parsed(s@, max as nat) == Some(n as nat),
            None => parsed(s@, max as nat) is None,
        },
{
    let from: usize = if s.len() > 0 && s[0] == '+' {
        1
    } else {
        0
    };
    let ghost d = unsigned_digits(s@);
    assert(d == s@.skip(from as int));
    if from >= s.len() {
        return None;
    }
    let mut n: u64 = 0;
    let mut i: usize = from;
    while i < s.len()
        invariant
            from <= i <= s.len(),
            d == unsigned_digits(s@),
            d == s@.skip(from as int),
            n == digits_value(d.take(i - from)),
            n <= max,
            forall|j: int| 0 <= j < i - from ==> is_digit(#[trigger] d[j]),
        decreases s.len() - i,
    {
        let c: char = s[i];
        assert(c == d[i - from]);
        if !char_is_digit(c) {
            return None;
        }
        let v: u64 = (c as u64) - 48;
        let ghost next = d.take(i - from + 1);
        assert(next.drop_last() == d.take(i - from));
        proof {
            lemma_digits_value_grows(d, i - from + 1);
        }
        if n > (u64::MAX - v) / 10 {
            return None;
        }
        let m: u64 = n * 10 + v;
        if m > max {
            return None;
        }
        n = m;
        i += 1;
    }
    assert(d.take(d.len() as int) == d);
    Some(n)
}

// ---------------------------------------------------------------------------
// Order
// ---------------------------------------------------------------------------

/// `a` precedes `b` in the order of the dictionary, by code points.
pub open spec fn before(a: Seq<char>, b: Seq<char>) -> bool
    decreases a.len(),
{
    if a.len() == 0 {
        b.len() > 0
    } else if b.len() == 0 {
        false
    } else if a[0] != b[0] {
        a[0] < b[0]
    } else {
        before(a.skip(1), b.skip(1))
    }
}

pub fn precedes(a: &[char], b: &[char]) -> (r: bool)
    ensures
        r == before(a@, b@),
{
    let mut i: usize = 0;
    assert(a@.skip(0) == a@);
    assert(b@.skip(0) == b@);
    while i < a.len() && i < b.len()
        invariant
            i <= a.len(),
            i <= b.len(),
            before(a@, b@) == before(a@.skip(i as int), b@.skip(i as int)),
        decreases a.len() - i,
    {
        assert(a@.skip(i as int).skip(1) == a@.skip(i as int + 1));
        assert(b@.skip(i as int).skip(1) == b@.skip(i as int + 1));
        if a[i] != b[i] {
            return a[i] < b[i];
        }
        i += 1;
    }
    a.len() < b.len()
}

pub proof fn lemma_before_total(a: Seq<char>, b: Seq<char>)
    ensures
        before(a, b) || before(b, a) || a == b,
        !(before(a, b) && before(b, a)),
        !before(a, a),
    decreases a.len(),
{
    if a.len() > 0 {
        lemma_before_total(a.skip(1), if b.len() > 0 { b.skip(1) } else { b });
        if b.len() > 0 && a[0] == b[0] && a.skip(1) == b.skip(1) {
            assert(a =~= seq![a[0]] + a.skip(1));
            assert(b =~= seq![b[0]] + b.skip(1));
        }
    } else if b.len() == 0 {
        assert(a =~= b);
    }
}

pub proof fn lemma_before_transitive(a: Seq<char>, b: Seq<char>, c: Seq<char>)
    requires
        before(a, b),
        before(b, c),
    ensures
        before(a, c),
    decreases a.len(),
{
    if a.len() > 0 && b.len() > 0 && c.len() > 0 && a[0] == b[0] && b[0] == c[0] {
        lemma_before_transitive(a.skip(1), b.skip(1), c.skip(1));
    }
}

/// In the order of the dictionary; equal texts may stand side by side.
pub open spec fn ascending(v: Seq<Seq<char>>) -> bool {
    forall|i: int, j: int| 0 <= i < j < v.len() ==> !before(#[trigger] v[j], #[trigger] v[i])
}

/// Where `x` belongs among texts in order: behind those that it does not precede.
fn place_of(v: &Vec<String>, x: &[char]) -> (r: usize)
    requires
        ascending(texts(v@)),
    ensures
        r <= v.len(),
        forall|i: int| 0 <= i < r ==> !before(x@, #[trigger] texts(v@)[i]),
        r < v.len() ==> before(x@, texts(v@)[r as int]),
{
    let mut i: usize = 0;
    while i < v.len()
        invariant
            i <= v.len(),
            forall|k: int| 0 <= k < i ==> !before(x@, #[trigger] texts(v@)[k]),
        decreases v.len() - i,
    {
        assert(texts(v@)[i as int] == v@[i as int]@);
        if precedes(x, chars_of(v[i].as_str()).as_slice()) {
            return i;
        }
        i += 1;
    }
    i
}

/// The same texts in the order of the dictionary.
pub fn sort_texts(names: Vec<String>) -> (r: Vec<String>)
    ensures
        ascending(texts(r@)),
        texts(r@).to_multiset() == texts(names@).to_multiset(),
{
    let mut out: Vec<String> = Vec::new();
    let mut i: usize = 0;
    let ghost all = texts(names@);
    assert(texts(out@) =~= all.take(0));
    while i < names.len()
        invariant
            i <= names.len(),
            all == texts(names@),
            ascending(texts(out@)),
            texts(out@).to_multiset() == all.take(i as int).to_multiset(),
        decreases names.len() - i,
    {
        let x = chars_of(names[i].as_str());
        let at: usize = place_of(&out, x.as_slice());
        let ghost old_out = texts(out@);
        out.insert(at, names[i].clone());
        let ghost new_out = texts(out@);
        assert(new_out =~= old_out.insert(at as int, x@));
        assert(ascending(new_out)) by {
            assert forall|a: int, b: int| 0 <= a < b < new_out.len() implies !before(
                #[trigger] new_out[b],
                #[trigger] new_out[a],
            ) by {
                lemma_before_total(new_out[a], new_out[b]);
                if a < at && b == at {
                    assert(new_out[a] == old_out[a]);
                } else if a == at && b > at {
                    assert(new_out[b] == old_out[b - 1]);
                    assert(before(x@, old_out[at as int]));
                    if before(old_out[b - 1], x@) {
                        if b - 1 == at {
                            lemma_before_total(x@, old_out[at as int]);
                        } else {
                            lemma_before_transitive(old_out[b - 1], x@, old_out[at as int]);
                            assert(!before(old_out[b - 1], old_out[at as int]));
                        }
                    }
                } else {
                    let a0: int = if a < at {
                        a
                    } else {
                        a - 1
                    };
                    let b0: int = if b < at {
                        b
                    } else {
                        b - 1
                    };
                    assert(new_out[a] == old_out[a0]);
                    assert(new_out[b] == old_out[b0]);
                }
            }
        }
        proof {
            new_out.to_multiset_ensures();
            assert(new_out[at as int] == x@);
            assert(new_out.contains(x@));
            assert(new_out.remove(at as int) =~= old_out);
            assert(new_out.to_multiset() =~= old_out.to_multiset().insert(x@));
            assert(all.take(i as int + 1) =~= all.take(i as int).push(x@));
            all.take(i as int).to_multiset_ensures();
        }
        i += 1;
    }
    assert(all.take(all.len() as int) == all);
    out
}

/// A number that was written down is read back.
pub proof fn a_number_is_read_back(n: nat, max: nat)
    requires
        n <= max,
    ensures
        parsed(decimal(n), max) == Some(n),
        decimal(n).len() > 0,
        forall|i: int| 0 <= i < decimal(n).len() ==> is_digit(#[trigger] decimal(n)[i]),
{
    lemma_decimal(n);
    let d = decimal(n);
    assert(unsigned_digits(d) == d);
}

proof fn lemma_decimal(n: nat)
    ensures
        decimal(n).len() > 0,
        forall|i: int| 0 <= i < decimal(n).len() ==> is_digit(#[trigger] decimal(n)[i]),
        digits_value(decimal(n)) == n,
    decreases n,
{
    if n >= 10 {
        lemma_decimal(n / 10);
        let d = decimal(n);
        assert(d.drop_last() =~= decimal(n / 10));
        assert(d.last() as int == 48 + n % 10);
        assert(digits_value(d) == (n / 10) * 10 + n % 10);
    } else {
        let d = decimal(n);
        assert(d.drop_last() =~= Seq::<char>::empty());
        assert(digits_value(d.drop_last()) == 0);
        assert(d.last() as int == 48 + n);
    }
}

/// Two numbers that are written alike are the same.
pub proof fn numbers_are_told_apart(a: nat, b: nat)
    requires
        decimal(a) == decimal(b),
    ensures
        a == b,
{
    lemma_decimal(a);
    lemma_decimal(b);
}

/// What is trimmed off a text is white space only, and what is left neither starts nor ends
/// with any.
pub proof fn only_white_space_is_trimmed_off(s: Seq<char>)
    ensures
        ({
            let t = trim(s);
            &&& t.len() > 0 ==> !is_space(t[0]) && !is_space(t.last())
            &&& exists|from: int|
                #![trigger s.take(from)]
                0 <= from <= s.len() - t.len() && s.subrange(from, from + t.len()) == t && (
                forall|i: int| 0 <= i < from ==> is_space(#[trigger] s[i])) && forall|i: int|
                    from + t.len() <= i < s.len() ==> is_space(#[trigger] s[i])
        }),
{
    lemma_trim_ends(s);
    lemma_skipped_space(s);
    let from = s.len() - trim_start(s).len();
    let rest = trim_start(s);
    lemma_dropped_space(rest);
    let t = trim(s);
    assert(s.subrange(from, from + t.len()) =~= t);
    assert forall|i: int| from + t.len() <= i < s.len() implies is_space(#[trigger] s[i]) by {
        assert(rest[i - from] == s[i]);
    }
    assert(s.take(from).len() == from);
}

proof fn lemma_skipped_space(s: Seq<char>)
    ensures
        trim_start(s).len() <= s.len(),
        trim_start(s) == s.skip(s.len() - trim_start(s).len()),
        forall|i: int| 0 <= i < s.len() - trim_start(s).len() ==> is_space(#[trigger] s[i]),
    decreases s.len(),
{
    if s.len() > 0 && is_space(s[0]) {
        let rest = s.skip(1);
        lemma_skipped_space(rest);
        let n = rest.len() - trim_start(rest).len();
        assert(rest.skip(n) =~= s.skip(n + 1));
        assert forall|i: int| 0 <= i < n + 1 implies is_space(#[trigger] s[i]) by {
            if i > 0 {
                assert(rest[i - 1] == s[i]);
            }
        }
    } else {
        assert(s.skip(0) =~= s);
    }
}

proof fn lemma_dropped_space(s: Seq<char>)
    ensures
        trim_end(s).len() <= s.len(),
        trim_end(s) == s.take(trim_end(s).len() as int),
        forall|i: int| trim_end(s).len() <= i < s.len() ==> is_space(#[trigger] s[i]),
    decreases s.len(),
{
    if s.len() > 0 && is_space(s.last()) {
        lemma_dropped_space(s.drop_last());
        let n = trim_end(s).len() as int;
        assert(s.drop_last().take(n) =~= s.take(n));
        assert forall|i: int| n <= i < s.len() implies is_space(#[trigger] s[i]) by {
            if i < s.len() - 1 {
                assert(s.drop_last()[i] == s[i]);
            }
        }
    } else {
        assert(s.take(s.len() as int) =~= s);
    }
}

/// What stands before the first separator is the first part.
pub proof fn lemma_split_first<T>(a: Seq<T>, x: T, rest: Seq<T>)
    requires
        !a.contains(x),
    ensures
        split(a + seq![x] + rest, x) == seq![a] + split(rest, x),
{
    let all = a + seq![x] + rest;
    lemma_find_is(all, x, a.len() as int);
    assert(all.take(a.len() as int) =~= a);
    assert(all.skip(a.len() as int + 1) =~= rest);
}

/// A text without a separator is its only part.
pub proof fn lemma_split_last<T>(a: Seq<T>, x: T)
    requires
        !a.contains(x),
    ensures
        split(a, x) == seq![a],
{
    lemma_find_is(a, x, a.len() as int);
}

/// A text contains whatever stands in its middle.
pub proof fn lemma_contains(a: Seq<char>, p: Seq<char>, b: Seq<char>)
    ensures
        contains_text(a + p + b, p),
    decreases a.len(),
{
    let s = a + p + b;
    if a.len() == 0 {
        assert(s.take(p.len() as int) =~= p);
    } else {
        assert(s.skip(1) =~= a.skip(1) + p + b);
        lemma_contains(a.skip(1), p, b);
    }
}

/// The letters from `A` to `Z` are lowered to those from `a` to `z`; every other character stays
/// as it is, and lowering twice is lowering once.
pub proof fn only_capital_letters_are_lowered(c: char)
    ensures
        'A' <= c <= 'Z' ==> lower(c) as int == c as int + 32 && 'a' <= lower(c) <= 'z',
        !('A' <= c <= 'Z') ==> lower(c) == c,
        lower(lower(c)) == lower(c),
{
}

/// A line ends before its line feed, and a carriage return before that does not belong to it.
pub proof fn a_line_ends_before_its_line_feed(line: Seq<char>, rest: Seq<char>)
    requires
        !line.contains('\n'),
        line.len() == 0 || line.last() != '\r',
    ensures
        lines(line + seq!['\n'] + rest) == seq![line] + lines(rest),
        lines(line + seq!['\r', '\n'] + rest) == seq![line] + lines(rest),
        line.len() > 0 ==> lines(line) == seq![line],
{
    let a = line + seq!['\n'] + rest;
    assert forall|j: int| 0 <= j < line.len() implies a[j] != '\n' by {
        assert(a[j] == line[j]);
        assert(line.contains(line[j]));
    }
    lemma_find_is(a, '\n', line.len() as int);
    assert(a.take(line.len() as int) =~= line);
    assert(a.skip(line.len() as int + 1) =~= rest);
    let b = line + seq!['\r', '\n'] + rest;
    let n = line.len() as int + 1;
    assert forall|j: int| 0 <= j < n implies b[j] != '\n' by {
        if j < line.len() {
            assert(b[j] == line[j]);
            assert(line.contains(line[j]));
        }
    }
    lemma_find_is(b, '\n', n);
    assert(b.take(n) =~= line.push('\r'));
    assert(line.push('\r').drop_last() =~= line);
    assert(b.skip(n + 1) =~= rest);
    lemma_find(line, '\n');
}

/// Joined texts stand in their order, with the separator between each two of them.
pub proof fn joined_texts_stand_in_order(parts: Seq<Seq<char>>, last: Seq<char>, sep: Seq<char>)
    ensures
        join(Seq::empty(), sep).len() == 0,
        join(seq![last], sep) == last,
        parts.len() > 0 ==> join(parts.push(last), sep) == join(parts, sep) + sep + last,
{
    assert(parts.push(last).drop_last() =~= parts);
}

/// The dictionary compares texts by their first difference; a text stands before its own
/// continuations.
pub proof fn the_first_difference_decides(
    front: Seq<char>,
    a: char,
    b: char,
    x: Seq<char>,
    y: Seq<char>,
)
    ensures
        a < b ==> before(front + seq![a] + x, front + seq![b] + y),
        before(front, front + seq![a] + x),
        !before(front, front),
    decreases front.len(),
{
    let p = front + seq![a] + x;
    let q = front + seq![b] + y;
    if front.len() == 0 {
        assert(p[0] == a && q[0] == b);
    } else {
        assert(p[0] == front[0] && q[0] == front[0]);
        assert(p.skip(1) =~= front.skip(1) + seq![a] + x);
        assert(q.skip(1) =~= front.skip(1) + seq![b] + y);
        the_first_difference_decides(front.skip(1), a, b, x, y);
    }
}

} // verus!
