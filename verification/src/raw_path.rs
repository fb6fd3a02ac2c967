//! Paths as the bytes that the system keeps. Everything that has a meaning in a path is one
//! byte there, so the rules for paths as text hold of its bytes too, and no byte is lost.

use vstd::prelude::*;
use vstd::slice::slice_subrange;

use crate::config::PlatformTarget;
use crate::environment;
use crate::environment::{copied_bytes, same_bytes, text_bytes};
use crate::path;
use crate::path::{child, is_same_path, last_part_start, trimmed_length};
use crate::text;
use crate::text::{chars_of, sort_texts, string_of};

verus! {

// ---------------------------------------------------------------------------
// Bytes as characters
// ---------------------------------------------------------------------------

/// Bytes as characters, one for one.
pub open spec fn spread(p: Seq<u8>) -> Seq<char> {
    p.map_values(|b: u8| b as char)
}

/// The bytes that such characters stand for.
pub open spec fn gather(s: Seq<char>) -> Seq<u8> {
    s.map_values(|c: char| c as u8)
}

fn spread_bytes(p: &[u8]) -> (r: Vec<char>)
    ensures
        r@ == spread(p@),
{
    let mut out: Vec<char> = Vec::new();
    let mut i: usize = 0;
    while i < p.len()
        invariant
            i <= p.len(),
            out@ =~= spread(p@.take(i as int)),
        decreases p.len() - i,
    {
        out.push(p[i] as char);
        i += 1;
    }
    assert(p@.take(p@.len() as int) =~= p@);
    out
}

fn gathered_bytes(s: &[char]) -> (r: Vec<u8>)
    ensures
        r@ == gather(s@),
{
    let mut out: Vec<u8> = Vec::new();
    let mut i: usize = 0;
    while i < s.len()
        invariant
            i <= s.len(),
            out@ =~= gather(s@.take(i as int)),
        decreases s.len() - i,
    {
        out.push(s[i] as u8);
        i += 1;
    }
    assert(s@.take(s@.len() as int) =~= s@);
    out
}

/// The bytes of ASCII text stand for its own characters.
pub proof fn ascii_text_is_its_bytes(t: Seq<char>)
    requires
        vstd::utf8::is_ascii_chars(t),
    ensures
        spread(environment::bytes_of(t)) == t,
{
    vstd::utf8::is_ascii_chars_encode_utf8(t);
    assert(spread(environment::bytes_of(t)) =~= t);
}

// ---------------------------------------------------------------------------
// Paths
// ---------------------------------------------------------------------------

/// The path `name` taken from the directory `base`.
pub open spec fn join(host: PlatformTarget, base: Seq<u8>, name: Seq<u8>) -> Seq<u8> {
    gather(path::join(host, spread(base), spread(name)))
}

pub fn raw_join(host: PlatformTarget, base: &[u8], name: &[u8]) -> (r: Vec<u8>)
    ensures
        r@ == join(host, base@, name@),
{
    let b = string_of(spread_bytes(base).as_slice());
    let n = string_of(spread_bytes(name).as_slice());
    gathered_bytes(chars_of(child(host, b.as_str(), n.as_str()).as_str()).as_slice())
}

/// The path of a name that is text, taken from the directory `base`.
pub open spec fn join_text(host: PlatformTarget, base: Seq<u8>, name: Seq<char>) -> Seq<u8> {
    join(host, base, environment::bytes_of(name))
}

pub fn raw_child(host: PlatformTarget, base: &[u8], name: &str) -> (r: Vec<u8>)
    ensures
        r@ == join_text(host, base@, name@),
{
    raw_join(host, base, text_bytes(name).as_slice())
}

/// A directory with a name below it that starts at no root and on no volume of its own: the
/// bytes of both are kept, with a separator between them where the directory does not end
/// with one.
pub proof fn a_join_keeps_the_bytes(host: PlatformTarget, base: Seq<u8>, name: Seq<u8>)
    requires
        path::volume_len(host, spread(name)) == 0,
        !path::starts_at_root(host, spread(name)),
    ensures
        text::starts_with(join(host, base, name), base),
        text::ends_with(join(host, base, name), name),
        base.len() + name.len() <= join(host, base, name).len() <= base.len() + 1 + name.len(),
{
    let j = path::join(host, spread(base), spread(name));
    assert(gather(spread(base)) =~= base);
    assert(gather(spread(name)) =~= name);
    assert(gather(j).take(base.len() as int) =~= gather(spread(base)));
    assert(gather(j).skip(j.len() - name.len()) =~= gather(spread(name)));
}

/// The directory that holds a path; nothing for a root, a bare volume or an empty path.
pub open spec fn parent(host: PlatformTarget, p: Seq<u8>) -> Option<Seq<u8>> {
    match path::parent(host, spread(p)) {
        Some(dir) => Some(p.take(dir.len() as int)),
        None => None,
    }
}

pub fn raw_parent(host: PlatformTarget, p: &[u8]) -> (r: Option<Vec<u8>>)
    ensures
        environment::opt_bytes(r) == parent(host, p@),
{
    let all = spread_bytes(p);
    let to: usize = trimmed_length(host, all.as_slice(), all.len());
    let from: usize = last_part_start(host, all.as_slice(), to);
    if from >= to {
        return None;
    }
    let end: usize = trimmed_length(host, all.as_slice(), from);
    assert(p@.take(end as int) =~= p@.subrange(0, end as int));
    Some(copied_bytes(slice_subrange(p, 0, end)))
}

/// Whether a path in bytes is the one that a text writes: elsewhere than on Windows with the
/// same parts, whatever separates them.
pub open spec fn is_path(host: PlatformTarget, p: Seq<u8>, text: Seq<char>) -> bool {
    if host == PlatformTarget::Windows {
        p == environment::bytes_of(text)
    } else {
        path::same_path(spread(p), spread(environment::bytes_of(text)))
    }
}

pub fn is_raw_path(host: PlatformTarget, p: &[u8], text: &str) -> (r: bool)
    ensures
        r == is_path(host, p@, text@),
{
    let other = text_bytes(text);
    if matches!(host, PlatformTarget::Windows) {
        return same_bytes(p, other.as_slice());
    }
    let a = string_of(spread_bytes(p).as_slice());
    let b = string_of(spread_bytes(other.as_slice()).as_slice());
    is_same_path(a.as_str(), b.as_str())
}

// ---------------------------------------------------------------------------
// Order
// ---------------------------------------------------------------------------

/// Some names as characters, each byte for one.
pub open spec fn spread_all(names: Seq<Seq<u8>>) -> Seq<Seq<char>> {
    names.map_values(|n: Seq<u8>| spread(n))
}

/// The same names in the order of their bytes.
pub fn sort_raw(names: &Vec<Vec<u8>>) -> (r: Vec<Vec<u8>>)
    ensures
        text::ascending(spread_all(environment::chunks(r@))),
        spread_all(environment::chunks(r@)).to_multiset() == spread_all(
            environment::chunks(names@),
        ).to_multiset(),
{
    let ghost all = spread_all(environment::chunks(names@));
    let mut keys: Vec<String> = Vec::new();
    let mut i: usize = 0;
    while i < names.len()
        invariant
            i <= names.len(),
            all == spread_all(environment::chunks(names@)),
            text::texts(keys@) =~= all.take(i as int),
        decreases names.len() - i,
    {
        let ghost before = text::texts(keys@);
        keys.push(string_of(spread_bytes(names[i].as_slice()).as_slice()));
        assert(text::texts(keys@) =~= before.push(all[i as int]));
        i += 1;
    }
    assert(all.take(all.len() as int) =~= all);
    let sorted = sort_texts(keys);
    let ghost order = text::texts(sorted@);
    let mut out: Vec<Vec<u8>> = Vec::new();
    let mut i: usize = 0;
    while i < sorted.len()
        invariant
            i <= sorted.len(),
            all == spread_all(environment::chunks(names@)),
            order == text::texts(sorted@),
            order.to_multiset() == all.to_multiset(),
            spread_all(environment::chunks(out@)) =~= order.take(i as int),
        decreases sorted.len() - i,
    {
        let ghost before = spread_all(environment::chunks(out@));
        let name = chars_of(sorted[i].as_str());
        proof {
            order.to_multiset_ensures();
            all.to_multiset_ensures();
            assert(order[i as int] == name@);
            assert(order.contains(name@));
            assert(order.to_multiset().count(name@) > 0);
            assert(all.to_multiset().count(name@) > 0);
            assert(all.contains(name@));
            let k = choose|k: int| 0 <= k < all.len() && all[k] == name@;
            assert(name@ == spread(names@[k]@));
            assert(spread(gather(name@)) =~= name@) by {
                assert(gather(spread(names@[k]@)) =~= names@[k]@);
            }
        }
        out.push(gathered_bytes(name.as_slice()));
        assert(spread_all(environment::chunks(out@)) =~= before.push(order[i as int]));
        i += 1;
    }
    assert(order.take(order.len() as int) =~= order);
    out
}

} // verus!
