//! Search paths: lists of directories in one variable, by the rules of the platform.

use vstd::prelude::*;

use crate::config::PlatformTarget;
use crate::environment;
use crate::environment::{
    byte_position, chunks, copied_bytes, copied_chunks, environment_value, set_environment_value, split_bytes,
    text_bytes, Vars,
};
use crate::text;

verus! {

/// The byte between two directories.
pub open spec fn delimiter(platform: PlatformTarget) -> u8 {
    if platform == PlatformTarget::Windows {
        0x3b
    } else {
        0x3a
    }
}

pub fn delimiter_of(platform: PlatformTarget) -> (r: u8)
    ensures
        r == delimiter(platform),
{
    if matches!(platform, PlatformTarget::Windows) {
        0x3b
    } else {
        0x3a
    }
}

/// On Windows a semicolon between quotes does not end a directory, and quotes do not belong
/// to it.
pub open spec fn split_quoted(v: Seq<u8>, quoted: bool, current: Seq<u8>) -> Seq<Seq<u8>>
    decreases v.len(),
{
    if v.len() == 0 {
        seq![current]
    } else if v[0] == 0x22 {
        split_quoted(v.skip(1), !quoted, current)
    } else if v[0] == 0x3b && !quoted {
        seq![current] + split_quoted(v.skip(1), false, Seq::empty())
    } else {
        split_quoted(v.skip(1), quoted, current.push(v[0]))
    }
}

/// The directories of a search path.
pub open spec fn directories(platform: PlatformTarget, v: Seq<u8>) -> Seq<Seq<u8>> {
    if platform == PlatformTarget::Windows {
        split_quoted(v, false, Seq::empty())
    } else {
        text::split(v, 0x3au8)
    }
}

pub fn split_paths(platform: PlatformTarget, v: &[u8]) -> (r: Vec<Vec<u8>>)
    ensures
        chunks(r@) == directories(platform, v@),
{
    if !matches!(platform, PlatformTarget::Windows) {
        return split_bytes(v, 0x3a);
    }
    let mut out: Vec<Vec<u8>> = Vec::new();
    let mut current: Vec<u8> = Vec::new();
    let mut quoted = false;
    let mut i: usize = 0;
    assert(v@.skip(0) == v@);
    assert(chunks(out@) + split_quoted(v@, false, Seq::empty()) =~= directories(platform, v@));
    while i < v.len()
        invariant
            i <= v.len(),
            chunks(out@) + split_quoted(v@.skip(i as int), quoted, current@) == directories(
                platform,
                v@,
            ),
        decreases v.len() - i,
    {
        let ghost rest = v@.skip(i as int);
        assert(rest.skip(1) == v@.skip(i as int + 1));
        let b: u8 = v[i];
        if b == 0x22 {
            quoted = !quoted;
        } else if b == 0x3b && !quoted {
            let ghost before = chunks(out@);
            let ghost done = current@;
            let ghost after = split_quoted(rest.skip(1), false, Seq::empty());
            out.push(current);
            current = Vec::new();
            assert(chunks(out@) =~= before.push(done));
            assert(before.push(done) + after =~= before + (seq![done] + after));
            assert(current@ =~= Seq::<u8>::empty());
        } else {
            current.push(b);
        }
        i += 1;
    }
    assert(v@.skip(i as int) =~= Seq::<u8>::empty());
    let ghost before = chunks(out@);
    let ghost last = current@;
    out.push(current);
    assert(chunks(out@) =~= before + seq![last]);
    out
}

/// A directory as it stands in a search path; nothing where it cannot stand in one.
pub open spec fn listed(platform: PlatformTarget, dir: Seq<u8>) -> Option<Seq<u8>> {
    if platform == PlatformTarget::Windows {
        if dir.contains(0x22u8) {
            None
        } else if dir.contains(0x3bu8) {
            Some(seq![0x22u8] + dir + seq![0x22u8])
        } else {
            Some(dir)
        }
    } else if dir.contains(0x3au8) {
        None
    } else {
        Some(dir)
    }
}

fn list_directory(platform: PlatformTarget, dir: &[u8]) -> (r: Option<Vec<u8>>)
    ensures
        environment::opt_bytes(r) == listed(platform, dir@),
{
    proof {
        text::lemma_find(dir@, 0x22u8);
        text::lemma_find(dir@, 0x3bu8);
        text::lemma_find(dir@, 0x3au8);
    }
    if matches!(platform, PlatformTarget::Windows) {
        if byte_position(dir, 0x22) < dir.len() {
            return None;
        }
        if byte_position(dir, 0x3b) < dir.len() {
            let mut out: Vec<u8> = Vec::new();
            out.push(0x22);
            let mut body = copied_bytes(dir);
            out.append(&mut body);
            out.push(0x22);
            assert(out@ =~= seq![0x22u8] + dir@ + seq![0x22u8]);
            return Some(out);
        }
        return Some(copied_bytes(dir));
    }
    if byte_position(dir, 0x3a) < dir.len() {
        return None;
    }
    Some(copied_bytes(dir))
}

/// The search path of some directories; nothing where one of them cannot stand in it.
pub open spec fn search_path(platform: PlatformTarget, dirs: Seq<Seq<u8>>) -> Option<Seq<u8>>
    decreases dirs.len(),
{
    if dirs.len() == 0 {
        Some(Seq::empty())
    } else {
        match listed(platform, dirs[0]) {
            None => None,
            Some(first) => if dirs.len() == 1 {
                Some(first)
            } else {
                match search_path(platform, dirs.skip(1)) {
                    None => None,
                    Some(rest) => Some(first + seq![delimiter(platform)] + rest),
                }
            },
        }
    }
}

pub fn join_paths(platform: PlatformTarget, dirs: &Vec<Vec<u8>>) -> (r: Option<Vec<u8>>)
    ensures
        environment::opt_bytes(r) == search_path(platform, chunks(dirs@)),
{
    let ghost all = chunks(dirs@);
    let mut out: Vec<u8> = Vec::new();
    if dirs.len() == 0 {
        assert(out@ =~= Seq::<u8>::empty());
        return Some(out);
    }
    let mut i: usize = 0;
    assert(all.skip(0) == all);
    while i < dirs.len()
        invariant
            i <= dirs.len(),
            dirs.len() > 0,
            all == chunks(dirs@),
            i < dirs.len() ==> search_path(platform, all) == (match search_path(
                platform,
                all.skip(i as int),
            ) {
                Some(rest) => Some(out@ + rest),
                None => None,
            }),
            i == dirs.len() ==> search_path(platform, all) == Some(out@),
        decreases dirs.len() - i,
    {
        let ghost rest = all.skip(i as int);
        let ghost before = out@;
        assert(rest[0] == dirs@[i as int]@);
        let first = match list_directory(platform, dirs[i].as_slice()) {
            Some(first) => first,
            None => return None,
        };
        let ghost f = first@;
        let mut first = first;
        out.append(&mut first);
        if i + 1 < dirs.len() {
            out.push(delimiter_of(platform));
            assert(rest.skip(1) == all.skip(i as int + 1));
            assert forall|tail: Seq<u8>| before + (f + seq![delimiter(platform)] + tail) == #[trigger] (
            out@ + tail) by {
                assert(before + (f + seq![delimiter(platform)] + tail) =~= out@ + tail);
            }
        } else {
            assert(rest.len() == 1);
            assert(out@ =~= before + f);
        }
        i += 1;
    }
    Some(out)
}

// ---------------------------------------------------------------------------
// The search path of a service
// ---------------------------------------------------------------------------

/// The directories that are not empty.
pub open spec fn filled_dirs(dirs: Seq<Seq<u8>>) -> Seq<Seq<u8>>
    decreases dirs.len(),
{
    if dirs.len() == 0 {
        Seq::empty()
    } else if dirs.last().len() > 0 {
        filled_dirs(dirs.drop_last()).push(dirs.last())
    } else {
        filled_dirs(dirs.drop_last())
    }
}

fn keep_filled(dirs: &Vec<Vec<u8>>) -> (r: Vec<Vec<u8>>)
    ensures
        chunks(r@) == filled_dirs(chunks(dirs@)),
{
    let ghost all = chunks(dirs@);
    let mut out: Vec<Vec<u8>> = Vec::new();
    let mut i: usize = 0;
    assert(chunks(out@) =~= filled_dirs(all.take(0)));
    while i < dirs.len()
        invariant
            i <= dirs.len(),
            all == chunks(dirs@),
            chunks(out@) == filled_dirs(all.take(i as int)),
        decreases dirs.len() - i,
    {
        let ghost next = all.take(i as int + 1);
        let ghost before = chunks(out@);
        assert(next.drop_last() == all.take(i as int));
        assert(next.last() == dirs@[i as int]@);
        if dirs[i].len() > 0 {
            out.push(copied_bytes(dirs[i].as_slice()));
            assert(chunks(out@) =~= before.push(next.last()));
        }
        i += 1;
    }
    assert(all.take(all.len() as int) == all);
    out
}

/// The bytes of some paths.
pub open spec fn paths_bytes(paths: Seq<Seq<char>>) -> Seq<Seq<u8>> {
    paths.map_values(|p: Seq<char>| environment::bytes_of(p))
}

pub fn bytes_of_paths(paths: &Vec<String>) -> (r: Vec<Vec<u8>>)
    ensures
        chunks(r@) == paths_bytes(text::texts(paths@)),
{
    let mut out: Vec<Vec<u8>> = Vec::new();
    let mut i: usize = 0;
    while i < paths.len()
        invariant
            i <= paths.len(),
            out@.len() == i,
            forall|j: int|
                0 <= j < i ==> (#[trigger] out@[j])@ == environment::bytes_of(paths@[j]@),
        decreases paths.len() - i,
    {
        out.push(text_bytes(paths[i].as_str()));
        i += 1;
    }
    assert(chunks(out@) =~= paths_bytes(text::texts(paths@)));
    out
}

pub open spec fn path_key() -> Seq<u8> {
    environment::bytes_of("PATH"@)
}

/// The directories that are searched: those of the variable, or of the inherited one where
/// the variable is not set.
pub open spec fn searched(
    platform: PlatformTarget,
    vars: Seq<(Seq<u8>, Seq<u8>)>,
    inherited: Option<Seq<u8>>,
) -> Seq<Seq<u8>> {
    match environment::var_value(platform, vars, path_key()) {
        Some(v) => filled_dirs(directories(platform, v)),
        None => match inherited {
            Some(v) => filled_dirs(directories(platform, v)),
            None => Seq::empty(),
        },
    }
}

fn searched_directories(platform: PlatformTarget, envs: &Vars, inherited: Option<&[u8]>) -> (r: Vec<
    Vec<u8>,
>)
    ensures
        chunks(r@) == searched(
            platform,
            environment::vars_view(envs@),
            match inherited {
                Some(v) => Some(v@),
                None => None,
            },
        ),
{
    match environment_value(platform, envs, text_bytes("PATH").as_slice()) {
        Some(v) => keep_filled(&split_paths(platform, v.as_slice())),
        None => match inherited {
            Some(v) => keep_filled(&split_paths(platform, v)),
            None => {
                let none: Vec<Vec<u8>> = Vec::new();
                assert(chunks(none@) =~= Seq::<Seq<u8>>::empty());
                none
            },
        },
    }
}

/// The variables with the search path set to these directories, unless one of them cannot
/// stand in it.
pub open spec fn searching(
    platform: PlatformTarget,
    vars: Seq<(Seq<u8>, Seq<u8>)>,
    dirs: Seq<Seq<u8>>,
) -> Seq<(Seq<u8>, Seq<u8>)> {
    match search_path(platform, dirs) {
        Some(v) => environment::with_var(platform, vars, path_key(), v),
        None => vars,
    }
}

fn set_searched(platform: PlatformTarget, envs: &mut Vars, dirs: &Vec<Vec<u8>>)
    ensures
        environment::vars_view(final(envs)@) == searching(
            platform,
            environment::vars_view(old(envs)@),
            chunks(dirs@),
        ),
{
    if let Some(v) = join_paths(platform, dirs) {
        set_environment_value(platform, envs, text_bytes("PATH").as_slice(), v.as_slice());
    }
}

/// The variables with the entries searched before everything else.
pub open spec fn prepended(
    platform: PlatformTarget,
    vars: Seq<(Seq<u8>, Seq<u8>)>,
    entries: Seq<Seq<u8>>,
    inherited: Option<Seq<u8>>,
) -> Seq<(Seq<u8>, Seq<u8>)> {
    if entries.len() == 0 {
        vars
    } else {
        searching(platform, vars, entries + searched(platform, vars, inherited))
    }
}

/// The variables with the entries searched after everything else.
pub open spec fn appended(
    platform: PlatformTarget,
    vars: Seq<(Seq<u8>, Seq<u8>)>,
    entries: Seq<Seq<u8>>,
    inherited: Option<Seq<u8>>,
) -> Seq<(Seq<u8>, Seq<u8>)> {
    if entries.len() == 0 {
        vars
    } else {
        searching(platform, vars, searched(platform, vars, inherited) + entries)
    }
}

pub open spec fn opt_slice(v: Option<&[u8]>) -> Option<Seq<u8>> {
    match v {
        Some(b) => Some(b@),
        None => None,
    }
}

pub fn prepend_service_path(
    platform: PlatformTarget,
    envs: &mut Vars,
    entries: &Vec<Vec<u8>>,
    inherited: Option<&[u8]>,
)
    ensures
        environment::vars_view(final(envs)@) == prepended(
            platform,
            environment::vars_view(old(envs)@),
            chunks(entries@),
            opt_slice(inherited),
        ),
{
    if entries.len() == 0 {
        return ;
    }
    let mut parts = copied_chunks(entries);
    let mut rest = searched_directories(platform, envs, inherited);
    let ghost a = chunks(parts@);
    let ghost b = chunks(rest@);
    parts.append(&mut rest);
    assert(chunks(parts@) =~= a + b);
    set_searched(platform, envs, &parts);
}

pub fn append_service_path(
    platform: PlatformTarget,
    envs: &mut Vars,
    entries: &Vec<Vec<u8>>,
    inherited: Option<&[u8]>,
)
    ensures
        environment::vars_view(final(envs)@) == appended(
            platform,
            environment::vars_view(old(envs)@),
            chunks(entries@),
            opt_slice(inherited),
        ),
{
    if entries.len() == 0 {
        return ;
    }
    let mut parts = searched_directories(platform, envs, inherited);
    let mut more = copied_chunks(entries);
    let ghost a = chunks(parts@);
    let ghost b = chunks(more@);
    parts.append(&mut more);
    assert(chunks(parts@) =~= a + b);
    set_searched(platform, envs, &parts);
}

// ---------------------------------------------------------------------------
// Reading back what was written
// ---------------------------------------------------------------------------

pub proof fn lemma_split_front(a: Seq<u8>, x: u8, rest: Seq<u8>)
    requires
        !a.contains(x),
    ensures
        text::split(a + seq![x] + rest, x) == seq![a] + text::split(rest, x),
{
    let v = a + seq![x] + rest;
    assert forall|j: int| 0 <= j < a.len() implies v[j] != x by {
        assert(v[j] == a[j]);
        assert(a.contains(a[j]));
    }
    text::lemma_find_is(v, x, a.len() as int);
    assert(v.take(a.len() as int) =~= a);
    assert(v.skip(a.len() as int + 1) =~= rest);
}

pub proof fn lemma_split_whole(a: Seq<u8>, x: u8)
    requires
        !a.contains(x),
    ensures
        text::split(a, x) == seq![a],
{
    text::lemma_find(a, x);
}

proof fn lemma_quoted_part(p: Seq<u8>, quoted: bool, current: Seq<u8>, rest: Seq<u8>)
    requires
        !p.contains(0x22u8),
        !quoted ==> !p.contains(0x3bu8),
    ensures
        split_quoted(p + rest, quoted, current) == split_quoted(rest, quoted, current + p),
    decreases p.len(),
{
    if p.len() == 0 {
        assert(p + rest =~= rest);
        assert(current + p =~= current);
    } else {
        assert(p.contains(p[0]));
        let v = p + rest;
        assert(v[0] == p[0]);
        assert(v.skip(1) =~= p.skip(1) + rest);
        assert(!p.skip(1).contains(0x22u8)) by {
            if p.skip(1).contains(0x22u8) {
                let k = choose|k: int| 0 <= k < p.skip(1).len() && p.skip(1)[k] == 0x22u8;
                assert(p[k + 1] == 0x22u8);
            }
        }
        assert(!quoted ==> !p.skip(1).contains(0x3bu8)) by {
            if p.skip(1).contains(0x3bu8) {
                let k = choose|k: int| 0 <= k < p.skip(1).len() && p.skip(1)[k] == 0x3bu8;
                assert(p[k + 1] == 0x3bu8);
            }
        }
        lemma_quoted_part(p.skip(1), quoted, current.push(p[0]), rest);
        assert(current.push(p[0]) + p.skip(1) =~= current + p);
    }
}

/// A listed directory, read back, is the directory.
proof fn lemma_listed_read(dir: Seq<u8>, rest: Seq<u8>)
    requires
        listed(PlatformTarget::Windows, dir) is Some,
    ensures
        split_quoted(
            listed(PlatformTarget::Windows, dir)->0 + rest,
            false,
            Seq::empty(),
        ) == split_quoted(rest, false, dir),
{
    let l = listed(PlatformTarget::Windows, dir)->0;
    if dir.contains(0x3bu8) {
        let v = l + rest;
        let tail = seq![0x22u8] + rest;
        assert(v[0] == 0x22u8);
        assert(v.skip(1) =~= dir + tail);
        lemma_quoted_part(dir, true, Seq::empty(), tail);
        assert(Seq::<u8>::empty() + dir =~= dir);
        assert(tail.skip(1) =~= rest);
    } else {
        lemma_quoted_part(dir, false, Seq::empty(), rest);
        assert(Seq::<u8>::empty() + dir =~= dir);
    }
}

/// A search path gives back the directories that it was made of.
pub proof fn a_search_path_is_read_back(platform: PlatformTarget, dirs: Seq<Seq<u8>>)
    requires
        dirs.len() > 0,
        search_path(platform, dirs) is Some,
    ensures
        directories(platform, search_path(platform, dirs)->0) == dirs,
    decreases dirs.len(),
{
    let first = dirs[0];
    let l = listed(platform, first)->0;
    if dirs.len() == 1 {
        assert(dirs =~= seq![first]);
        if platform == PlatformTarget::Windows {
            lemma_listed_read(first, Seq::empty());
            assert(l + Seq::<u8>::empty() =~= l);
        } else {
            lemma_split_whole(first, 0x3au8);
        }
    } else {
        a_search_path_is_read_back(platform, dirs.skip(1));
        let rest = search_path(platform, dirs.skip(1))->0;
        let d = seq![delimiter(platform)];
        assert(dirs =~= seq![first] + dirs.skip(1));
        if platform == PlatformTarget::Windows {
            lemma_listed_read(first, d + rest);
            assert(l + d + rest =~= l + (d + rest));
            assert((d + rest)[0] == 0x3bu8);
            assert((d + rest).skip(1) =~= rest);
        } else {
            lemma_split_front(first, 0x3au8, rest);
        }
    }
}

proof fn lemma_filled(dirs: Seq<Seq<u8>>)
    requires
        forall|i: int| 0 <= i < dirs.len() ==> (#[trigger] dirs[i]).len() > 0,
    ensures
        filled_dirs(dirs) == dirs,
    decreases dirs.len(),
{
    if dirs.len() > 0 {
        lemma_filled(dirs.drop_last());
        assert(dirs.drop_last().push(dirs.last()) =~= dirs);
    }
}

proof fn lemma_filled_are_filled(dirs: Seq<Seq<u8>>)
    ensures
        forall|i: int|
            0 <= i < filled_dirs(dirs).len() ==> (#[trigger] filled_dirs(dirs)[i]).len() > 0,
    decreases dirs.len(),
{
    if dirs.len() > 0 {
        lemma_filled_are_filled(dirs.drop_last());
        let front = filled_dirs(dirs.drop_last());
        assert forall|i: int| 0 <= i < filled_dirs(dirs).len() implies (#[trigger] filled_dirs(
            dirs,
        )[i]).len() > 0 by {
            if i < front.len() {
                assert(filled_dirs(dirs)[i] == front[i]);
            }
        }
    }
}

/// A service that the launcher installed finds its own directories first, and everything
/// else in the order in which it was found before.
pub proof fn prepended_directories_are_searched_first(
    platform: PlatformTarget,
    vars: Seq<(Seq<u8>, Seq<u8>)>,
    entries: Seq<Seq<u8>>,
    inherited: Option<Seq<u8>>,
)
    requires
        entries.len() > 0,
        forall|i: int| 0 <= i < entries.len() ==> (#[trigger] entries[i]).len() > 0,
        search_path(platform, entries + searched(platform, vars, inherited)) is Some,
    ensures
        searched(platform, prepended(platform, vars, entries, inherited), inherited) == entries
            + searched(platform, vars, inherited),
{
    let dirs = entries + searched(platform, vars, inherited);
    lemma_searching(platform, vars, dirs, inherited, entries);
}

/// A service that was installed otherwise finds everything in the order in which it was
/// found before, and its own directory last.
pub proof fn appended_directories_are_searched_last(
    platform: PlatformTarget,
    vars: Seq<(Seq<u8>, Seq<u8>)>,
    entries: Seq<Seq<u8>>,
    inherited: Option<Seq<u8>>,
)
    requires
        entries.len() > 0,
        forall|i: int| 0 <= i < entries.len() ==> (#[trigger] entries[i]).len() > 0,
        search_path(platform, searched(platform, vars, inherited) + entries) is Some,
    ensures
        searched(platform, appended(platform, vars, entries, inherited), inherited) == searched(
            platform,
            vars,
            inherited,
        ) + entries,
{
    let dirs = searched(platform, vars, inherited) + entries;
    lemma_searching(platform, vars, dirs, inherited, entries);
}

proof fn lemma_searching(
    platform: PlatformTarget,
    vars: Seq<(Seq<u8>, Seq<u8>)>,
    dirs: Seq<Seq<u8>>,
    inherited: Option<Seq<u8>>,
    entries: Seq<Seq<u8>>,
)
    requires
        dirs.len() > 0,
        dirs == entries + searched(platform, vars, inherited) || dirs == searched(
            platform,
            vars,
            inherited,
        ) + entries,
        forall|i: int| 0 <= i < entries.len() ==> (#[trigger] entries[i]).len() > 0,
        search_path(platform, dirs) is Some,
    ensures
        searched(platform, searching(platform, vars, dirs), inherited) == dirs,
{
    let v = search_path(platform, dirs)->0;
    environment::setting_a_variable_sets_it(platform, vars, path_key(), v);
    a_search_path_is_read_back(platform, dirs);
    let old_dirs = searched(platform, vars, inherited);
    match environment::var_value(platform, vars, path_key()) {
        Some(p) => lemma_filled_are_filled(directories(platform, p)),
        None => {
            if let Some(p) = inherited {
                lemma_filled_are_filled(directories(platform, p));
            }
        },
    }
    assert forall|i: int| 0 <= i < dirs.len() implies (#[trigger] dirs[i]).len() > 0 by {
        if dirs == entries + old_dirs {
            if i < entries.len() {
                assert(dirs[i] == entries[i]);
            } else {
                assert(dirs[i] == old_dirs[i - entries.len()]);
            }
        } else {
            if i < old_dirs.len() {
                assert(dirs[i] == old_dirs[i]);
            } else {
                assert(dirs[i] == entries[i - old_dirs.len()]);
            }
        }
    }
    lemma_filled(dirs);
}

/// The directories that are not empty, in their order.
pub proof fn empty_directories_are_left_out(dirs: Seq<Seq<u8>>)
    ensures
        filled_dirs(dirs) == dirs.filter(|d: Seq<u8>| d.len() > 0),
    decreases dirs.len(),
{
    reveal(Seq::filter);
    if dirs.len() > 0 {
        empty_directories_are_left_out(dirs.drop_last());
    }
}

/// The search path of commands is the variable `PATH`.
pub proof fn commands_are_searched_by_path()
    ensures
        path_key() == environment::bytes_of("PATH"@),
{
}

/// The variable `PATH` is searched if it is set, and what was inherited only if it is not.
pub proof fn the_variable_counts_before_what_was_inherited(
    platform: PlatformTarget,
    vars: Seq<(Seq<u8>, Seq<u8>)>,
    inherited: Option<Seq<u8>>,
)
    ensures
        ({
            let set = environment::var_value(platform, vars, environment::bytes_of("PATH"@));
            let dirs = |v: Seq<u8>| directories(platform, v).filter(|d: Seq<u8>| d.len() > 0);
            &&& set is Some ==> searched(platform, vars, inherited) == dirs(set->0)
            &&& set is None && inherited is Some ==> searched(platform, vars, inherited) == dirs(
                inherited->0,
            )
            &&& set is None && inherited is None ==> searched(platform, vars, inherited).len() == 0
        }),
        delimiter(PlatformTarget::Windows) == 0x3b,
        delimiter(PlatformTarget::Unix) == 0x3a,
        delimiter(PlatformTarget::MacOS) == 0x3a,
{
    let set = environment::var_value(platform, vars, environment::bytes_of("PATH"@));
    if set is Some {
        empty_directories_are_left_out(directories(platform, set->0));
    } else if inherited is Some {
        empty_directories_are_left_out(directories(platform, inherited->0));
    }
}

} // verus!
