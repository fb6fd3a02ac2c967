//! Where the DSH command is: at the place that the user names, on the search path, where
//! the login shell finds it, or where it is usually installed.

use vstd::prelude::*;

use crate::config;
use crate::config::{home_dir_for, is_blank, EnvLookup, PlatformTarget};
use crate::environment;
use crate::environment::{copied_bytes, copied_chunks, text_bytes};
use crate::login_shell::holds_text;
use crate::path;
use crate::path::{extended, suffixed};
use crate::raw_path;
use crate::raw_path::{raw_child, raw_join, sort_raw};
use crate::search_path;
use crate::search_path::{bytes_of_paths, split_paths};
use crate::text;
use crate::text::{chars_of, equal, lower_case, split_at_char, string_of, trimmed};
use crate::update::clone_text;

verus! {

// ---------------------------------------------------------------------------
// Names of the command
// ---------------------------------------------------------------------------

/// An extension as a list writes it, in lower case and with its dot.
pub open spec fn extension_of(token: Seq<char>) -> Option<Seq<char>> {
    let t = text::lowered(text::trim(token));
    if t.len() == 0 {
        None
    } else if t[0] == '.' {
        Some(t)
    } else {
        Some("."@ + t)
    }
}

pub open spec fn is_script_extension(e: Seq<char>) -> bool {
    e == ".cmd"@ || e == ".bat"@
}

/// The extensions with those script extensions of the list added that are not there yet.
pub open spec fn with_listed(exts: Seq<Seq<char>>, tokens: Seq<Seq<char>>) -> Seq<Seq<char>>
    decreases tokens.len(),
{
    if tokens.len() == 0 {
        exts
    } else {
        let front = with_listed(exts, tokens.drop_last());
        match extension_of(tokens.last()) {
            Some(e) => if is_script_extension(e) && !front.contains(e) {
                front.push(e)
            } else {
                front
            },
            None => front,
        }
    }
}

pub open spec fn with_extension(exts: Seq<Seq<char>>, e: Seq<char>) -> Seq<Seq<char>> {
    if exts.contains(e) {
        exts
    } else {
        exts.push(e)
    }
}

/// The extensions that the command may have on Windows: a program first, then scripts in
/// the order of the system's list, then the scripts that the list leaves out.
pub open spec fn command_extensions(pathext: Option<Seq<char>>) -> Seq<Seq<char>> {
    let first = seq![".exe"@];
    let listed = match pathext {
        Some(value) => with_listed(first, text::split(value, ';')),
        None => first,
    };
    with_extension(with_extension(listed, ".cmd"@), ".bat"@)
}

pub open spec fn opt_str(s: Option<&str>) -> Option<Seq<char>> {
    match s {
        Some(s) => Some(s@),
        None => None,
    }
}

fn add_extension(exts: &mut Vec<String>, e: &str)
    ensures
        text::texts(final(exts)@) == with_extension(text::texts(old(exts)@), e@),
{
    let ghost before = text::texts(exts@);
    if !holds_text(exts, e) {
        exts.push(e.to_string());
        assert(text::texts(exts@) =~= before.push(e@));
    }
}

fn listed_extension(token: &[char]) -> (r: Option<String>)
    ensures
        text::opt_text(r) == extension_of(token@),
{
    let t = lower_case(trimmed(token));
    if t.len() == 0 {
        None
    } else if t[0] == '.' {
        Some(string_of(t.as_slice()))
    } else {
        Some(".".to_string().concat(string_of(t.as_slice()).as_str()))
    }
}

pub fn windows_extensions(pathext: Option<&str>) -> (r: Vec<String>)
    ensures
        text::texts(r@) == command_extensions(opt_str(pathext)),
{
    let mut exts: Vec<String> = Vec::new();
    exts.push(".exe".to_string());
    assert(text::texts(exts@) =~= seq![".exe"@]);
    if let Some(value) = pathext {
        let tokens = split_at_char(chars_of(value).as_slice(), ';');
        let ghost all = text::split(value@, ';');
        let ghost first = text::texts(exts@);
        let mut i: usize = 0;
        assert(with_listed(first, all.take(0)) =~= first);
        while i < tokens.len()
            invariant
                i <= tokens.len(),
                text::pieces(tokens@) == all,
                text::texts(exts@) == with_listed(first, all.take(i as int)),
            decreases tokens.len() - i,
        {
            let ghost next = all.take(i as int + 1);
            let ghost before = text::texts(exts@);
            assert(next.drop_last() == all.take(i as int));
            assert(next.last() == tokens@[i as int]@);
            if let Some(e) = listed_extension(tokens[i].as_slice()) {
                if (equal(e.as_str(), ".cmd") || equal(e.as_str(), ".bat")) && !holds_text(
                    &exts,
                    e.as_str(),
                ) {
                    let ghost added = e@;
                    exts.push(e);
                    assert(text::texts(exts@) =~= before.push(added));
                }
            }
            i += 1;
        }
        assert(all.take(all.len() as int) == all);
    }
    add_extension(&mut exts, ".cmd");
    add_extension(&mut exts, ".bat");
    exts
}

/// The files in a directory that may be the command, the preferred one first: on Windows with
/// each of the extensions. `host` says how a path is joined.
pub open spec fn commands_in(
    host: PlatformTarget,
    dir: Seq<u8>,
    windows: bool,
    pathext: Option<Seq<char>>,
) -> Seq<Seq<u8>> {
    if windows {
        command_extensions(pathext).map_values(
            |e: Seq<char>| raw_path::join_text(host, dir, "dsh"@ + e),
        )
    } else {
        seq![raw_path::join_text(host, dir, "dsh"@)]
    }
}

pub fn dsh_candidates(
    host: PlatformTarget,
    dir: &[u8],
    windows: bool,
    pathext: Option<&str>,
) -> (r: Vec<Vec<u8>>)
    ensures
        environment::chunks(r@) == commands_in(host, dir@, windows, opt_str(pathext)),
{
    let mut out: Vec<Vec<u8>> = Vec::new();
    if !windows {
        out.push(raw_child(host, dir, "dsh"));
        assert(environment::chunks(out@) =~= commands_in(host, dir@, windows, opt_str(pathext)));
        return out;
    }
    let exts = windows_extensions(pathext);
    let ghost all = command_extensions(opt_str(pathext));
    let mut i: usize = 0;
    while i < exts.len()
        invariant
            i <= exts.len(),
            text::texts(exts@) == all,
            out@.len() == i,
            forall|j: int|
                0 <= j < i ==> (#[trigger] out@[j])@ == raw_path::join_text(
                    host,
                    dir@,
                    "dsh"@ + all[j],
                ),
        decreases exts.len() - i,
    {
        assert(all[i as int] == exts@[i as int]@);
        let name = "dsh".to_string().concat(exts[i].as_str());
        out.push(raw_child(host, dir, name.as_str()));
        i += 1;
    }
    assert(environment::chunks(out@) =~= commands_in(host, dir@, windows, opt_str(pathext)));
    out
}

// ---------------------------------------------------------------------------
// Usual places
// ---------------------------------------------------------------------------

/// The directories in which Windows tools that install the command put it.
pub struct ToolDirs {
    pub home: Option<Vec<u8>>,
    pub appdata: Option<Vec<u8>>,
    pub nvm_symlink: Option<Vec<u8>>,
    pub nvm_home: Option<Vec<u8>>,
    pub program_files: Option<Vec<u8>>,
}

/// The bytes of a text, where there is one.
pub open spec fn encoded(value: Option<Seq<char>>) -> Option<Seq<u8>> {
    match value {
        Some(v) => Some(environment::bytes_of(v)),
        None => None,
    }
}

fn encoded_text(value: Option<String>) -> (r: Option<Vec<u8>>)
    ensures
        environment::opt_bytes(r) == encoded(text::opt_text(value)),
{
    match value {
        Some(v) => Some(text_bytes(v.as_str())),
        None => None,
    }
}

pub open spec fn commands_in_opt(
    host: PlatformTarget,
    dir: Option<Seq<u8>>,
    pathext: Option<Seq<char>>,
) -> Seq<Seq<u8>> {
    match dir {
        Some(d) => commands_in(host, d, true, pathext),
        None => Seq::empty(),
    }
}

pub open spec fn below(host: PlatformTarget, dir: Option<Seq<u8>>, name: Seq<char>) -> Option<
    Seq<u8>,
> {
    match dir {
        Some(d) => Some(raw_path::join_text(host, d, name)),
        None => None,
    }
}

/// The directory of roaming application data.
pub open spec fn roaming(
    host: PlatformTarget,
    appdata: Option<Seq<u8>>,
    home: Option<Seq<u8>>,
) -> Option<Seq<u8>> {
    match appdata {
        Some(d) => Some(d),
        None => below(host, below(host, home, "AppData"@), "Roaming"@),
    }
}

/// The usual places of the command on Windows: npm's global directory, nvm's directories,
/// that of Node.js, Scoop's shims and a private npm prefix.
pub open spec fn usual_windows_places(
    host: PlatformTarget,
    home: Option<Seq<u8>>,
    appdata: Option<Seq<u8>>,
    nvm_symlink: Option<Seq<u8>>,
    nvm_home: Option<Seq<u8>>,
    program_files: Option<Seq<u8>>,
    pathext: Option<Seq<char>>,
) -> Seq<Seq<u8>> {
    commands_in_opt(host, below(host, roaming(host, appdata, home), "npm"@), pathext)
        + commands_in_opt(host, nvm_symlink, pathext) + commands_in_opt(host, nvm_home, pathext)
        + commands_in_opt(host, below(host, program_files, "nodejs"@), pathext) + commands_in_opt(
        host,
        below(host, below(host, home, "scoop"@), "shims"@),
        pathext,
    ) + (match below(host, below(host, home, ".npm-global"@), "dsh.cmd"@) {
        Some(place) => seq![place],
        None => Seq::empty(),
    })
}

impl ToolDirs {
    pub open spec fn places(self, host: PlatformTarget, pathext: Option<Seq<char>>) -> Seq<
        Seq<u8>,
    > {
        usual_windows_places(
            host,
            environment::opt_bytes(self.home),
            environment::opt_bytes(self.appdata),
            environment::opt_bytes(self.nvm_symlink),
            environment::opt_bytes(self.nvm_home),
            environment::opt_bytes(self.program_files),
            pathext,
        )
    }
}

fn add_commands(
    host: PlatformTarget,
    out: &mut Vec<Vec<u8>>,
    dir: &Option<Vec<u8>>,
    pathext: Option<&str>,
)
    ensures
        environment::chunks(final(out)@) == environment::chunks(old(out)@) + commands_in_opt(
            host,
            environment::opt_bytes(*dir),
            opt_str(pathext),
        ),
{
    let ghost before = environment::chunks(out@);
    if let Some(dir) = dir {
        let mut more = dsh_candidates(host, dir.as_slice(), true, pathext);
        let ghost added = environment::chunks(more@);
        out.append(&mut more);
        assert(environment::chunks(out@) =~= before + added);
    } else {
        assert(before + Seq::<Seq<u8>>::empty() =~= before);
    }
}

fn below_dir(host: PlatformTarget, dir: &Option<Vec<u8>>, name: &str) -> (r: Option<Vec<u8>>)
    ensures
        environment::opt_bytes(r) == below(host, environment::opt_bytes(*dir), name@),
{
    match dir {
        Some(d) => Some(raw_child(host, d.as_slice(), name)),
        None => None,
    }
}

pub fn usual_places(host: PlatformTarget, d: &ToolDirs, pathext: Option<&str>) -> (r: Vec<Vec<u8>>)
    ensures
        environment::chunks(r@) == d.places(host, opt_str(pathext)),
{
    let appdata = match &d.appdata {
        Some(dir) => Some(copied_bytes(dir.as_slice())),
        None => below_dir(host, &below_dir(host, &d.home, "AppData"), "Roaming"),
    };
    let mut out: Vec<Vec<u8>> = Vec::new();
    assert(environment::chunks(out@) =~= Seq::<Seq<u8>>::empty());
    add_commands(host, &mut out, &below_dir(host, &appdata, "npm"), pathext);
    add_commands(host, &mut out, &d.nvm_symlink, pathext);
    add_commands(host, &mut out, &d.nvm_home, pathext);
    add_commands(host, &mut out, &below_dir(host, &d.program_files, "nodejs"), pathext);
    let scoop = below_dir(host, &d.home, "scoop");
    add_commands(host, &mut out, &below_dir(host, &scoop, "shims"), pathext);
    let ghost before = environment::chunks(out@);
    let prefix = below_dir(host, &d.home, ".npm-global");
    if let Some(place) = below_dir(host, &prefix, "dsh.cmd") {
        out.push(place);
        assert(environment::chunks(out@) =~= before + seq![place@]);
    }
    assert(environment::chunks(out@) =~= d.places(host, opt_str(pathext)));
    out
}

pub fn windows_common_candidates(
    host: PlatformTarget,
    lookup: &EnvLookup,
    pathext: Option<&str>,
) -> (r: Vec<Vec<u8>>)
    ensures
        environment::chunks(r@) == usual_windows_places(
            host,
            encoded(config::home_directory(PlatformTarget::Windows, lookup@)),
            encoded(config::looked_up(lookup@, "APPDATA"@)),
            encoded(config::looked_up(lookup@, "NVM_SYMLINK"@)),
            encoded(config::looked_up(lookup@, "NVM_HOME"@)),
            encoded(config::looked_up(lookup@, "ProgramFiles"@)),
            opt_str(pathext),
        ),
{
    let d = ToolDirs {
        home: encoded_text(home_dir_for(PlatformTarget::Windows, lookup)),
        appdata: encoded_text(lookup.get("APPDATA")),
        nvm_symlink: encoded_text(lookup.get("NVM_SYMLINK")),
        nvm_home: encoded_text(lookup.get("NVM_HOME")),
        program_files: encoded_text(lookup.get("ProgramFiles")),
    };
    usual_places(host, &d, pathext)
}

/// The names among the entries of a directory that name a Node version. Each entry is given by
/// its name and by whether it is a directory.
pub open spec fn listed_versions(entries: Seq<(Vec<u8>, bool)>, windows: bool) -> Seq<Seq<u8>>
    decreases entries.len(),
{
    if entries.len() == 0 {
        Seq::empty()
    } else {
        let front = listed_versions(entries.drop_last(), windows);
        let (name, is_dir) = entries.last();
        if !windows || (is_dir && name@.len() > 0 && name@[0] == 0x76) {
            front.push(name@)
        } else {
            front
        }
    }
}

fn keep_listed(entries: &Vec<(Vec<u8>, bool)>, windows: bool) -> (r: Vec<Vec<u8>>)
    ensures
        environment::chunks(r@) == listed_versions(entries@, windows),
{
    let mut out: Vec<Vec<u8>> = Vec::new();
    let mut i: usize = 0;
    assert(environment::chunks(out@) =~= listed_versions(entries@.take(0), windows));
    while i < entries.len()
        invariant
            i <= entries.len(),
            environment::chunks(out@) == listed_versions(entries@.take(i as int), windows),
        decreases entries.len() - i,
    {
        let ghost next = entries@.take(i as int + 1);
        let ghost before = environment::chunks(out@);
        assert(next.drop_last() == entries@.take(i as int));
        assert(next.last() == entries@[i as int]);
        let keep = !windows || (entries[i].1 && entries[i].0.len() > 0 && entries[i].0[0] == 0x76);
        if keep {
            out.push(copied_bytes(entries[i].0.as_slice()));
            assert(environment::chunks(out@) =~= before.push(next.last().0@));
        }
        i += 1;
    }
    assert(entries@.take(entries@.len() as int) == entries@);
    out
}

/// `r` holds the names with the last in the order of their bytes first.
pub open spec fn latest_first(names: Seq<Seq<u8>>, r: Seq<Seq<u8>>) -> bool {
    &&& text::ascending(raw_path::spread_all(r).reverse())
    &&& raw_path::spread_all(r).to_multiset() == raw_path::spread_all(names).to_multiset()
}

fn sort_latest_first(names: &Vec<Vec<u8>>) -> (r: Vec<Vec<u8>>)
    ensures
        latest_first(environment::chunks(names@), environment::chunks(r@)),
{
    let sorted = sort_raw(names);
    let ghost up = raw_path::spread_all(environment::chunks(sorted@));
    let mut out: Vec<Vec<u8>> = Vec::new();
    let mut i: usize = sorted.len();
    while i > 0
        invariant
            i <= sorted.len(),
            up == raw_path::spread_all(environment::chunks(sorted@)),
            out@.len() == sorted@.len() - i,
            forall|j: int|
                0 <= j < out@.len() ==> raw_path::spread((#[trigger] out@[j])@)
                    == up[sorted@.len() - 1 - j],
        decreases i,
    {
        i -= 1;
        assert(up[i as int] == raw_path::spread(sorted@[i as int]@));
        out.push(copied_bytes(sorted[i].as_slice()));
    }
    let ghost down = raw_path::spread_all(environment::chunks(out@));
    assert(down.reverse() =~= up);
    assert(down =~= up.reverse());
    proof {
        up.lemma_reverse_to_multiset();
    }
    out
}

/// The directories of the Node versions that nvm for Windows installed, the latest first.
pub fn nvm_windows_version_dirs(
    host: PlatformTarget,
    nvm_root: &[u8],
    entries: &Vec<(Vec<u8>, bool)>,
) -> (r: Vec<Vec<u8>>)
    ensures
        exists|names: Seq<Seq<u8>>|
            #[trigger] latest_first(listed_versions(entries@, true), names)
                && environment::chunks(r@) == names.map_values(
                |n: Seq<u8>| raw_path::join(host, nvm_root@, n),
            ),
{
    let names = sort_latest_first(&keep_listed(entries, true));
    let ghost all = environment::chunks(names@);
    let mut out: Vec<Vec<u8>> = Vec::new();
    let mut i: usize = 0;
    while i < names.len()
        invariant
            i <= names.len(),
            all == environment::chunks(names@),
            out@.len() == i,
            forall|j: int|
                0 <= j < i ==> (#[trigger] out@[j])@ == raw_path::join(host, nvm_root@, all[j]),
        decreases names.len() - i,
    {
        assert(all[i as int] == names@[i as int]@);
        out.push(raw_join(host, nvm_root, names[i].as_slice()));
        i += 1;
    }
    assert(latest_first(listed_versions(entries@, true), all));
    assert(environment::chunks(out@) =~= all.map_values(
        |n: Seq<u8>| raw_path::join(host, nvm_root@, n),
    ));
    out
}

// ---------------------------------------------------------------------------
// The search
// ---------------------------------------------------------------------------

/// What the search starts from.
pub struct Surroundings {
    pub platform: PlatformTarget,
    /// The search path.
    pub path: Option<Vec<u8>>,
    /// The home directory, where the Node versions of nvm are looked for.
    pub home: Option<Vec<u8>>,
    pub pathext: Option<String>,
    pub vars: EnvLookup,
}

/// The files on the search path that may be the command, in the order of the search.
pub open spec fn commands_on_path(
    platform: PlatformTarget,
    dirs: Seq<Seq<u8>>,
    pathext: Option<Seq<char>>,
) -> Seq<Seq<u8>>
    decreases dirs.len(),
{
    if dirs.len() == 0 {
        Seq::empty()
    } else {
        let front = commands_on_path(platform, dirs.drop_last(), pathext);
        if dirs.last().len() == 0 {
            front
        } else {
            front + commands_in(
                platform,
                dirs.last(),
                platform == PlatformTarget::Windows,
                pathext,
            )
        }
    }
}

fn path_candidates(
    platform: PlatformTarget,
    dirs: &Vec<Vec<u8>>,
    pathext: Option<&str>,
) -> (r: Vec<Vec<u8>>)
    ensures
        environment::chunks(r@) == commands_on_path(
            platform,
            environment::chunks(dirs@),
            opt_str(pathext),
        ),
{
    let windows = matches!(platform, PlatformTarget::Windows);
    let ghost all = environment::chunks(dirs@);
    let mut out: Vec<Vec<u8>> = Vec::new();
    let mut i: usize = 0;
    assert(environment::chunks(out@) =~= commands_on_path(
        platform,
        all.take(0),
        opt_str(pathext),
    ));
    while i < dirs.len()
        invariant
            i <= dirs.len(),
            all == environment::chunks(dirs@),
            windows == (platform == PlatformTarget::Windows),
            environment::chunks(out@) == commands_on_path(
                platform,
                all.take(i as int),
                opt_str(pathext),
            ),
        decreases dirs.len() - i,
    {
        let ghost next = all.take(i as int + 1);
        let ghost before = environment::chunks(out@);
        assert(next.drop_last() == all.take(i as int));
        assert(next.last() == dirs@[i as int]@);
        if dirs[i].len() > 0 {
            let mut more = dsh_candidates(platform, dirs[i].as_slice(), windows, pathext);
            let ghost added = environment::chunks(more@);
            out.append(&mut more);
            assert(environment::chunks(out@) =~= before + added);
        }
        i += 1;
    }
    assert(all.take(all.len() as int) == all);
    out
}

/// The files that a place named by hand may mean: on Windows also with an extension, where
/// none was given.
pub open spec fn manual_places(
    platform: PlatformTarget,
    manual: Seq<char>,
    pathext: Option<Seq<char>>,
) -> Seq<Seq<char>> {
    let p = text::trim(manual);
    if platform == PlatformTarget::Windows && !path::has_extension(platform, p) {
        seq![p] + command_extensions(pathext).map_values(
            |e: Seq<char>| path::with_suffix(platform, p, e),
        )
    } else {
        seq![p]
    }
}

fn manual_candidates(platform: PlatformTarget, manual: &str, pathext: Option<&str>) -> (r: Vec<
    String,
>)
    ensures
        text::texts(r@) == manual_places(platform, manual@, opt_str(pathext)),
{
    let p = string_of(trimmed(chars_of(manual).as_slice()));
    let ghost place = p@;
    let mut out: Vec<String> = Vec::new();
    let expand = matches!(platform, PlatformTarget::Windows) && !extended(platform, p.as_str());
    out.push(p.clone());
    if expand {
        let exts = windows_extensions(pathext);
        let ghost all = command_extensions(opt_str(pathext));
        let mut i: usize = 0;
        while i < exts.len()
            invariant
                i <= exts.len(),
                p@ == place,
                text::texts(exts@) == all,
                out@.len() == i + 1,
                out@[0]@ == place,
                forall|j: int|
                    0 <= j < i ==> (#[trigger] out@[j + 1])@ == path::with_suffix(
                        platform,
                        place,
                        all[j],
                    ),
            decreases exts.len() - i,
        {
            assert(all[i as int] == exts@[i as int]@);
            out.push(suffixed(platform, p.as_str(), exts[i].as_str()));
            i += 1;
        }
        let ghost r = text::texts(out@);
        let ghost want = manual_places(platform, manual@, opt_str(pathext));
        assert(r.len() == want.len());
        assert forall|k: int| 0 <= k < r.len() implies r[k] == want[k] by {
            if k > 0 {
                assert(out@[(k - 1) + 1]@ == path::with_suffix(platform, place, all[k - 1]));
            }
        }
        assert(r =~= want);
    } else {
        assert(text::texts(out@) =~= manual_places(platform, manual@, opt_str(pathext)));
    }
    out
}

#[derive(Debug, Clone, Copy, PartialEq, Eq, Structural)]
pub enum ResolveStage {
    /// The place that the user names.
    Manual,
    /// The search path.
    Path,
    /// The login shell must be asked.
    Shell,
    /// What the login shell answered.
    ShellAnswer,
    /// The usual places.
    Common,
    /// The installed Node versions must be listed.
    Versions,
    /// The places in the installed Node versions.
    VersionPlaces,
    Done,
}

/// The search for the command.
pub struct Resolution {
    pub platform: PlatformTarget,
    pub pathext: Option<String>,
    pub stage: ResolveStage,
    /// The files that are looked at in this stage.
    pub places: Vec<Vec<u8>>,
    /// How many of them were looked at.
    pub seen: usize,
    /// The usual places.
    pub common: Vec<Vec<u8>>,
    /// The directory of the installed Node versions.
    pub versions: Option<Vec<u8>>,
    pub found: Option<Vec<u8>>,
}

#[verifier::ext_equal]
pub struct ResolutionView {
    pub platform: PlatformTarget,
    pub pathext: Option<Seq<char>>,
    pub stage: ResolveStage,
    pub pending: Seq<Seq<u8>>,
    pub common: Seq<Seq<u8>>,
    pub versions: Option<Seq<u8>>,
    pub found: Option<Seq<u8>>,
}

impl View for Resolution {
    type V = ResolutionView;

    open spec fn view(&self) -> ResolutionView {
        ResolutionView {
            platform: self.platform,
            pathext: text::opt_text(self.pathext),
            stage: self.stage,
            pending: environment::chunks(self.places@).skip(self.seen as int),
            common: environment::chunks(self.common@),
            versions: environment::opt_bytes(self.versions),
            found: environment::opt_bytes(self.found),
        }
    }
}

/// The search goes on with the installed Node versions, where there are any.
pub open spec fn to_versions(v: ResolutionView) -> ResolutionView {
    ResolutionView {
        stage: if v.versions is Some {
            ResolveStage::Versions
        } else {
            ResolveStage::Done
        },
        pending: Seq::empty(),
        ..v
    }
}

/// The search goes on with the usual places.
pub open spec fn to_common(v: ResolutionView) -> ResolutionView {
    if v.common.len() > 0 {
        ResolutionView { stage: ResolveStage::Common, pending: v.common, ..v }
    } else {
        to_versions(v)
    }
}

/// A stage in which nothing is left to look at is followed by the next one. A place named
/// by hand is followed by none.
pub open spec fn settled(v: ResolutionView) -> ResolutionView {
    if v.pending.len() > 0 {
        v
    } else {
        match v.stage {
            ResolveStage::Manual => ResolutionView { stage: ResolveStage::Done, ..v },
            ResolveStage::Path => if v.platform == PlatformTarget::Windows {
                to_common(v)
            } else {
                ResolutionView { stage: ResolveStage::Shell, ..v }
            },
            ResolveStage::ShellAnswer => to_common(v),
            ResolveStage::Common => to_versions(v),
            ResolveStage::VersionPlaces => ResolutionView { stage: ResolveStage::Done, ..v },
            _ => v,
        }
    }
}

/// The usual places on the platform.
pub open spec fn common_places(
    platform: PlatformTarget,
    vars: Seq<(Seq<char>, Seq<char>)>,
    pathext: Option<Seq<char>>,
) -> Seq<Seq<u8>> {
    if platform == PlatformTarget::Windows {
        usual_windows_places(
            platform,
            encoded(config::home_directory(platform, vars)),
            encoded(config::filled(config::looked_up(vars, "APPDATA"@))),
            encoded(config::filled(config::looked_up(vars, "NVM_SYMLINK"@))),
            encoded(config::filled(config::looked_up(vars, "NVM_HOME"@))),
            encoded(config::filled(config::looked_up(vars, "ProgramFiles"@))),
            config::filled(pathext),
        )
    } else {
        search_path::paths_bytes(seq!["/opt/homebrew/bin/dsh"@, "/usr/local/bin/dsh"@])
    }
}

/// The directory in which nvm keeps the Node versions.
pub open spec fn versions_dir(
    platform: PlatformTarget,
    home: Option<Seq<u8>>,
    vars: Seq<(Seq<char>, Seq<char>)>,
) -> Option<Seq<u8>> {
    if platform == PlatformTarget::Windows {
        below(platform, encoded(config::filled(config::looked_up(vars, "APPDATA"@))), "nvm"@)
    } else {
        below(platform, home, ".nvm/versions/node"@)
    }
}

/// How a search begins.
pub open spec fn resolution_of(
    manual: Seq<char>,
    platform: PlatformTarget,
    search: Option<Seq<u8>>,
    home: Option<Seq<u8>>,
    pathext: Option<Seq<char>>,
    vars: Seq<(Seq<char>, Seq<char>)>,
) -> ResolutionView {
    settled(
        ResolutionView {
            platform,
            pathext,
            stage: if config::blank(manual) {
                ResolveStage::Path
            } else {
                ResolveStage::Manual
            },
            pending: if config::blank(manual) {
                match search {
                    Some(v) => commands_on_path(
                        platform,
                        search_path::directories(platform, v),
                        pathext,
                    ),
                    None => Seq::empty(),
                }
            } else {
                search_path::paths_bytes(manual_places(platform, manual, pathext))
            },
            common: common_places(platform, vars, pathext),
            versions: versions_dir(platform, home, vars),
            found: None,
        },
    )
}

/// What the search asks for.
#[derive(Debug)]
pub enum ResolveAction {
    IsFile(Vec<u8>),
    AskShell,
    List(Vec<u8>),
    Finished(Option<Vec<u8>>),
}

pub open spec fn resolve_action_is(a: ResolveAction, v: ResolutionView) -> bool {
    match v.stage {
        ResolveStage::Shell => a is AskShell,
        ResolveStage::Versions => a matches ResolveAction::List(d) && Some(d@) == v.versions,
        ResolveStage::Done => a matches ResolveAction::Finished(f) && environment::opt_bytes(f)
            == v.found,
        _ => a matches ResolveAction::IsFile(f) && v.pending.len() > 0 && f@ == v.pending[0],
    }
}

/// The search after the file in question was looked at.
pub open spec fn file_checked(v: ResolutionView, is_file: bool) -> ResolutionView {
    if v.stage == ResolveStage::Done || v.pending.len() == 0 {
        v
    } else if is_file {
        ResolutionView {
            stage: ResolveStage::Done,
            found: Some(v.pending[0]),
            pending: v.pending.skip(1),
            ..v
        }
    } else {
        settled(ResolutionView { pending: v.pending.skip(1), ..v })
    }
}

/// The search after the login shell was asked.
pub open spec fn shell_answered(v: ResolutionView, answer: Option<Seq<char>>) -> ResolutionView {
    if v.stage != ResolveStage::Shell {
        v
    } else {
        settled(
            ResolutionView {
                stage: ResolveStage::ShellAnswer,
                pending: match answer {
                    Some(line) => seq![environment::bytes_of(line)],
                    None => Seq::empty(),
                },
                ..v
            },
        )
    }
}

/// The places of the command in the Node versions of the given names.
pub open spec fn version_places(
    platform: PlatformTarget,
    dir: Seq<u8>,
    names: Seq<Seq<u8>>,
    pathext: Option<Seq<char>>,
) -> Seq<Seq<u8>>
    decreases names.len(),
{
    if names.len() == 0 {
        Seq::empty()
    } else {
        let version = raw_path::join(platform, dir, names.last());
        version_places(platform, dir, names.drop_last(), pathext) + if platform
            == PlatformTarget::Windows {
            commands_in(platform, version, true, config::filled(pathext))
        } else {
            seq![raw_path::join_text(platform, version, "bin/dsh"@)]
        }
    }
}

/// The search after the Node versions were listed: the latest are looked at first.
pub open spec fn versions_listed_as(
    v: ResolutionView,
    names: Seq<Seq<u8>>,
    after: ResolutionView,
) -> bool {
    if v.stage != ResolveStage::Versions || v.versions is None {
        after == v
    } else {
        exists|order: Seq<Seq<u8>>|
            #[trigger] latest_first(names, order) && after == settled(
                ResolutionView {
                    stage: ResolveStage::VersionPlaces,
                    pending: version_places(v.platform, v.versions->0, order, v.pathext),
                    ..v
                },
            )
    }
}

impl Resolution {
    /// Something is left to look at wherever the stage looks at files.
    pub open spec fn wf(self) -> bool {
        &&& self.seen <= self.places.len()
        &&& self@ == settled(self@)
        &&& self.stage == ResolveStage::Versions ==> self.versions is Some
    }

    fn settle(&mut self)
        requires
            old(self).seen <= old(self).places.len(),
            old(self).stage == ResolveStage::Versions ==> old(self).versions is Some,
        ensures
            final(self)@ == settled(old(self)@),
            final(self).wf(),
            old(self).seen < old(self).places.len() ==> *final(self) == *old(self),
    {
        let ghost start = self@;
        if self.seen < self.places.len() {
            return ;
        }
        assert(self@.pending =~= Seq::<Seq<u8>>::empty());
        match self.stage {
            ResolveStage::Manual => {
                self.stage = ResolveStage::Done;
            },
            ResolveStage::VersionPlaces => {
                self.stage = ResolveStage::Done;
            },
            ResolveStage::Path => {
                if matches!(self.platform, PlatformTarget::Windows) {
                    self.go_common();
                } else {
                    self.stage = ResolveStage::Shell;
                }
            },
            ResolveStage::ShellAnswer => {
                self.go_common();
            },
            ResolveStage::Common => {
                self.go_versions();
            },
            _ => {},
        }
        assert(self@ =~= settled(start));
    }

    fn go_versions(&mut self)
        requires
            old(self).seen == old(self).places.len(),
        ensures
            final(self)@ == to_versions(old(self)@),
            final(self).seen == final(self).places.len(),
            final(self).stage == ResolveStage::Versions ==> final(self).versions is Some,
    {
        let ghost start = self@;
        self.stage = if self.versions.is_some() {
            ResolveStage::Versions
        } else {
            ResolveStage::Done
        };
        assert(self@.pending =~= Seq::<Seq<u8>>::empty());
        assert(self@ =~= to_versions(start));
    }

    fn go_common(&mut self)
        requires
            old(self).seen == old(self).places.len(),
        ensures
            final(self)@ == to_common(old(self)@),
            final(self).seen <= final(self).places.len(),
            final(self).stage == ResolveStage::Versions ==> final(self).versions is Some,
    {
        let ghost start = self@;
        if self.common.len() > 0 {
            self.places = copied_chunks(&self.common);
            self.seen = 0;
            self.stage = ResolveStage::Common;
            assert(self@.pending =~= start.common);
            assert(self@ =~= to_common(start));
        } else {
            self.go_versions();
        }
    }

    pub fn action(&self) -> (r: ResolveAction)
        requires
            self.wf(),
        ensures
            resolve_action_is(r, self@),
            self.stage == ResolveStage::Path ==> (r matches ResolveAction::IsFile(f)
                && self.seen < self.places@.len() && f@ == self.places@[self.seen as int]@),
            self.stage == ResolveStage::Done ==> (r matches ResolveAction::Finished(f)
                && environment::opt_bytes(f) == environment::opt_bytes(self.found)),
    {
        match self.stage {
            ResolveStage::Shell => ResolveAction::AskShell,
            ResolveStage::Versions => match &self.versions {
                Some(dir) => ResolveAction::List(copied_bytes(dir.as_slice())),
                None => ResolveAction::Finished(None),
            },
            ResolveStage::Done => match &self.found {
                Some(file) => ResolveAction::Finished(Some(copied_bytes(file.as_slice()))),
                None => ResolveAction::Finished(None),
            },
            _ => {
                assert(self@.pending.len() > 0);
                assert(self@.pending[0] == self.places@[self.seen as int]@);
                ResolveAction::IsFile(copied_bytes(self.places[self.seen].as_slice()))
            },
        }
    }

    pub fn checked(&mut self, is_file: bool)
        requires
            old(self).wf(),
        ensures
            final(self)@ == file_checked(old(self)@, is_file),
            final(self).wf(),
    {
        let ghost start = self@;
        if matches!(self.stage, ResolveStage::Done) {
            return ;
        }
        if self.seen >= self.places.len() {
            assert(start.pending.len() == 0);
            return ;
        }
        let place = copied_bytes(self.places[self.seen].as_slice());
        assert(start.pending[0] == place@);
        self.seen = self.seen + 1;
        assert(self@.pending =~= start.pending.skip(1));
        if is_file {
            self.found = Some(place);
            self.stage = ResolveStage::Done;
            assert(self@ =~= file_checked(start, true));
        } else {
            assert(self@ =~= (ResolutionView { pending: start.pending.skip(1), ..start }));
            self.settle();
        }
    }

    pub fn find_via_login_shell(&mut self, answer: Option<String>)
        requires
            old(self).wf(),
        ensures
            final(self)@ == shell_answered(old(self)@, text::opt_text(answer)),
            final(self).wf(),
    {
        let ghost start = self@;
        if self.stage != ResolveStage::Shell {
            return ;
        }
        self.stage = ResolveStage::ShellAnswer;
        self.seen = 0;
        self.places = Vec::new();
        if let Some(line) = answer {
            self.places.push(text_bytes(line.as_str()));
        }
        let ghost pending = match text::opt_text(answer) {
            Some(line) => seq![environment::bytes_of(line)],
            None => Seq::empty(),
        };
        assert(self@.pending =~= pending);
        assert(self@ =~= (ResolutionView {
            stage: ResolveStage::ShellAnswer,
            pending,
            ..start
        }));
        self.settle();
    }

    pub fn versions_listed(&mut self, entries: &Vec<(Vec<u8>, bool)>)
        requires
            old(self).wf(),
        ensures
            versions_listed_as(
                old(self)@,
                listed_versions(entries@, old(self)@.platform == PlatformTarget::Windows),
                final(self)@,
            ),
            final(self).wf(),
    {
        let ghost start = self@;
        if self.stage != ResolveStage::Versions {
            return ;
        }
        let windows = matches!(self.platform, PlatformTarget::Windows);
        let dir = match &self.versions {
            Some(dir) => copied_bytes(dir.as_slice()),
            None => return ,
        };
        let names = sort_latest_first(&keep_listed(entries, windows));
        let ghost order = environment::chunks(names@);
        assert(latest_first(listed_versions(entries@, windows), order));
        let filled_ext = match &self.pathext {
            Some(value) => if is_blank(value.as_str()) {
                None
            } else {
                Some(value.as_str())
            },
            None => None,
        };
        let places = places_in_versions(self.platform, dir.as_slice(), &names, filled_ext);
        let ghost pending = version_places(
            start.platform,
            start.versions->0,
            order,
            start.pathext,
        );
        proof {
            lemma_version_places(
                start.platform,
                start.versions->0,
                order,
                start.pathext,
                opt_str(filled_ext),
            );
        }
        self.places = places;
        self.seen = 0;
        self.stage = ResolveStage::VersionPlaces;
        assert(self@.pending =~= pending);
        assert(self@ =~= (ResolutionView {
            stage: ResolveStage::VersionPlaces,
            pending,
            ..start
        }));
        self.settle();
    }
}

/// Blank lists of extensions count as none.
proof fn lemma_version_places(
    platform: PlatformTarget,
    dir: Seq<u8>,
    names: Seq<Seq<u8>>,
    pathext: Option<Seq<char>>,
    kept: Option<Seq<char>>,
)
    requires
        kept == config::filled(pathext),
    ensures
        version_places(platform, dir, names, pathext) == version_places(
            platform,
            dir,
            names,
            kept,
        ),
    decreases names.len(),
{
    if names.len() > 0 {
        lemma_version_places(platform, dir, names.drop_last(), pathext, kept);
        assert(config::filled(kept) == kept);
    }
}

fn places_in_versions(
    platform: PlatformTarget,
    dir: &[u8],
    names: &Vec<Vec<u8>>,
    pathext: Option<&str>,
) -> (r: Vec<Vec<u8>>)
    requires
        config::filled(opt_str(pathext)) == opt_str(pathext),
    ensures
        environment::chunks(r@) == version_places(
            platform,
            dir@,
            environment::chunks(names@),
            opt_str(pathext),
        ),
{
    let ghost all = environment::chunks(names@);
    let mut out: Vec<Vec<u8>> = Vec::new();
    let mut i: usize = 0;
    assert(environment::chunks(out@) =~= version_places(
        platform,
        dir@,
        all.take(0),
        opt_str(pathext),
    ));
    while i < names.len()
        invariant
            i <= names.len(),
            config::filled(opt_str(pathext)) == opt_str(pathext),
            all == environment::chunks(names@),
            environment::chunks(out@) == version_places(
                platform,
                dir@,
                all.take(i as int),
                opt_str(pathext),
            ),
        decreases names.len() - i,
    {
        let ghost next = all.take(i as int + 1);
        let ghost before = environment::chunks(out@);
        assert(next.drop_last() == all.take(i as int));
        assert(next.last() == names@[i as int]@);
        let version = raw_join(platform, dir, names[i].as_slice());
        if matches!(platform, PlatformTarget::Windows) {
            let mut more = dsh_candidates(platform, version.as_slice(), true, pathext);
            let ghost added = environment::chunks(more@);
            out.append(&mut more);
            assert(environment::chunks(out@) =~= before + added);
        } else {
            out.push(raw_child(platform, version.as_slice(), "bin/dsh"));
            assert(environment::chunks(out@) =~= before + seq![
                raw_path::join_text(platform, version@, "bin/dsh"@),
            ]);
        }
        i += 1;
    }
    assert(all.take(all.len() as int) == all);
    out
}

/// Begins to search for the command. A place that is named by hand is the only one that is
/// looked at.
pub fn resolve_dsh(manual: &str, around: &Surroundings) -> (r: Resolution)
    ensures
        r.wf(),
        r@ == resolution_of(
            manual@,
            around.platform,
            environment::opt_bytes(around.path),
            environment::opt_bytes(around.home),
            text::opt_text(around.pathext),
            around.vars@,
        ),
        text::trim(manual@).len() == 0 && around.path is Some ==> {
            let dirs = search_path::directories(around.platform, around.path->0@).filter(
                |d: Seq<u8>| d.len() > 0,
            );
            dirs.len() > 0 ==> r.stage == ResolveStage::Path && r.seen == 0 && looks_in_each(
                around.platform,
                dirs,
                environment::chunks(r.places@),
            )
        },
{
    proof {
        if around.path is Some {
            every_directory_is_looked_at(
                around.platform,
                search_path::directories(around.platform, around.path->0@),
                text::opt_text(around.pathext),
            );
        }
    }
    let platform = around.platform;
    let windows = matches!(platform, PlatformTarget::Windows);
    let pathext = match &around.pathext {
        Some(value) => Some(value.as_str()),
        None => None,
    };
    let by_hand = !is_blank(manual);
    let places = if by_hand {
        bytes_of_paths(&manual_candidates(platform, manual, pathext))
    } else {
        match &around.path {
            Some(v) => path_candidates(platform, &split_paths(platform, v.as_slice()), pathext),
            None => {
                let none: Vec<Vec<u8>> = Vec::new();
                assert(environment::chunks(none@) =~= Seq::<Seq<u8>>::empty());
                none
            },
        }
    };
    let common = if windows {
        let d = ToolDirs {
            home: encoded_text(home_dir_for(platform, &around.vars)),
            appdata: encoded_text(around.vars.get_filled("APPDATA")),
            nvm_symlink: encoded_text(around.vars.get_filled("NVM_SYMLINK")),
            nvm_home: encoded_text(around.vars.get_filled("NVM_HOME")),
            program_files: encoded_text(around.vars.get_filled("ProgramFiles")),
        };
        let filled_ext = match pathext {
            Some(value) => if is_blank(value) {
                None
            } else {
                Some(value)
            },
            None => None,
        };
        usual_places(platform, &d, filled_ext)
    } else {
        let mut fixed: Vec<String> = Vec::new();
        fixed.push("/opt/homebrew/bin/dsh".to_string());
        fixed.push("/usr/local/bin/dsh".to_string());
        assert(text::texts(fixed@) =~= seq!["/opt/homebrew/bin/dsh"@, "/usr/local/bin/dsh"@]);
        bytes_of_paths(&fixed)
    };
    let versions = if windows {
        below_dir(platform, &encoded_text(around.vars.get_filled("APPDATA")), "nvm")
    } else {
        below_dir(platform, &around.home, ".nvm/versions/node")
    };
    let ghost pending = environment::chunks(places@);
    let mut r = Resolution {
        platform,
        pathext: clone_text(&around.pathext),
        stage: if by_hand {
            ResolveStage::Manual
        } else {
            ResolveStage::Path
        },
        places,
        seen: 0,
        common,
        versions,
        found: None,
    };
    assert(r@.pending =~= pending);
    assert(pending.len() == r.places@.len());
    r.settle();
    r
}

/// A place that is named by hand is never replaced by another: the search asks for nothing
/// else, and finds that place or nothing.
pub proof fn a_place_named_by_hand_is_the_only_one(
    v: ResolutionView,
    is_file: bool,
    answer: Option<Seq<char>>,
)
    requires
        v.stage == ResolveStage::Manual || v.stage == ResolveStage::Done,
    ensures
        ({
            let a = file_checked(v, is_file);
            let b = shell_answered(v, answer);
            &&& a.stage == ResolveStage::Manual || a.stage == ResolveStage::Done
            &&& b == v
            &&& v.stage == ResolveStage::Manual && a.found != v.found ==> a.found is Some
                && v.pending.contains(a.found->0)
        }),
{
}

/// The search ends with the first file that is there.
pub proof fn the_first_file_ends_the_search(v: ResolutionView)
    requires
        v.stage != ResolveStage::Done,
        v.pending.len() > 0,
    ensures
        file_checked(v, true).stage == ResolveStage::Done,
        file_checked(v, true).found == Some(v.pending[0]),
{
}

/// A search that has ended stays as it is, whatever it is told.
pub proof fn a_finished_search_stays(
    v: ResolutionView,
    is_file: bool,
    answer: Option<Seq<char>>,
    names: Seq<Seq<u8>>,
    after: ResolutionView,
)
    requires
        v.stage == ResolveStage::Done,
        versions_listed_as(v, names, after),
    ensures
        file_checked(v, is_file) == v,
        shell_answered(v, answer) == v,
        after == v,
{
}

// ---------------------------------------------------------------------------
// What is looked at, and in which order
// ---------------------------------------------------------------------------

/// A list that begins with the program's extension and goes on with extensions of scripts,
/// each once.
spec fn program_first(exts: Seq<Seq<char>>) -> bool {
    &&& exts.len() >= 1
    &&& exts[0] == ".exe"@
    &&& forall|i: int| 1 <= i < exts.len() ==> #[trigger] exts[i] == ".cmd"@ || exts[i] == ".bat"@
    &&& exts.no_duplicates()
}

proof fn lemma_extension_texts()
    ensures
        ".exe"@ != ".cmd"@,
        ".exe"@ != ".bat"@,
        ".cmd"@ != ".bat"@,
{
    reveal_strlit(".exe");
    reveal_strlit(".cmd");
    reveal_strlit(".bat");
    assert(".exe"@[1] == 'e');
    assert(".cmd"@[1] == 'c');
    assert(".bat"@[1] == 'b');
}

proof fn lemma_listed_extensions(exts: Seq<Seq<char>>, tokens: Seq<Seq<char>>)
    requires
        program_first(exts),
    ensures
        program_first(with_listed(exts, tokens)),
    decreases tokens.len(),
{
    lemma_extension_texts();
    if tokens.len() > 0 {
        lemma_listed_extensions(exts, tokens.drop_last());
    }
}

proof fn lemma_added_extension(exts: Seq<Seq<char>>, e: Seq<char>)
    requires
        program_first(exts),
        e == ".cmd"@ || e == ".bat"@,
    ensures
        program_first(with_extension(exts, e)),
        with_extension(exts, e).contains(e),
        forall|x: Seq<char>| #[trigger] exts.contains(x) ==> with_extension(exts, e).contains(x),
{
    lemma_extension_texts();
    let next = with_extension(exts, e);
    if !exts.contains(e) {
        assert(next[exts.len() as int] == e);
        assert forall|x: Seq<char>| #[trigger] exts.contains(x) implies next.contains(x) by {
            let i = choose|i: int| 0 <= i < exts.len() && exts[i] == x;
            assert(next[i] == x);
        }
    }
}

/// On Windows the command is a program or one of two kinds of scripts: a program is preferred,
/// each script extension comes once, and without a list in the usual order.
pub proof fn a_program_is_preferred_to_a_script(pathext: Option<Seq<char>>)
    ensures
        ({
            let exts = command_extensions(pathext);
            &&& exts.len() == 3
            &&& exts[0] == ".exe"@
            &&& (exts[1] == ".cmd"@ && exts[2] == ".bat"@) || (exts[1] == ".bat"@ && exts[2]
                == ".cmd"@)
            &&& pathext is None ==> exts[1] == ".cmd"@
        }),
{
    lemma_extension_texts();
    let first = seq![".exe"@];
    assert(program_first(first));
    let listed = match pathext {
        Some(value) => with_listed(first, text::split(value, ';')),
        None => first,
    };
    if let Some(value) = pathext {
        lemma_listed_extensions(first, text::split(value, ';'));
    }
    let one = with_extension(listed, ".cmd"@);
    lemma_added_extension(listed, ".cmd"@);
    lemma_added_extension(one, ".bat"@);
    let exts = with_extension(one, ".bat"@);
    let c = choose|c: int| 0 <= c < exts.len() && exts[c] == ".cmd"@;
    let b = choose|b: int| 0 <= b < exts.len() && exts[b] == ".bat"@;
    assert(c >= 1 && b >= 1 && c != b);
    if exts.len() > 3 {
        assert(exts[1] == ".cmd"@ || exts[1] == ".bat"@);
        assert(exts[2] == ".cmd"@ || exts[2] == ".bat"@);
        assert(exts[3] == ".cmd"@ || exts[3] == ".bat"@);
        assert(exts[1] != exts[2] && exts[1] != exts[3] && exts[2] != exts[3]);
    }
    assert(exts.len() == 3);
    assert(exts[1] == ".cmd"@ || exts[1] == ".bat"@);
    assert(exts[2] == ".cmd"@ || exts[2] == ".bat"@);
    assert(exts[1] != exts[2]);
    if pathext is None {
        assert(listed =~= first);
        assert(!first.contains(".cmd"@));
        assert(one =~= seq![".exe"@, ".cmd"@]);
    }
}

/// The places are the command in each of the directories, in their order: under its bare name,
/// or on Windows as a program and as each kind of script.
pub open spec fn looks_in_each(
    platform: PlatformTarget,
    dirs: Seq<Seq<u8>>,
    places: Seq<Seq<u8>>,
) -> bool {
    if platform == PlatformTarget::Windows {
        &&& places.len() == 3 * dirs.len()
        &&& forall|i: int|
            0 <= i < dirs.len() ==> {
                &&& #[trigger] places[3 * i] == raw_path::join_text(
                    platform,
                    dirs[i],
                    "dsh.exe"@,
                )
                &&& {
                    let cmd = raw_path::join_text(platform, dirs[i], "dsh.cmd"@);
                    let bat = raw_path::join_text(platform, dirs[i], "dsh.bat"@);
                    (places[3 * i + 1] == cmd && places[3 * i + 2] == bat) || (places[3 * i + 1]
                        == bat && places[3 * i + 2] == cmd)
                }
            }
    } else {
        &&& places.len() == dirs.len()
        &&& forall|i: int|
            0 <= i < dirs.len() ==> #[trigger] places[i] == raw_path::join_text(
                platform,
                dirs[i],
                "dsh"@,
            )
    }
}

proof fn lemma_command_names()
    ensures
        "dsh"@ + ".exe"@ == "dsh.exe"@,
        "dsh"@ + ".cmd"@ == "dsh.cmd"@,
        "dsh"@ + ".bat"@ == "dsh.bat"@,
{
    reveal_strlit("dsh");
    reveal_strlit(".exe");
    reveal_strlit(".cmd");
    reveal_strlit(".bat");
    reveal_strlit("dsh.exe");
    reveal_strlit("dsh.cmd");
    reveal_strlit("dsh.bat");
    assert("dsh"@ + ".exe"@ =~= "dsh.exe"@);
    assert("dsh"@ + ".cmd"@ =~= "dsh.cmd"@);
    assert("dsh"@ + ".bat"@ =~= "dsh.bat"@);
}

/// Each directory of a search path that is not empty is looked at, in the order of the path.
pub proof fn every_directory_is_looked_at(
    platform: PlatformTarget,
    dirs: Seq<Seq<u8>>,
    pathext: Option<Seq<char>>,
)
    ensures
        looks_in_each(
            platform,
            dirs.filter(|d: Seq<u8>| d.len() > 0),
            commands_on_path(platform, dirs, pathext),
        ),
    decreases dirs.len(),
{
    reveal(Seq::filter);
    let keep = |d: Seq<u8>| d.len() > 0;
    if dirs.len() > 0 {
        every_directory_is_looked_at(platform, dirs.drop_last(), pathext);
        a_program_is_preferred_to_a_script(pathext);
        lemma_command_names();
        let before = dirs.drop_last().filter(keep);
        let front = commands_on_path(platform, dirs.drop_last(), pathext);
        let kept = dirs.filter(keep);
        let all = commands_on_path(platform, dirs, pathext);
        if dirs.last().len() > 0 {
            assert(kept =~= before.push(dirs.last()));
            let n = before.len() as int;
            let more = commands_in(
                platform,
                dirs.last(),
                platform == PlatformTarget::Windows,
                pathext,
            );
            assert(all =~= front + more);
            if platform == PlatformTarget::Windows {
                assert(more.len() == 3);
                assert forall|i: int| 0 <= i < kept.len() implies {
                    &&& #[trigger] all[3 * i] == raw_path::join_text(platform, kept[i], "dsh.exe"@)
                    &&& {
                        let cmd = raw_path::join_text(platform, kept[i], "dsh.cmd"@);
                        let bat = raw_path::join_text(platform, kept[i], "dsh.bat"@);
                        (all[3 * i + 1] == cmd && all[3 * i + 2] == bat) || (all[3 * i + 1] == bat
                            && all[3 * i + 2] == cmd)
                    }
                } by {
                    if i < n {
                        assert(front[3 * i] == all[3 * i]);
                        assert(kept[i] == before[i]);
                    } else {
                        assert(all[3 * i] == more[0]);
                        assert(all[3 * i + 1] == more[1]);
                        assert(all[3 * i + 2] == more[2]);
                    }
                }
            } else {
                assert forall|i: int| 0 <= i < kept.len() implies #[trigger] all[i]
                    == raw_path::join_text(platform, kept[i], "dsh"@) by {
                    if i < n {
                        assert(front[i] == all[i]);
                        assert(kept[i] == before[i]);
                    }
                }
            }
        } else {
            assert(kept =~= before);
        }
    }
}

/// The search after so many looks that found nothing.
pub open spec fn missed(v: ResolutionView, n: nat) -> ResolutionView
    decreases n,
{
    if n == 0 {
        v
    } else {
        file_checked(missed(v, (n - 1) as nat), false)
    }
}

proof fn lemma_missed(v: ResolutionView, n: nat)
    requires
        v.stage == ResolveStage::Manual || v.stage == ResolveStage::Path || v.stage
            == ResolveStage::ShellAnswer || v.stage == ResolveStage::Common || v.stage
            == ResolveStage::VersionPlaces,
        n < v.pending.len(),
    ensures
        missed(v, n) == (ResolutionView { pending: v.pending.skip(n as int), ..v }),
    decreases n,
{
    if n == 0 {
        assert(v.pending.skip(0) =~= v.pending);
    } else {
        lemma_missed(v, (n - 1) as nat);
        assert(v.pending.skip(n - 1).skip(1) =~= v.pending.skip(n as int));
    }
}

/// Without a place named by hand the search path is searched before anything else, on every
/// platform: each of its directories that is not empty is looked at, in their order, and the
/// first file that is there is what the search finds.
pub proof fn the_search_path_is_searched_first(
    manual: Seq<char>,
    platform: PlatformTarget,
    search: Seq<u8>,
    home: Option<Seq<u8>>,
    pathext: Option<Seq<char>>,
    vars: Seq<(Seq<char>, Seq<char>)>,
    n: nat,
)
    requires
        text::trim(manual).len() == 0,
    ensures
        ({
            let v = resolution_of(manual, platform, Some(search), home, pathext, vars);
            let dirs = search_path::directories(platform, search).filter(
                |d: Seq<u8>| d.len() > 0,
            );
            let asked = missed(v, n);
            dirs.len() > 0 ==> {
                &&& looks_in_each(platform, dirs, v.pending)
                &&& n < v.pending.len() ==> {
                    &&& asked.stage == ResolveStage::Path
                    &&& asked.pending.len() > 0
                    &&& asked.pending[0] == v.pending[n as int]
                    &&& file_checked(asked, true).stage == ResolveStage::Done
                    &&& file_checked(asked, true).found == Some(v.pending[n as int])
                }
            }
        }),
{
    let v = resolution_of(manual, platform, Some(search), home, pathext, vars);
    let all = search_path::directories(platform, search);
    every_directory_is_looked_at(platform, all, pathext);
    if all.filter(|d: Seq<u8>| d.len() > 0).len() > 0 && n < v.pending.len() {
        lemma_missed(v, n);
    }
}

/// Where the search path holds nothing, the login shell is asked (but on Windows there is
/// none), then the usual places are looked at, and then the Node versions of nvm. Nothing is
/// found only when all of that was looked at.
pub proof fn the_search_goes_on_until_nothing_is_left(
    v: ResolutionView,
    answer: Option<Seq<char>>,
)
    requires
        v.pending.len() == 1,
        v.common.len() > 0,
    ensures
        ({
            let next = file_checked(v, false);
            &&& v.stage == ResolveStage::Path && v.platform != PlatformTarget::Windows ==> next.stage
                == ResolveStage::Shell && next.found == v.found
            &&& v.stage == ResolveStage::Path && v.platform == PlatformTarget::Windows ==> next.stage
                == ResolveStage::Common && next.pending == v.common && next.found == v.found
            &&& v.stage == ResolveStage::ShellAnswer ==> next.stage == ResolveStage::Common
                && next.pending == v.common && next.found == v.found
            &&& v.stage == ResolveStage::Common && v.versions is Some ==> next.stage
                == ResolveStage::Versions && next.found == v.found
            &&& v.stage == ResolveStage::Common && v.versions is None ==> next.stage
                == ResolveStage::Done && next.found == v.found
            &&& v.stage == ResolveStage::VersionPlaces ==> next.stage == ResolveStage::Done
                && next.found == v.found
            &&& v.stage == ResolveStage::Manual ==> next.stage == ResolveStage::Done && next.found
                == v.found
        }),
        v.stage == ResolveStage::Shell ==> {
            let next = shell_answered(ResolutionView { pending: Seq::empty(), ..v }, answer);
            match answer {
                Some(line) => next.stage == ResolveStage::ShellAnswer && next.pending
                    == seq![environment::bytes_of(line)],
                None => next.stage == ResolveStage::Common && next.pending == v.common,
            }
        },
{
}

/// The usual places off Windows, and the directory in which nvm keeps its Node versions.
pub proof fn the_usual_places_are_known(
    manual: Seq<char>,
    platform: PlatformTarget,
    search: Option<Seq<u8>>,
    home: Option<Seq<u8>>,
    pathext: Option<Seq<char>>,
    vars: Seq<(Seq<char>, Seq<char>)>,
)
    requires
        platform != PlatformTarget::Windows,
    ensures
        ({
            let v = resolution_of(manual, platform, search, home, pathext, vars);
            &&& v.common == seq![
                environment::bytes_of("/opt/homebrew/bin/dsh"@),
                environment::bytes_of("/usr/local/bin/dsh"@),
            ]
            &&& match home {
                Some(dir) => v.versions == Some(
                    raw_path::join_text(platform, dir, ".nvm/versions/node"@),
                ),
                None => v.versions is None,
            }
            &&& v.found is None
            &&& text::trim(manual).len() == 0 && search is None ==> v.stage == ResolveStage::Shell
        }),
{
    let v = resolution_of(manual, platform, search, home, pathext, vars);
    assert(v.common =~= seq![
        environment::bytes_of("/opt/homebrew/bin/dsh"@),
        environment::bytes_of("/usr/local/bin/dsh"@),
    ]);
}

/// A place named by hand is looked at as it is written, without white space around it; on
/// Windows a name without an extension may also stand for a program or a script of that name.
pub proof fn a_place_named_by_hand_is_looked_at(
    manual: Seq<char>,
    platform: PlatformTarget,
    search: Option<Seq<u8>>,
    home: Option<Seq<u8>>,
    pathext: Option<Seq<char>>,
    vars: Seq<(Seq<char>, Seq<char>)>,
)
    requires
        text::trim(manual).len() > 0,
    ensures
        ({
            let v = resolution_of(manual, platform, search, home, pathext, vars);
            let place = text::trim(manual);
            &&& v.stage == ResolveStage::Manual
            &&& v.pending.len() > 0
            &&& v.pending[0] == environment::bytes_of(place)
            &&& platform != PlatformTarget::Windows ==> v.pending.len() == 1
            &&& platform == PlatformTarget::Windows ==> v.pending.len()
                == if path::has_extension(platform, place) {
                1nat
            } else {
                4nat
            }
            &&& platform == PlatformTarget::Windows && !path::has_extension(platform, place)
                ==> v.pending[1] == environment::bytes_of(
                path::with_suffix(platform, place, ".exe"@),
            )
        }),
{
    a_program_is_preferred_to_a_script(pathext);
}

// ---------------------------------------------------------------------------
// The usual places on Windows, and the versions
// ---------------------------------------------------------------------------

/// The usual places on Windows are, in this order, the directory of npm below the roaming
/// directory, those that nvm names, that of Node below the programs, the shims of scoop and
/// npm's own one in the home directory; in each a program is looked for first.
pub proof fn the_usual_windows_places_are_known(
    home: Seq<u8>,
    appdata: Seq<u8>,
    nvm_symlink: Seq<u8>,
    nvm_home: Seq<u8>,
    program_files: Seq<u8>,
    pathext: Option<Seq<char>>,
)
    ensures
        ({
            let host = PlatformTarget::Windows;
            let places = usual_windows_places(
                host,
                Some(home),
                Some(appdata),
                Some(nvm_symlink),
                Some(nvm_home),
                Some(program_files),
                pathext,
            );
            let without = usual_windows_places(host, Some(home), None, None, None, None, pathext);
            let exe = |dir: Seq<u8>| raw_path::join_text(host, dir, "dsh"@ + ".exe"@);
            let npm = |dir: Seq<u8>| raw_path::join_text(host, dir, "npm"@);
            let scoop = raw_path::join_text(
                host,
                raw_path::join_text(host, home, "scoop"@),
                "shims"@,
            );
            let roaming_dir = raw_path::join_text(
                host,
                raw_path::join_text(host, home, "AppData"@),
                "Roaming"@,
            );
            let global = raw_path::join_text(
                host,
                raw_path::join_text(host, home, ".npm-global"@),
                "dsh.cmd"@,
            );
            &&& places.len() == 16
            &&& places[0] == exe(npm(appdata))
            &&& places[3] == exe(nvm_symlink)
            &&& places[6] == exe(nvm_home)
            &&& places[9] == exe(raw_path::join_text(host, program_files, "nodejs"@))
            &&& places[12] == exe(scoop)
            &&& places[15] == global
            &&& without.len() == 7
            &&& without[0] == exe(npm(roaming_dir))
            &&& without[3] == exe(scoop)
            &&& without[6] == global
            &&& usual_windows_places(host, None, None, None, None, None, pathext).len() == 0
        }),
{
    a_program_is_preferred_to_a_script(pathext);
}

/// The variables that name the usual places on Windows, and the directory in which nvm keeps
/// its versions there.
pub proof fn the_variables_name_the_windows_places(
    vars: Seq<(Seq<char>, Seq<char>)>,
    pathext: Option<Seq<char>>,
)
    ensures
        ({
            let host = PlatformTarget::Windows;
            let value = |name: Seq<char>|
                match config::looked_up(vars, name) {
                    Some(v) => if text::trim(v).len() > 0 {
                        Some(environment::bytes_of(v))
                    } else {
                        None::<Seq<u8>>
                    },
                    None => None,
                };
            let given = match pathext {
                Some(p) => if text::trim(p).len() > 0 {
                    Some(p)
                } else {
                    None
                },
                None => None,
            };
            &&& common_places(host, vars, pathext) == usual_windows_places(
                host,
                value("USERPROFILE"@),
                value("APPDATA"@),
                value("NVM_SYMLINK"@),
                value("NVM_HOME"@),
                value("ProgramFiles"@),
                given,
            )
            &&& versions_dir(host, None, vars) == match value("APPDATA"@) {
                Some(dir) => Some(raw_path::join_text(host, dir, "nvm"@)),
                None => None,
            }
        }),
{
}

/// Every version is looked at, in the order that was found: in its `bin` directory, and on
/// Windows in its own directory, for a program first.
pub proof fn every_version_is_looked_at(
    platform: PlatformTarget,
    dir: Seq<u8>,
    names: Seq<Seq<u8>>,
    pathext: Option<Seq<char>>,
    i: int,
)
    requires
        0 <= i < names.len(),
    ensures
        ({
            let places = version_places(platform, dir, names, pathext);
            let version = raw_path::join(platform, dir, names[i]);
            &&& platform != PlatformTarget::Windows ==> places.len() == names.len() && places[i]
                == raw_path::join_text(platform, version, "bin/dsh"@)
            &&& platform == PlatformTarget::Windows ==> places.len() == 3 * names.len() && places[3
                * i] == raw_path::join_text(platform, version, "dsh"@ + ".exe"@)
        }),
    decreases names.len(),
{
    let before = names.drop_last();
    lemma_version_place_count(platform, dir, before, pathext);
    lemma_version_place_count(platform, dir, names, pathext);
    a_program_is_preferred_to_a_script(config::filled(pathext));
    if i < before.len() {
        every_version_is_looked_at(platform, dir, before, pathext, i);
    }
}

proof fn lemma_version_place_count(
    platform: PlatformTarget,
    dir: Seq<u8>,
    names: Seq<Seq<u8>>,
    pathext: Option<Seq<char>>,
)
    ensures
        platform != PlatformTarget::Windows ==> version_places(platform, dir, names, pathext).len()
            == names.len(),
        platform == PlatformTarget::Windows ==> version_places(platform, dir, names, pathext).len()
            == 3 * names.len(),
    decreases names.len(),
{
    a_program_is_preferred_to_a_script(config::filled(pathext));
    if names.len() > 0 {
        lemma_version_place_count(platform, dir, names.drop_last(), pathext);
    }
}

/// On Windows the directories whose names begin with a `v` are versions; elsewhere everything
/// is.
pub proof fn the_directories_of_nvm_are_versions(
    entries: Seq<(Vec<u8>, bool)>,
    windows: bool,
    name: Seq<u8>,
)
    ensures
        listed_versions(entries, windows).contains(name) <==> exists|i: int|
            0 <= i < entries.len() && (#[trigger] entries[i]).0@ == name && (windows ==> entries[i].1
                && name.len() > 0 && name[0] == 118),
    decreases entries.len(),
{
    let names = listed_versions(entries, windows);
    if entries.len() > 0 {
        let before = entries.drop_last();
        the_directories_of_nvm_are_versions(before, windows, name);
        let front = listed_versions(before, windows);
        let last = entries.last();
        if front.contains(name) {
            let k = choose|k: int| 0 <= k < front.len() && front[k] == name;
            assert(names[k] == name);
            let i = choose|i: int|
                0 <= i < before.len() && (#[trigger] before[i]).0@ == name && (windows
                    ==> before[i].1 && name.len() > 0 && name[0] == 118);
            assert(entries[i] == before[i]);
        } else {
            if names.contains(name) {
                let k = choose|k: int| 0 <= k < names.len() && names[k] == name;
                if k < front.len() {
                    assert(front[k] == name);
                }
                assert(entries[entries.len() - 1].0@ == name);
            }
            if exists|i: int|
                0 <= i < entries.len() && (#[trigger] entries[i]).0@ == name && (windows
                    ==> entries[i].1 && name.len() > 0 && name[0] == 118) {
                let i = choose|i: int|
                    0 <= i < entries.len() && (#[trigger] entries[i]).0@ == name && (windows
                        ==> entries[i].1 && name.len() > 0 && name[0] == 118);
                if i < before.len() {
                    assert(before[i] == entries[i]);
                } else {
                    assert(names[names.len() - 1] == name);
                }
            }
        }
    }
}

/// The versions are looked at from the last name to the first, and none is left out.
pub proof fn the_latest_version_is_looked_at_first(
    names: Seq<Seq<u8>>,
    order: Seq<Seq<u8>>,
    i: int,
    j: int,
)
    requires
        latest_first(names, order),
        0 <= i < j < order.len(),
    ensures
        !text::before(raw_path::spread(order[i]), raw_path::spread(order[j])),
        order.len() == names.len(),
{
    let all = raw_path::spread_all(order);
    let n = order.len() as int;
    assert(all.reverse()[n - 1 - i] == raw_path::spread(order[i]));
    assert(all.reverse()[n - 1 - j] == raw_path::spread(order[j]));
    all.to_multiset_ensures();
    raw_path::spread_all(names).to_multiset_ensures();
}

} // verus!
