//! The runtime that the launcher installs and keeps up to date by itself: its layout, its
//! marker, the downloads it is made of and the scripts that start it.

use vstd::prelude::*;
use vstd::slice::slice_subrange;

use crate::adapters;
use crate::adapters::{json_bool, semver_canonical, semver_newer, sha256};
use crate::config::PlatformTarget;
use crate::environment;
use crate::environment::{copied_bytes, launcher_environment, text_bytes, Vars};
use crate::login_shell::holds_text;
use crate::path;
use crate::path::{absolute, child, parent_of};
use crate::raw_path;
use crate::raw_path::{is_raw_path, raw_child, raw_parent};
use crate::search_path;
use crate::search_path::{
    append_service_path, delimiter_of, join_paths, prepend_service_path, split_paths,
};
use crate::text;
use crate::text::{
    before_suffix, begins, char_is_space, chars_of, each_replaced, holds_char, lines_of,
    lower_case, same, split_at_char, string_of, stripped_start, trimmed, with_replaced,
};
use crate::update::clone_text;

verus! {

pub const MARKER_NAME: &'static str = ".dsh-launcher-managed.json";

pub const MANAGED_SCHEMA: u8 = 1;

pub const NODE_INDEX_URL: &'static str = "https://nodejs.org/dist/index.json";

pub const NODE_MIRROR_INDEX_URL: &'static str = "https://npmmirror.com/mirrors/node/index.json";

pub const NPM_LATEST_URL: &'static str = "https://registry.npmjs.org/@deepseek-ai%2Fdsh/latest";

pub const NPM_MIRROR_LATEST_URL: &'static str =
    "https://registry.npmmirror.com/@deepseek-ai%2Fdsh/latest";

pub const DSH_RELEASE_API_URL: &'static str =
    "https://api.github.com/repos/deepseek-ai/deepseek-harness/releases/tags/";

pub const NPM_OFFICIAL_REGISTRY: &'static str = "https://registry.npmjs.org";

pub const NPM_MIRROR_REGISTRY: &'static str = "https://registry.npmmirror.com";

pub const NODE_OFFICIAL_DIST: &'static str = "https://nodejs.org/dist";

pub const NODE_MIRROR_DIST: &'static str = "https://npmmirror.com/mirrors/node";

pub const HTTP_TIMEOUT_SECS: u64 = 30;

pub const DOWNLOAD_TIMEOUT_SECS: u64 = 1200;

/// How often a download tells how far it has come.
pub const DOWNLOAD_PROGRESS_SECS: u64 = 1;

#[derive(Debug)]
pub struct ManagedStatus {
    pub managed_root: String,
    pub dsh_path: String,
    pub node_version: String,
    pub dsh_version: String,
}

/// What was installed, as it is kept in the root of the installation.
#[derive(Debug)]
pub struct Marker {
    pub schema: u8,
    pub node_version: String,
    pub dsh_version: String,
    pub use_mirror: bool,
}

impl Clone for Marker {
    fn clone(&self) -> (r: Self)
        ensures
            r == *self,
    {
        Marker {
            schema: self.schema,
            node_version: self.node_version.clone(),
            dsh_version: self.dsh_version.clone(),
            use_mirror: self.use_mirror,
        }
    }
}

// ---------------------------------------------------------------------------
// Layout
// ---------------------------------------------------------------------------

pub open spec fn runtime_of(host: PlatformTarget, root: Seq<char>) -> Seq<char> {
    path::join(host, root, "dsh-runtime"@)
}

pub fn runtime_dir(host: PlatformTarget, root: &str) -> (r: String)
    ensures
        r@ == runtime_of(host, root@),
{
    child(host, root, "dsh-runtime")
}

/// The command that is started; it is called `dsh` so that it is found by that name.
pub open spec fn entry_of(host: PlatformTarget, root: Seq<char>) -> Seq<char> {
    path::join(
        host,
        root,
        if host == PlatformTarget::Windows {
            "dsh.cmd"@
        } else {
            "dsh"@
        },
    )
}

pub fn managed_dsh_path(host: PlatformTarget, root: &str) -> (r: String)
    ensures
        r@ == entry_of(host, root@),
{
    if matches!(host, PlatformTarget::Windows) {
        child(host, root, "dsh.cmd")
    } else {
        child(host, root, "dsh")
    }
}

/// The command's name in the first layout.
pub open spec fn legacy_entry_of(host: PlatformTarget, root: Seq<char>) -> Seq<char> {
    path::join(
        host,
        root,
        if host == PlatformTarget::Windows {
            "dsh-managed.cmd"@
        } else {
            "dsh-managed"@
        },
    )
}

pub fn legacy_managed_dsh_path(host: PlatformTarget, root: &str) -> (r: String)
    ensures
        r@ == legacy_entry_of(host, root@),
{
    if matches!(host, PlatformTarget::Windows) {
        child(host, root, "dsh-managed.cmd")
    } else {
        child(host, root, "dsh-managed")
    }
}

pub open spec fn node_program(host: PlatformTarget, node_root: Seq<char>) -> Seq<char> {
    path::join(
        host,
        node_root,
        if host == PlatformTarget::Windows {
            "node.exe"@
        } else {
            "bin/node"@
        },
    )
}

pub fn node_executable(host: PlatformTarget, node_root: &str) -> (r: String)
    ensures
        r@ == node_program(host, node_root@),
{
    if matches!(host, PlatformTarget::Windows) {
        child(host, node_root, "node.exe")
    } else {
        child(host, node_root, "bin/node")
    }
}

pub open spec fn node_bin(host: PlatformTarget, node_root: Seq<char>) -> Seq<char> {
    if host == PlatformTarget::Windows {
        node_root
    } else {
        path::join(host, node_root, "bin"@)
    }
}

pub fn node_bin_dir(host: PlatformTarget, node_root: &str) -> (r: String)
    ensures
        r@ == node_bin(host, node_root@),
{
    if matches!(host, PlatformTarget::Windows) {
        node_root.to_string()
    } else {
        child(host, node_root, "bin")
    }
}

pub fn npm_cli(host: PlatformTarget, node_root: &str) -> (r: String)
    ensures
        r@ == path::join(
            host,
            node_root@,
            if host == PlatformTarget::Windows {
                "node_modules/npm/bin/npm-cli.js"@
            } else {
                "lib/node_modules/npm/bin/npm-cli.js"@
            },
        ),
{
    if matches!(host, PlatformTarget::Windows) {
        child(host, node_root, "node_modules/npm/bin/npm-cli.js")
    } else {
        child(host, node_root, "lib/node_modules/npm/bin/npm-cli.js")
    }
}

pub open spec fn script_of(host: PlatformTarget, prefix: Seq<char>) -> Seq<char> {
    path::join(host, prefix, "node_modules/@deepseek-ai/dsh/lib/bin.js"@)
}

pub fn dsh_entry(host: PlatformTarget, prefix: &str) -> (r: String)
    ensures
        r@ == script_of(host, prefix@),
{
    child(host, prefix, "node_modules/@deepseek-ai/dsh/lib/bin.js")
}

pub open spec fn marker_of(host: PlatformTarget, root: Seq<char>) -> Seq<char> {
    path::join(host, root, ".dsh-launcher-managed.json"@)
}

pub fn marker_path(host: PlatformTarget, root: &str) -> (r: String)
    ensures
        r@ == marker_of(host, root@),
{
    child(host, root, MARKER_NAME)
}

// ---------------------------------------------------------------------------
// The marker
// ---------------------------------------------------------------------------

/// The marker's file as it was found.
#[derive(Debug)]
pub enum MarkerFile {
    Missing,
    /// It is no marker; why.
    Broken(String),
    Read(Marker),
}

/// The marker, if it can be used.
pub open spec fn usable_marker(file: MarkerFile) -> Result<Marker, Seq<char>> {
    match file {
        MarkerFile::Missing => Err("该目录不是 Launcher 托管的运行环境"@),
        MarkerFile::Broken(e) => Err("托管环境标记损坏："@ + e@),
        MarkerFile::Read(m) => if m.schema != 1 {
            Err("托管环境标记版本不受支持"@)
        } else {
            Ok(m)
        },
    }
}

pub fn read_marker(file: MarkerFile) -> (r: Result<Marker, String>)
    ensures
        crate::process::outcome(r) == usable_marker(file),
{
    match file {
        MarkerFile::Missing => Err("该目录不是 Launcher 托管的运行环境".to_string()),
        MarkerFile::Broken(e) => Err("托管环境标记损坏：".to_string().concat(e.as_str())),
        MarkerFile::Read(m) => if m.schema != MANAGED_SCHEMA {
            Err("托管环境标记版本不受支持".to_string())
        } else {
            Ok(m)
        },
    }
}

/// Whether the mirror is used: as the marker says, and not without a usable marker.
pub open spec fn mirror_of(file: Option<MarkerFile>) -> bool {
    file matches Some(f) && (usable_marker(f) matches Ok(m) && m.use_mirror)
}

pub fn marker_mirror(file: Option<MarkerFile>) -> (r: bool)
    ensures
        r == mirror_of(file),
{
    match file {
        Some(file) => match read_marker(file) {
            Ok(m) => m.use_mirror,
            Err(_) => false,
        },
        None => false,
    }
}

pub open spec fn is_status_of(
    host: PlatformTarget,
    root: Seq<char>,
    marker: Marker,
    s: ManagedStatus,
) -> bool {
    &&& s.managed_root@ == root
    &&& s.dsh_path@ == entry_of(host, root)
    &&& s.node_version@ == marker.node_version@
    &&& s.dsh_version@ == marker.dsh_version@
}

pub fn status_from(host: PlatformTarget, root: &str, marker: Marker) -> (r: ManagedStatus)
    ensures
        is_status_of(host, root@, marker, r),
{
    ManagedStatus {
        managed_root: root.to_string(),
        dsh_path: managed_dsh_path(host, root),
        node_version: marker.node_version,
        dsh_version: marker.dsh_version,
    }
}

/// Which files of the installation are there.
#[derive(Debug, Clone, Copy)]
pub struct Installed {
    pub node: bool,
    pub runtime: bool,
    pub entry: bool,
}

pub fn managed_status(host: PlatformTarget, root: &str, file: MarkerFile, files: Installed) -> (r:
    Result<ManagedStatus, String>)
    ensures
        match usable_marker(file) {
            Err(error) => r matches Err(e) && e@ == error,
            Ok(marker) => if files.node && files.runtime && files.entry {
                r matches Ok(s) && is_status_of(host, root@, marker, s)
            } else {
                r matches Err(e) && e@ == "托管运行环境文件不完整"@
            },
        },
{
    let marker = match read_marker(file) {
        Ok(marker) => marker,
        Err(e) => return Err(e),
    };
    if !files.node || !files.runtime || !files.entry {
        return Err("托管运行环境文件不完整".to_string());
    }
    Ok(status_from(host, root, marker))
}

// ---------------------------------------------------------------------------
// The search path of the service
// ---------------------------------------------------------------------------

/// A command is the installed one only where it is the installation's own entry, the marker
/// is usable and Node and the runtime are there.
pub open spec fn is_managed(
    host: PlatformTarget,
    dsh: Seq<u8>,
    root: Seq<char>,
    file: MarkerFile,
    files: Installed,
) -> bool {
    &&& raw_path::is_path(host, dsh, entry_of(host, root))
    &&& usable_marker(file) is Ok
    &&& files.node && files.runtime && files.entry
}

/// Whether the command is the one that the launcher installed in `root`.
pub fn is_managed_dsh(
    host: PlatformTarget,
    dsh: &[u8],
    root: Option<&str>,
    file: MarkerFile,
    files: Installed,
) -> (r: bool)
    ensures
        r == (root is Some && is_managed(host, dsh@, root->0@, file, files)),
{
    match root {
        Some(root) => {
            let entry = managed_dsh_path(host, root);
            is_raw_path(host, dsh, entry.as_str()) && read_marker(file).is_ok() && files.node
                && files.runtime && files.entry
        },
        None => false,
    }
}

/// The directories that a service must find: its own and, for an installed one, that of its
/// Node.
pub open spec fn service_entries(host: PlatformTarget, dsh: Seq<u8>, managed: bool) -> Seq<
    Seq<u8>,
> {
    match raw_path::parent(host, dsh) {
        None => Seq::empty(),
        Some(dir) => if managed {
            seq![dir, raw_path::join_text(host, dir, node_bin(host, "node"@))]
        } else {
            seq![dir]
        },
    }
}

pub fn service_path_entries(host: PlatformTarget, dsh: &[u8], managed: bool) -> (r: Vec<Vec<u8>>)
    ensures
        environment::chunks(r@) == service_entries(host, dsh@, managed),
{
    let mut entries: Vec<Vec<u8>> = Vec::new();
    match raw_parent(host, dsh) {
        None => {},
        Some(dir) => {
            let bin = raw_child(host, dir.as_slice(), node_bin_dir(host, "node").as_str());
            entries.push(dir);
            if managed {
                entries.push(bin);
            }
        },
    }
    assert(environment::chunks(entries@) =~= service_entries(host, dsh@, managed));
    entries
}

/// The environment in which a service is started: the launcher's with the tool chain of the
/// login shell; an installed service finds its own directories first, any other one finds
/// its directory last.
pub open spec fn service_vars(
    host: PlatformTarget,
    base: Seq<(Seq<u8>, Seq<u8>)>,
    shell: Option<Seq<u8>>,
    inherited: Option<Seq<u8>>,
    dsh: Seq<u8>,
    managed: bool,
) -> Seq<(Seq<u8>, Seq<u8>)> {
    let vars = environment::launch_vars(host, base, shell);
    let entries = service_entries(host, dsh, managed);
    if managed {
        search_path::prepended(host, vars, entries, inherited)
    } else {
        search_path::appended(host, vars, entries, inherited)
    }
}

/// A command that the launcher installed is searched for its tools in its own directories
/// first, its Node among them, and then where everything was searched before. Any other command
/// leaves the order of the search as it was, with its directory behind it. Where a directory
/// cannot stand in a search path, the variables stay as they are.
pub proof fn an_installed_service_finds_its_own_tools_first(
    host: PlatformTarget,
    base: Seq<(Seq<u8>, Seq<u8>)>,
    shell: Option<Seq<u8>>,
    inherited: Option<Seq<u8>>,
    dsh: Seq<u8>,
    managed: bool,
)
    requires
        raw_path::parent(host, dsh) is Some,
        raw_path::parent(host, dsh)->0.len() > 0,
    ensures
        ({
            let dir = raw_path::parent(host, dsh)->0;
            let node = raw_path::join_text(
                host,
                dir,
                if host == PlatformTarget::Windows {
                    "node"@
                } else {
                    "node/bin"@
                },
            );
            let vars = environment::launch_vars(host, base, shell);
            let before = search_path::searched(host, vars, inherited);
            let after = search_path::searched(
                host,
                service_vars(host, base, shell, inherited, dsh, managed),
                inherited,
            );
            let wanted = if managed {
                seq![dir, node] + before
            } else {
                before + seq![dir]
            };
            &&& search_path::search_path(host, wanted) is Some ==> after == wanted
            &&& search_path::search_path(host, wanted) is None ==> service_vars(
                host,
                base,
                shell,
                inherited,
                dsh,
                managed,
            ) == vars
        }),
{
    let dir = raw_path::parent(host, dsh)->0;
    let node = raw_path::join_text(host, dir, node_bin(host, "node"@));
    let vars = environment::launch_vars(host, base, shell);
    let before = search_path::searched(host, vars, inherited);
    lemma_node_directory(host, dir);
    if managed {
        let entries = seq![dir, node];
        assert(service_entries(host, dsh, managed) =~= entries);
        if search_path::search_path(host, entries + before) is Some {
            search_path::prepended_directories_are_searched_first(host, vars, entries, inherited);
        }
    } else {
        let entries = seq![dir];
        assert(service_entries(host, dsh, managed) =~= entries);
        if search_path::search_path(host, before + entries) is Some {
            search_path::appended_directories_are_searched_last(host, vars, entries, inherited);
        }
    }
}

/// The directory of Node below another directory.
proof fn lemma_node_directory(host: PlatformTarget, dir: Seq<u8>)
    ensures
        text::starts_with(raw_path::join_text(host, dir, node_bin(host, "node"@)), dir),
        text::ends_with(
            raw_path::join_text(host, dir, node_bin(host, "node"@)),
            environment::bytes_of(node_bin(host, "node"@)),
        ),
        raw_path::join_text(host, dir, node_bin(host, "node"@)).len() > dir.len(),
        host == PlatformTarget::Windows ==> node_bin(host, "node"@) == "node"@,
        host != PlatformTarget::Windows ==> node_bin(host, "node"@) == "node/bin"@,
{
    reveal_strlit("node/bin");
    reveal_strlit("node");
    reveal_strlit("bin");
    let name = node_bin(host, "node"@);
    assert(host != PlatformTarget::Windows ==> name =~= seq!['n', 'o', 'd', 'e', '/', 'b', 'i', 'n']);
    assert(host != PlatformTarget::Windows ==> name =~= "node/bin"@);
    assert(name[0] == 'n');
    raw_path::ascii_text_is_its_bytes(name);
    raw_path::a_join_keeps_the_bytes(host, dir, environment::bytes_of(name));
}

pub fn service_environment(
    host: PlatformTarget,
    base: Vars,
    shell: Option<&[u8]>,
    inherited: Option<&[u8]>,
    dsh: &[u8],
    managed: bool,
) -> (r: Vars)
    ensures
        environment::vars_view(r@) == service_vars(
            host,
            environment::vars_view(base@),
            search_path::opt_slice(shell),
            search_path::opt_slice(inherited),
            dsh@,
            managed,
        ),
        raw_path::parent(host, dsh@) is Some && raw_path::parent(host, dsh@)->0.len() > 0 ==> {
            let dir = raw_path::parent(host, dsh@)->0;
            let before = search_path::searched(
                host,
                environment::launch_vars(
                    host,
                    environment::vars_view(base@),
                    search_path::opt_slice(shell),
                ),
                search_path::opt_slice(inherited),
            );
            let wanted = if managed {
                seq![
                    dir,
                    raw_path::join_text(
                        host,
                        dir,
                        if host == PlatformTarget::Windows {
                            "node"@
                        } else {
                            "node/bin"@
                        },
                    ),
                ] + before
            } else {
                before + seq![dir]
            };
            search_path::search_path(host, wanted) is Some ==> search_path::searched(
                host,
                environment::vars_view(r@),
                search_path::opt_slice(inherited),
            ) == wanted
        },
{
    proof {
        if raw_path::parent(host, dsh@) is Some && raw_path::parent(host, dsh@)->0.len() > 0 {
            an_installed_service_finds_its_own_tools_first(
                host,
                environment::vars_view(base@),
                search_path::opt_slice(shell),
                search_path::opt_slice(inherited),
                dsh@,
                managed,
            );
        }
    }
    let (mut envs, _) = launcher_environment(host, base, shell);
    let entries = service_path_entries(host, dsh, managed);
    if managed {
        prepend_service_path(host, &mut envs, &entries, inherited);
    } else {
        append_service_path(host, &mut envs, &entries, inherited);
    }
    envs
}

/// The search path of npm's scripts: Node's own directory, then what was searched before.
pub open spec fn script_search(
    host: PlatformTarget,
    node_root: Seq<char>,
    existing: Option<Seq<u8>>,
) -> Seq<u8> {
    let bin = environment::bytes_of(node_bin(host, node_root));
    match existing {
        None => bin,
        Some(v) => match search_path::search_path(
            host,
            seq![bin] + search_path::directories(host, v),
        ) {
            Some(joined) => joined,
            None => bin + seq![search_path::delimiter(host)] + v,
        },
    }
}

pub fn script_path(host: PlatformTarget, node_root: &str, existing: Option<&[u8]>) -> (r: Vec<u8>)
    ensures
        r@ == script_search(host, node_root@, search_path::opt_slice(existing)),
{
    let bin = text_bytes(node_bin_dir(host, node_root).as_str());
    let v = match existing {
        None => return bin,
        Some(v) => v,
    };
    let mut dirs: Vec<Vec<u8>> = Vec::new();
    dirs.push(copied_bytes(bin.as_slice()));
    let mut rest = split_paths(host, v);
    let ghost more = environment::chunks(rest@);
    dirs.append(&mut rest);
    assert(environment::chunks(dirs@) =~= seq![bin@] + more);
    match join_paths(host, &dirs) {
        Some(joined) => joined,
        None => {
            let mut out = bin;
            let ghost start = out@;
            out.push(delimiter_of(host));
            let mut tail = copied_bytes(v);
            out.append(&mut tail);
            assert(out@ =~= start + seq![search_path::delimiter(host)] + v@);
            out
        },
    }
}

/// Node's own directory as it stands at the front of a search path.
pub open spec fn node_front(host: PlatformTarget, node_root: Seq<char>) -> Seq<u8> {
    let bin = environment::bytes_of(node_bin(host, node_root));
    match search_path::listed(host, bin) {
        Some(l) => l,
        None => bin,
    }
}

/// npm's scripts find the installed Node before any other, whatever else is searched and
/// wherever it is installed.
pub proof fn scripts_find_the_installed_node_first(
    host: PlatformTarget,
    node_root: Seq<char>,
    existing: Seq<u8>,
)
    ensures
        text::starts_with(
            script_search(host, node_root, Some(existing)),
            node_front(host, node_root),
        ),
{
    let bin = environment::bytes_of(node_bin(host, node_root));
    let dirs = seq![bin] + search_path::directories(host, existing);
    let front = node_front(host, node_root);
    let r = script_search(host, node_root, Some(existing));
    assert(dirs[0] == bin);
    match search_path::search_path(host, dirs) {
        Some(joined) => {
            assert(joined.take(front.len() as int) =~= front);
        },
        None => {
            if host == PlatformTarget::Windows && search_path::listed(host, bin) is Some {
                lemma_windows_dirs_listed(existing, false, Seq::empty());
                lemma_all_listed(host, dirs);
            } else {
                assert(front == bin);
                assert(r.take(front.len() as int) =~= front);
            }
        },
    }
}

/// On Windows what is read from a search path can stand in one.
proof fn lemma_windows_dirs_listed(v: Seq<u8>, quoted: bool, current: Seq<u8>)
    requires
        !current.contains(0x22u8),
    ensures
        forall|i: int|
            0 <= i < search_path::split_quoted(v, quoted, current).len() ==> !(
            #[trigger] search_path::split_quoted(v, quoted, current)[i]).contains(0x22u8),
    decreases v.len(),
{
    if v.len() == 0 {
        assert(search_path::split_quoted(v, quoted, current) =~= seq![current]);
    } else if v[0] == 0x22 {
        lemma_windows_dirs_listed(v.skip(1), !quoted, current);
        assert(search_path::split_quoted(v, quoted, current) == search_path::split_quoted(
            v.skip(1),
            !quoted,
            current,
        ));
    } else if v[0] == 0x3b && !quoted {
        lemma_windows_dirs_listed(v.skip(1), false, Seq::empty());
        let rest = search_path::split_quoted(v.skip(1), false, Seq::empty());
        let all = search_path::split_quoted(v, quoted, current);
        assert(all == seq![current] + rest);
        assert forall|i: int| 0 <= i < all.len() implies !(#[trigger] all[i]).contains(0x22u8) by {
            if i > 0 {
                assert(all[i] == rest[i - 1]);
            }
        }
    } else {
        let next = current.push(v[0]);
        assert(!next.contains(0x22u8)) by {
            if next.contains(0x22u8) {
                let k = choose|k: int| 0 <= k < next.len() && next[k] == 0x22u8;
                if k < current.len() {
                    assert(current[k] == 0x22u8);
                }
            }
        }
        lemma_windows_dirs_listed(v.skip(1), quoted, next);
        assert(search_path::split_quoted(v, quoted, current) == search_path::split_quoted(
            v.skip(1),
            quoted,
            next,
        ));
    }
}

proof fn lemma_all_listed(host: PlatformTarget, dirs: Seq<Seq<u8>>)
    requires
        host == PlatformTarget::Windows,
        dirs.len() > 0,
        search_path::listed(host, dirs[0]) is Some,
        forall|i: int| 1 <= i < dirs.len() ==> !(#[trigger] dirs[i]).contains(0x22u8),
    ensures
        search_path::search_path(host, dirs) is Some,
    decreases dirs.len(),
{
    if dirs.len() > 1 {
        let rest = dirs.skip(1);
        assert(rest[0] == dirs[1]);
        assert forall|i: int| 1 <= i < rest.len() implies !(#[trigger] rest[i]).contains(0x22u8) by {
            assert(rest[i] == dirs[i + 1]);
        }
        lemma_all_listed(host, rest);
    }
}

// ---------------------------------------------------------------------------
// Downloads
// ---------------------------------------------------------------------------

pub open spec fn file_key(host: PlatformTarget, arm: bool) -> Seq<char> {
    match (host, arm) {
        (PlatformTarget::Windows, true) => "win-arm64-zip"@,
        (PlatformTarget::Windows, false) => "win-x64-zip"@,
        (PlatformTarget::MacOS, true) => "osx-arm64-tar"@,
        (PlatformTarget::MacOS, false) => "osx-x64-tar"@,
        (PlatformTarget::Unix, true) => "linux-arm64"@,
        (PlatformTarget::Unix, false) => "linux-x64"@,
    }
}

/// The name under which the list of Node releases knows the platform's package.
pub fn node_file_key(host: PlatformTarget, arm: bool) -> (r: &'static str)
    ensures
        r@ == file_key(host, arm),
{
    match (host, arm) {
        (PlatformTarget::Windows, true) => "win-arm64-zip",
        (PlatformTarget::Windows, false) => "win-x64-zip",
        (PlatformTarget::MacOS, true) => "osx-arm64-tar",
        (PlatformTarget::MacOS, false) => "osx-x64-tar",
        (PlatformTarget::Unix, true) => "linux-arm64",
        (PlatformTarget::Unix, false) => "linux-x64",
    }
}

pub open spec fn archive_name(host: PlatformTarget, arm: bool, version: Seq<char>) -> Seq<char> {
    "node-"@ + version + (match host {
        PlatformTarget::Windows => "-win-"@,
        PlatformTarget::MacOS => "-darwin-"@,
        PlatformTarget::Unix => "-linux-"@,
    }) + (if arm {
        "arm64"@
    } else {
        "x64"@
    }) + (if host == PlatformTarget::Windows {
        ".zip"@
    } else {
        ".tar.gz"@
    })
}

pub fn node_archive_name(host: PlatformTarget, arm: bool, version: &str) -> (r: String)
    ensures
        r@ == archive_name(host, arm, version@),
{
    let platform = match host {
        PlatformTarget::Windows => "-win-",
        PlatformTarget::MacOS => "-darwin-",
        PlatformTarget::Unix => "-linux-",
    };
    let arch = if arm {
        "arm64"
    } else {
        "x64"
    };
    let extension = if matches!(host, PlatformTarget::Windows) {
        ".zip"
    } else {
        ".tar.gz"
    };
    "node-".to_string().concat(version).concat(platform).concat(arch).concat(extension)
}

/// `s` without any number of the suffix at its end.
pub open spec fn without_suffixes(s: Seq<char>, suffix: Seq<char>) -> Seq<char>
    decreases s.len(),
{
    if suffix.len() > 0 && text::ends_with(s, suffix) {
        without_suffixes(s.take(s.len() - suffix.len()), suffix)
    } else {
        s
    }
}

fn drop_suffixes<'a>(s: &'a [char], suffix: &str) -> (r: &'a [char])
    requires
        suffix@.len() > 0,
    ensures
        r@ == without_suffixes(s@, suffix@),
{
    let mut rest: &'a [char] = s;
    loop
        invariant
            suffix@.len() > 0,
            without_suffixes(rest@, suffix@) == without_suffixes(s@, suffix@),
        ensures
            rest@ == without_suffixes(s@, suffix@),
        decreases rest.len(),
    {
        match before_suffix(rest, suffix) {
            Some(shorter) => {
                rest = shorter;
            },
            None => {
                break;
            },
        }
    }
    rest
}

pub fn archive_top_dir(filename: &str) -> (r: String)
    ensures
        r@ == without_suffixes(without_suffixes(filename@, ".tar.gz"@), ".zip"@),
{
    proof {
        reveal_strlit(".tar.gz");
        reveal_strlit(".zip");
    }
    let all = chars_of(filename);
    string_of(drop_suffixes(drop_suffixes(all.as_slice(), ".tar.gz"), ".zip"))
}

/// A release of Node: whether it has long-term support, and for which platforms there are
/// packages.
#[derive(Debug)]
pub struct NodeRelease {
    pub version: String,
    pub lts: bool,
    pub files: Vec<String>,
}

/// Whether the list of releases says that a release has long-term support: anything but
/// `false`.
pub fn is_lts(v: &serde_json::Value) -> (r: bool)
    ensures
        r == (adapters::json(*v) != adapters::Json::Bool(false)),
{
    match json_bool(v) {
        Some(b) => b,
        None => true,
    }
}

pub open spec fn is_wanted(release: NodeRelease, key: Seq<char>) -> bool {
    release.lts && text::texts(release.files@).contains(key)
}

/// The first release with long-term support that has a package for the platform.
pub fn fetch_node_release(releases: &Vec<NodeRelease>, file_key: &str) -> (r: Result<usize, String>)
    ensures
        match r {
            Ok(i) => i < releases.len() && is_wanted(releases@[i as int], file_key@) && forall|
                j: int,
            |
                0 <= j < i ==> !is_wanted(#[trigger] releases@[j], file_key@),
            Err(e) => (forall|j: int|
                0 <= j < releases.len() ==> !is_wanted(#[trigger] releases@[j], file_key@)) && e@
                == "Node 官方未提供当前平台架构的 LTS 包："@ + file_key@,
        },
{
    let mut i: usize = 0;
    while i < releases.len()
        invariant
            i <= releases.len(),
            forall|j: int| 0 <= j < i ==> !is_wanted(#[trigger] releases@[j], file_key@),
        decreases releases.len() - i,
    {
        if releases[i].lts && holds_text(&releases[i].files, file_key) {
            return Ok(i);
        }
        i += 1;
    }
    Err("Node 官方未提供当前平台架构的 LTS 包：".to_string().concat(file_key))
}

/// How much of the whole installation a download has done, between its first and its last
/// per cent.
pub open spec fn progress_of(downloaded: u64, total: u64) -> int {
    let size: int = if total == 0 {
        1
    } else {
        total as int
    };
    let scaled: int = if downloaded * 27 > u64::MAX {
        u64::MAX as int
    } else {
        downloaded * 27
    };
    let part = scaled / size;
    15 + if part > 27 {
        27
    } else {
        part
    }
}

pub fn download_percent(downloaded: u64, total: Option<u64>) -> (r: Option<u8>)
    ensures
        match total {
            Some(total) => r matches Some(p) && p == progress_of(downloaded, total) && 15 <= p
                <= 42,
            None => r is None,
        },
{
    match total {
        Some(total) => {
            let size: u64 = if total == 0 {
                1
            } else {
                total
            };
            let scaled: u64 = if downloaded > u64::MAX / 27 {
                u64::MAX
            } else {
                downloaded * 27
            };
            let part: u64 = scaled / size;
            assert(part as int == scaled as int / size as int);
            let capped: u8 = if part > 27 {
                27
            } else {
                part as u8
            };
            Some(15 + capped)
        },
        None => None,
    }
}

/// A line of a checksum list, read: the checksum and the file's name.
pub open spec fn checksum_line(line: Seq<char>) -> Option<(Seq<char>, Seq<char>)> {
    let n = text::find_space(line);
    if n < line.len() {
        Some((line.take(n), text::strip_start_of(line.skip(n + 1), seq![' ', '*'])))
    } else {
        None
    }
}

/// The checksum that the first line with the file's name gives.
pub open spec fn checksum_in(lines: Seq<Seq<char>>, filename: Seq<char>) -> Option<Seq<char>>
    decreases lines.len(),
{
    if lines.len() == 0 {
        None
    } else {
        match checksum_line(lines[0]) {
            Some(p) if p.1 == filename => Some(p.0),
            _ => checksum_in(lines.skip(1), filename),
        }
    }
}

fn read_checksum_line<'a>(line: &'a [char]) -> (r: Option<(&'a [char], &'a [char])>)
    ensures
        match r {
            Some(p) => checksum_line(line@) == Some((p.0@, p.1@)),
            None => checksum_line(line@) is None,
        },
{
    let mut n: usize = 0;
    assert(line@.skip(0) == line@);
    while n < line.len() && !char_is_space(line[n])
        invariant
            n <= line.len(),
            text::find_space(line@) == n + text::find_space(line@.skip(n as int)),
        decreases line.len() - n,
    {
        assert(line@.skip(n as int).skip(1) == line@.skip(n as int + 1));
        n += 1;
    }
    if n >= line.len() {
        return None;
    }
    let marks: Vec<char> = vec![' ', '*'];
    assert(marks@ =~= seq![' ', '*']);
    assert(line@.take(n as int) == line@.subrange(0, n as int));
    assert(line@.skip(n + 1) == line@.subrange(n + 1, line@.len() as int));
    Some(
        (
            slice_subrange(line, 0, n),
            stripped_start(slice_subrange(line, n + 1, line.len()), marks.as_slice()),
        ),
    )
}

/// The checksum of a file, by the whole of its name.
#[verifier::loop_isolation(false)]
pub fn expected_checksum(manifest: &str, filename: &str) -> (r: Result<String, String>)
    ensures
        match checksum_in(text::lines(manifest@), filename@) {
            Some(hash) => r matches Ok(h) && h@ == hash,
            None => r matches Err(e) && e@ == "Node 校验清单中没有目标文件"@,
        },
{
    let lines = lines_of(chars_of(manifest).as_slice());
    let name = chars_of(filename);
    let ghost all = text::lines(manifest@);
    let mut i: usize = 0;
    assert(all.skip(0) == all);
    while i < lines.len()
        invariant
            i <= lines.len(),
            checksum_in(all, filename@) == checksum_in(all.skip(i as int), filename@),
        decreases lines.len() - i,
    {
        assert(all.skip(i as int)[0] == lines@[i as int]@);
        assert(all.skip(i as int).skip(1) == all.skip(i as int + 1));
        if let Some((hash, file)) = read_checksum_line(lines[i].as_slice()) {
            if same(file, name.as_slice()) {
                return Ok(string_of(hash));
            }
        }
        i += 1;
    }
    Err("Node 校验清单中没有目标文件".to_string())
}

pub open spec fn hex_digit(n: int) -> char {
    if n < 10 {
        (48 + n) as char
    } else {
        (87 + n) as char
    }
}

/// Bytes in hexadecimal, in lower case.
pub open spec fn hex(bytes: Seq<u8>) -> Seq<char>
    decreases bytes.len(),
{
    if bytes.len() == 0 {
        Seq::empty()
    } else {
        hex(bytes.drop_last()).push(hex_digit(bytes.last() as int / 16)).push(
            hex_digit(bytes.last() as int % 16),
        )
    }
}

fn hex_char(n: u8) -> (r: char)
    requires
        n < 16,
    ensures
        r == hex_digit(n as int),
{
    if n < 10 {
        (48 + n) as char
    } else {
        (87 + n) as char
    }
}

pub fn hex_of(bytes: &[u8]) -> (r: Vec<char>)
    ensures
        r@ == hex(bytes@),
{
    let mut out: Vec<char> = Vec::new();
    let mut i: usize = 0;
    assert(out@ =~= hex(bytes@.take(0)));
    while i < bytes.len()
        invariant
            i <= bytes.len(),
            out@ == hex(bytes@.take(i as int)),
        decreases bytes.len() - i,
    {
        let ghost next = bytes@.take(i as int + 1);
        assert(next.drop_last() == bytes@.take(i as int));
        let b: u8 = bytes[i];
        out.push(hex_char(b / 16));
        out.push(hex_char(b % 16));
        i += 1;
    }
    assert(bytes@.take(bytes@.len() as int) == bytes@);
    out
}

/// The bytes have the expected checksum; the case of its letters does not count.
pub open spec fn checksum_matches(bytes: Seq<u8>, expected: Seq<char>) -> bool {
    text::lowered(hex(adapters::sha256_of(bytes))) == text::lowered(text::trim(expected))
}

/// Whether a digest is the expected one.
pub fn digest_matches(digest: &[u8], expected: &str) -> (r: bool)
    ensures
        r == (text::lowered(hex(digest@)) == text::lowered(text::trim(expected@))),
{
    let actual = lower_case(hex_of(digest).as_slice());
    let all = chars_of(expected);
    let wanted = lower_case(trimmed(all.as_slice()));
    same(actual.as_slice(), wanted.as_slice())
}

pub fn verify_sha256(bytes: &[u8], expected: &str) -> (r: Result<(), String>)
    ensures
        match r {
            Ok(_) => checksum_matches(bytes@, expected@),
            Err(e) => !checksum_matches(bytes@, expected@) && e@
                == "Node 下载文件 SHA-256 校验失败"@,
        },
{
    if digest_matches(sha256(bytes).as_slice(), expected) {
        Ok(())
    } else {
        Err("Node 下载文件 SHA-256 校验失败".to_string())
    }
}

/// A path in an archive that leads below the place where it is unpacked: it names no root,
/// no volume, no parent, and does not start with "here".
pub open spec fn stays_below(host: PlatformTarget, p: Seq<char>) -> bool {
    let slashed = if host == PlatformTarget::Windows {
        text::replace_char(p, '\\', '/')
    } else {
        p
    };
    let parts = text::split(slashed, '/');
    &&& path::volume_len(host, p) == 0
    &&& !path::starts_at_root(host, p)
    &&& !parts.contains(seq!['.', '.'])
    &&& parts[0] != seq!['.']
}

#[verifier::loop_isolation(false)]
pub fn validate_relative_path(host: PlatformTarget, entry: &str) -> (r: Result<(), String>)
    ensures
        match r {
            Ok(_) => stays_below(host, entry@),
            Err(e) => !stays_below(host, entry@) && e@ == "Node 压缩包包含不安全路径"@,
        },
{
    let p = chars_of(entry);
    let refusal = "Node 压缩包包含不安全路径";
    if path::volume_length(host, p.as_slice()) > 0 || (p.len() > 0 && path::char_is_sep(
        host,
        p[0],
    )) {
        return Err(refusal.to_string());
    }
    let slashed = if matches!(host, PlatformTarget::Windows) {
        with_replaced(p.as_slice(), '\\', '/')
    } else {
        p
    };
    let parts = split_at_char(slashed.as_slice(), '/');
    let ghost all = text::split(slashed@, '/');
    let mut i: usize = 0;
    while i < parts.len()
        invariant
            i <= parts.len(),
            forall|j: int| 0 <= j < i ==> all[j] != seq!['.', '.'],
            i > 0 ==> all[0] != seq!['.'],
        decreases parts.len() - i,
    {
        let ghost part = all[i as int];
        assert(part == parts@[i as int]@);
        if parts[i].len() == 2 && parts[i][0] == '.' && parts[i][1] == '.' {
            assert(part =~= seq!['.', '.']);
            assert(all.contains(seq!['.', '.']));
            return Err(refusal.to_string());
        }
        if i == 0 && parts[i].len() == 1 && parts[i][0] == '.' {
            assert(part =~= seq!['.']);
            return Err(refusal.to_string());
        }
        assert(part != seq!['.', '.']) by {
            if part == seq!['.', '.'] {
                assert(part[0] == '.' && part[1] == '.');
            }
        }
        assert(i == 0 ==> part != seq!['.']) by {
            if part == seq!['.'] {
                assert(part[0] == '.');
            }
        }
        i += 1;
    }
    assert(all.len() > 0);
    Ok(())
}

/// Where an entry of a zip archive goes.
#[derive(Debug)]
pub enum ZipTarget {
    Directory(String),
    /// A file, with the directory that must be there first.
    File { parent: Option<String>, file: String },
}

/// The place of an entry below the directory where the archive is unpacked. The entry's name
/// is missing where the archive has one that is not safe.
pub fn extract_archive(
    host: PlatformTarget,
    destination: &str,
    name: Option<&str>,
    is_dir: bool,
) -> (r: Result<ZipTarget, String>)
    ensures
        match name {
            None => r matches Err(e) && e@ == "Node zip 包含不安全路径"@,
            Some(name) => if !stays_below(host, name@) {
                r matches Err(e) && e@ == "Node 压缩包包含不安全路径"@
            } else {
                let place = path::join(host, destination@, name@);
                if is_dir {
                    r matches Ok(ZipTarget::Directory(d)) && d@ == place
                } else {
                    r matches Ok(ZipTarget::File { parent, file }) && file@ == place
                        && text::opt_text(parent) == path::parent(host, place)
                }
            },
        },
{
    match name {
        None => Err("Node zip 包含不安全路径".to_string()),
        Some(name) => {
            match validate_relative_path(host, name) {
                Err(e) => Err(e),
                Ok(_) => {
                    let place = child(host, destination, name);
                    if is_dir {
                        Ok(ZipTarget::Directory(place))
                    } else {
                        let parent = parent_of(host, place.as_str());
                        Ok(ZipTarget::File { parent, file: place })
                    }
                },
            }
        },
    }
}

/// What is unpacked stays below the directory where the archive is unpacked: its path is
/// that directory with the entry's name behind it.
pub proof fn an_archive_does_not_reach_outside(
    host: PlatformTarget,
    destination: Seq<char>,
    name: Seq<char>,
)
    requires
        stays_below(host, name),
    ensures
        text::starts_with(path::join(host, destination, name), destination),
        text::ends_with(path::join(host, destination, name), name),
{
    path::join_keeps_the_directory(host, destination, name);
}

// ---------------------------------------------------------------------------
// Where it may be installed
// ---------------------------------------------------------------------------

/// A path on a network share.
pub open spec fn on_network(p: Seq<char>) -> bool {
    text::starts_with(text::replace_char(p, '/', '\\'), "\\\\"@)
}

pub fn is_windows_network_path(text: &str) -> (r: bool)
    ensures
        r == on_network(text@),
{
    begins(
        with_replaced(chars_of(text).as_slice(), '/', '\\').as_slice(),
        chars_of("\\\\").as_slice(),
    )
}

/// The directory for the installation after it was made and listed.
#[derive(Debug)]
pub enum RootState {
    /// It could not be made; why.
    NotMade(String),
    /// It could not be listed; why.
    NotListed(String),
    Listed { empty: bool },
}

/// What is wrong with an absolute path as the place of an installation.
pub open spec fn root_complaint(
    host: PlatformTarget,
    root: Seq<char>,
    state: RootState,
) -> Option<Seq<char>> {
    match state {
        RootState::NotMade(e) => Some("创建安装目录失败："@ + e@),
        RootState::NotListed(e) => Some("读取安装目录失败："@ + e@),
        RootState::Listed { empty } => if !empty {
            Some("首次安装请选择空目录"@)
        } else if host == PlatformTarget::Windows {
            if root.contains('%') {
                Some("Windows 托管安装目录不能包含 % 字符"@)
            } else if on_network(root) {
                Some(
                    "Windows 托管安装目录不能使用网络共享路径（如 \\\\Mac\\Home 共享目录），请选择本地磁盘目录"@,
                )
            } else if root.contains(';') {
                Some("Windows 托管安装目录不能包含 ; 字符"@)
            } else {
                None
            }
        } else if root.contains(':') {
            Some("安装目录不能包含 : 字符"@)
        } else {
            None
        },
    }
}

/// Whether the path may be tried at all.
pub fn check_install_root(host: PlatformTarget, root: &str) -> (r: Result<(), String>)
    ensures
        match r {
            Ok(_) => path::is_absolute(host, root@),
            Err(e) => !path::is_absolute(host, root@) && e@ == "安装目录必须是绝对路径"@,
        },
{
    if absolute(host, root) {
        Ok(())
    } else {
        Err("安装目录必须是绝对路径".to_string())
    }
}

pub fn validate_install_root(host: PlatformTarget, root: &str, state: &RootState) -> (r: Result<
    (),
    String,
>)
    ensures
        match r {
            Ok(_) => root_complaint(host, root@, *state) is None,
            Err(e) => root_complaint(host, root@, *state) == Some(e@),
        },
{
    let empty = match state {
        RootState::NotMade(e) => return Err(
            "创建安装目录失败：".to_string().concat(e.as_str()),
        ),
        RootState::NotListed(e) => return Err(
            "读取安装目录失败：".to_string().concat(e.as_str()),
        ),
        RootState::Listed { empty } => *empty,
    };
    if !empty {
        return Err("首次安装请选择空目录".to_string());
    }
    let chars = chars_of(root);
    if matches!(host, PlatformTarget::Windows) {
        if holds_char(chars.as_slice(), '%') {
            return Err("Windows 托管安装目录不能包含 % 字符".to_string());
        }
        if is_windows_network_path(root) {
            return Err(
                "Windows 托管安装目录不能使用网络共享路径（如 \\\\Mac\\Home 共享目录），请选择本地磁盘目录".to_string(),
            );
        }
        if holds_char(chars.as_slice(), ';') {
            return Err("Windows 托管安装目录不能包含 ; 字符".to_string());
        }
    } else if holds_char(chars.as_slice(), ':') {
        return Err("安装目录不能包含 : 字符".to_string());
    }
    Ok(())
}

// ---------------------------------------------------------------------------
// The entry script
// ---------------------------------------------------------------------------

/// A text as one word of a shell.
pub open spec fn quoted(value: Seq<char>) -> Seq<char> {
    "'"@ + text::replace_each(value, '\'', "'\"'\"'"@) + "'"@
}

pub fn shell_quote(value: &str) -> (r: String)
    ensures
        r@ == quoted(value@),
{
    "'".to_string().concat(
        each_replaced(chars_of(value).as_slice(), '\'', "'\"'\"'").as_str(),
    ).concat("'")
}

/// A quoted text is one word to a shell, and that word is the text.
pub proof fn a_quoted_text_is_one_word(value: Seq<char>)
    ensures
        adapters::is_quoted_word(quoted(value), value),
{
    reveal_strlit("'");
    let open = "'"@ + text::replace_each(value, '\'', "'\"'\"'"@);
    lemma_quote_stays_open(value);
    assert(quoted(value).drop_last() =~= open);
    assert(quoted(value).last() == '\'');
}

proof fn lemma_quote_stays_open(value: Seq<char>)
    ensures
        adapters::unquoted("'"@ + text::replace_each(value, '\'', "'\"'\"'"@)) == Some(
            (Some('\''), value),
        ),
    decreases value.len(),
{
    reveal_strlit("'");
    reveal_strlit("'\"'\"'");
    let mark = "'\"'\"'"@;
    let all = "'"@ + text::replace_each(value, '\'', mark);
    if value.len() == 0 {
        assert(all =~= seq!['\'']);
        assert(all.drop_last() =~= Seq::<char>::empty());
        assert(adapters::unquoted(all.drop_last()) == Some((None::<char>, Seq::<char>::empty())));
        assert(value =~= Seq::<char>::empty());
    } else {
        let before = value.drop_last();
        let c = value.last();
        lemma_quote_stays_open(before);
        let rest = "'"@ + text::replace_each(before, '\'', mark);
        assert(value =~= before.push(c));
        if c == '\'' {
            let a = rest.push('\'');
            let b = a.push('"');
            let d = b.push('\'');
            let e = d.push('"');
            assert(all =~= e.push('\''));
            assert(a.drop_last() =~= rest);
            assert(adapters::unquoted(a) == Some((None::<char>, before)));
            assert(b.drop_last() =~= a);
            assert(adapters::unquoted(b) == Some((Some('"'), before)));
            assert(d.drop_last() =~= b);
            assert(adapters::unquoted(d) == Some((Some('"'), value)));
            assert(e.drop_last() =~= d);
            assert(adapters::unquoted(e) == Some((None::<char>, value)));
            assert(all.drop_last() =~= e);
        } else {
            assert(all =~= rest.push(c));
            assert(all.drop_last() =~= rest);
        }
    }
}

/// The script that starts DSH with the installed Node.
pub open spec fn entry_script(
    host: PlatformTarget,
    root: Seq<char>,
    prefix: Seq<char>,
) -> Seq<char> {
    let node = node_program(host, path::join(host, root, "node"@));
    let script = script_of(host, prefix);
    if host == PlatformTarget::Windows {
        "@echo off\r\n\""@ + node + "\" \""@ + script + "\" %*\r\n"@
    } else {
        "#!/bin/sh\nexec "@ + quoted(node) + " "@ + quoted(script) + " \"$@\"\n"@
    }
}

/// An entry runs the installed Node with the DSH script, and hands all its own arguments on:
/// on Windows its command ends with ` %*`, elsewhere with ` "$@"`, before the line ends.
pub proof fn an_entry_hands_its_arguments_on(
    host: PlatformTarget,
    root: Seq<char>,
    prefix: Seq<char>,
)
    ensures
        ({
            let entry = entry_script(host, root, prefix);
            let node = path::join(host, root, "node"@);
            if host == PlatformTarget::Windows {
                &&& text::starts_with(entry, "@echo off\r\n\""@)
                &&& text::ends_with(entry, "\" %*\r\n"@)
                &&& entry == "@echo off\r\n\""@ + path::join(host, node, "node.exe"@)
                    + "\" \""@ + path::join(
                    host,
                    prefix,
                    "node_modules/@deepseek-ai/dsh/lib/bin.js"@,
                ) + "\" %*\r\n"@
            } else {
                &&& text::starts_with(entry, "#!/bin/sh\nexec '"@)
                &&& text::ends_with(entry, "' \"$@\"\n"@)
                &&& entry == "#!/bin/sh\nexec "@ + quoted(path::join(host, node, "bin/node"@))
                    + " "@ + quoted(
                    path::join(host, prefix, "node_modules/@deepseek-ai/dsh/lib/bin.js"@),
                ) + " \"$@\"\n"@
            }
        }),
{
    let entry = entry_script(host, root, prefix);
    let node = node_program(host, path::join(host, root, "node"@));
    let script = script_of(host, prefix);
    if host == PlatformTarget::Windows {
        let head = "@echo off\r\n\""@;
        let tail = "\" %*\r\n"@;
        assert(entry.take(head.len() as int) =~= head);
        assert(entry.skip(entry.len() - tail.len()) =~= tail);
    } else {
        reveal_strlit("#!/bin/sh\nexec ");
        reveal_strlit("#!/bin/sh\nexec '");
        reveal_strlit(" \"$@\"\n");
        reveal_strlit("' \"$@\"\n");
        reveal_strlit("'");
        let head = "#!/bin/sh\nexec '"@;
        let tail = "' \"$@\"\n"@;
        assert(quoted(node)[0] == '\'');
        assert(quoted(script).last() == '\'');
        assert(entry.take(head.len() as int) =~= head);
        assert(entry.skip(entry.len() - tail.len()) =~= tail);
    }
}

pub fn create_wrapper_for(host: PlatformTarget, root: &str, dsh_prefix: &str) -> (r: String)
    ensures
        r@ == entry_script(host, root@, dsh_prefix@),
        host == PlatformTarget::Windows ==> text::starts_with(r@, "@echo off\r\n\""@)
            && text::ends_with(r@, "\" %*\r\n"@),
        host != PlatformTarget::Windows ==> text::starts_with(r@, "#!/bin/sh\nexec '"@)
            && text::ends_with(r@, "' \"$@\"\n"@),
{
    proof {
        an_entry_hands_its_arguments_on(host, root@, dsh_prefix@);
    }
    let node = node_executable(host, child(host, root, "node").as_str());
    let script = dsh_entry(host, dsh_prefix);
    if matches!(host, PlatformTarget::Windows) {
        "@echo off\r\n\"".to_string().concat(node.as_str()).concat("\" \"").concat(
            script.as_str(),
        ).concat("\" %*\r\n")
    } else {
        "#!/bin/sh\nexec ".to_string().concat(shell_quote(node.as_str()).as_str()).concat(
            " ",
        ).concat(shell_quote(script.as_str()).as_str()).concat(" \"$@\"\n")
    }
}

// ---------------------------------------------------------------------------
// Versions of DSH
// ---------------------------------------------------------------------------

pub open spec fn latest_url(use_mirror: bool) -> Seq<char> {
    if use_mirror {
        "https://registry.npmmirror.com/@deepseek-ai%2Fdsh/latest"@
    } else {
        "https://registry.npmjs.org/@deepseek-ai%2Fdsh/latest"@
    }
}

/// Where the latest version is asked for: at the source that the installation uses.
pub fn check_latest_dsh(file: Option<MarkerFile>) -> (r: &'static str)
    ensures
        r@ == latest_url(mirror_of(file)),
{
    latest_dsh_url(marker_mirror(file))
}

pub fn latest_dsh_url(use_mirror: bool) -> (r: &'static str)
    ensures
        r@ == latest_url(use_mirror),
{
    if use_mirror {
        NPM_MIRROR_LATEST_URL
    } else {
        NPM_LATEST_URL
    }
}

/// The answer to the question for the latest version.
#[derive(Debug)]
pub enum LatestAnswer {
    /// There was none; why.
    NotFetched(String),
    /// It could not be read; why.
    NotRead(String),
    Version(String),
}

/// The latest version, as it was given, if it is a version.
pub open spec fn latest_of(answer: LatestAnswer) -> Result<Seq<char>, Seq<char>> {
    match answer {
        LatestAnswer::NotFetched(e) => Err(e@),
        LatestAnswer::NotRead(e) => Err("解析 DSH 最新版本失败："@ + e@),
        LatestAnswer::Version(v) => if adapters::semver_text(text::trim(v@)) {
            Ok(v@)
        } else {
            Err("DSH 最新版本格式无效："@ + adapters::semver_complaint(text::trim(v@)))
        },
    }
}

pub fn fetch_latest_dsh(answer: LatestAnswer) -> (r: Result<String, String>)
    ensures
        crate::process::text_outcome(r) == latest_of(answer),
{
    match answer {
        LatestAnswer::NotFetched(e) => Err(e),
        LatestAnswer::NotRead(e) => Err(
            "解析 DSH 最新版本失败：".to_string().concat(e.as_str()),
        ),
        LatestAnswer::Version(v) => {
            let t = string_of(trimmed(chars_of(v.as_str()).as_slice()));
            match semver_canonical(t.as_str()) {
                Ok(_) => Ok(v),
                Err(e) => Err("DSH 最新版本格式无效：".to_string().concat(e.as_str())),
            }
        },
    }
}

#[derive(Debug)]
pub struct DshVersionInfo {
    pub current_version: String,
    pub current_notes: Option<String>,
    pub latest_version: String,
    pub latest_notes: Option<String>,
    pub update_available: bool,
}

/// The two versions before their notes are known.
#[derive(Debug)]
pub struct VersionPair {
    pub current: String,
    pub latest: String,
    pub update_available: bool,
}

/// The two versions, compared.
pub fn check_dsh_version(current_version: &str, latest: Result<String, String>) -> (r: Result<
    VersionPair,
    String,
>)
    ensures
        ({
            let current = text::trim(current_version@);
            if !adapters::semver_text(current) {
                r matches Err(e) && e@ == "当前 DSH 版本格式无效："@ + adapters::semver_complaint(
                    current,
                )
            } else {
                match latest {
                    Err(error) => r matches Err(e) && e@ == error@,
                    Ok(l) => {
                        let newest = text::trim(l@);
                        if !adapters::semver_text(newest) {
                            r matches Err(e) && e@ == "最新 DSH 版本格式无效："@
                                + adapters::semver_complaint(newest)
                        } else {
                            r matches Ok(p) && p.current@ == current && p.latest@ == newest
                                && p.update_available == adapters::semver_greater(newest, current)
                                && (newest == current ==> !p.update_available)
                        }
                    },
                }
            }
        }),
{
    let now = string_of(trimmed(chars_of(current_version).as_slice()));
    let current = match semver_canonical(now.as_str()) {
        Ok(current) => current,
        Err(e) => return Err("当前 DSH 版本格式无效：".to_string().concat(e.as_str())),
    };
    let newest = match latest {
        Ok(latest) => string_of(trimmed(chars_of(latest.as_str()).as_slice())),
        Err(e) => return Err(e),
    };
    let latest = match semver_canonical(newest.as_str()) {
        Ok(latest) => latest,
        Err(e) => return Err("最新 DSH 版本格式无效：".to_string().concat(e.as_str())),
    };
    let update_available = semver_newer(latest.as_str(), current.as_str());
    Ok(VersionPair { current, latest, update_available })
}

/// Where the notes of a version are asked for.
pub fn release_notes_url(version: &str) -> (r: String)
    ensures
        r@ == "https://api.github.com/repos/deepseek-ai/deepseek-harness/releases/tags/"@ + "v"@
            + version@,
{
    DSH_RELEASE_API_URL.to_string().concat("v").concat(version)
}

/// The notes of a version, unless they are blank.
pub fn fetch_release_notes(body: Option<String>) -> (r: Option<String>)
    ensures
        text::opt_text(r) == crate::update::notes_of(text::opt_text(body)),
{
    match body {
        Some(body) => {
            let all = chars_of(body.as_str());
            let t = trimmed(all.as_slice());
            if t.len() > 0 {
                Some(string_of(t))
            } else {
                None
            }
        },
        None => None,
    }
}

/// The two versions with their notes. Those of the latest are asked for only where it is
/// newer; else they are those of the current one.
pub fn with_notes(pair: VersionPair, current_notes: Option<String>, latest_notes: Option<String>)
    -> (r: DshVersionInfo)
    ensures
        r.current_version@ == pair.current@,
        r.latest_version@ == pair.latest@,
        r.update_available == pair.update_available,
        text::opt_text(r.current_notes) == text::opt_text(current_notes),
        text::opt_text(r.latest_notes) == (if pair.update_available {
            text::opt_text(latest_notes)
        } else {
            text::opt_text(current_notes)
        }),
{
    let newest = if pair.update_available {
        latest_notes
    } else {
        clone_text(&current_notes)
    };
    DshVersionInfo {
        current_version: pair.current,
        current_notes,
        latest_version: pair.latest,
        latest_notes: newest,
        update_available: pair.update_available,
    }
}

// ---------------------------------------------------------------------------
// What an installation is made of
// ---------------------------------------------------------------------------

/// Where the parts of an installation are: its command `dsh` and its marker in the root, the
/// runtime in a directory of its own, and npm and the program of Node below Node's directory.
pub proof fn the_parts_of_an_installation_are_known(host: PlatformTarget, root: Seq<char>)
    ensures
        runtime_of(host, root) == path::join(host, root, "dsh-runtime"@),
        marker_of(host, root) == path::join(host, root, ".dsh-launcher-managed.json"@),
        script_of(host, root) == path::join(
            host,
            root,
            "node_modules/@deepseek-ai/dsh/lib/bin.js"@,
        ),
        host == PlatformTarget::Windows ==> {
            &&& entry_of(host, root) == path::join(host, root, "dsh.cmd"@)
            &&& legacy_entry_of(host, root) == path::join(host, root, "dsh-managed.cmd"@)
            &&& node_program(host, root) == path::join(host, root, "node.exe"@)
            &&& node_bin(host, root) == root
        },
        host != PlatformTarget::Windows ==> {
            &&& entry_of(host, root) == path::join(host, root, "dsh"@)
            &&& legacy_entry_of(host, root) == path::join(host, root, "dsh-managed"@)
            &&& node_program(host, root) == path::join(host, root, "bin/node"@)
            &&& node_bin(host, root) == path::join(host, root, "bin"@)
        },
{
}

/// A marker is used if it could be read and is of the first schema; the mirror is used if such
/// a marker says so.
pub proof fn a_marker_of_the_first_schema_is_used(marker: Marker, why: String)
    ensures
        marker.schema == 1 ==> usable_marker(MarkerFile::Read(marker)) == Ok::<Marker, Seq<char>>(
            marker,
        ),
        marker.schema != 1 ==> usable_marker(MarkerFile::Read(marker)) is Err,
        usable_marker(MarkerFile::Missing) is Err,
        usable_marker(MarkerFile::Broken(why)) is Err,
        mirror_of(Some(MarkerFile::Read(marker))) <==> marker.schema == 1 && marker.use_mirror,
        !mirror_of(None),
        !mirror_of(Some(MarkerFile::Missing)),
        !mirror_of(Some(MarkerFile::Broken(why))),
{
}

/// A command is the installed one exactly if it is the command in the root of a whole
/// installation with a usable marker.
pub proof fn only_a_whole_installation_is_managed(
    host: PlatformTarget,
    dsh: Seq<u8>,
    root: Seq<char>,
    marker: Marker,
    files: Installed,
)
    ensures
        ({
            let entry = path::join(
                host,
                root,
                if host == PlatformTarget::Windows {
                    "dsh.cmd"@
                } else {
                    "dsh"@
                },
            );
            is_managed(host, dsh, root, MarkerFile::Read(marker), files) <==> raw_path::is_path(
                host,
                dsh,
                entry,
            ) && marker.schema == 1 && files.node && files.runtime && files.entry
        }),
        !is_managed(host, dsh, root, MarkerFile::Missing, files),
{
}

/// npm's scripts search the directory of Node and then, in the same order, wherever was
/// searched before; without that, the directory of Node alone. A Windows directory with a
/// semicolon stands in quotes.
pub proof fn scripts_search_on_where_it_was_searched(
    host: PlatformTarget,
    node_root: Seq<char>,
    existing: Seq<u8>,
)
    ensures
        ({
            let node = if host == PlatformTarget::Windows {
                environment::bytes_of(node_root)
            } else {
                environment::bytes_of(path::join(host, node_root, "bin"@))
            };
            &&& script_search(host, node_root, None) == node
            &&& host != PlatformTarget::Windows ==> script_search(host, node_root, Some(existing))
                == node + seq![0x3au8] + existing
            &&& host == PlatformTarget::Windows && !existing.contains(0x22u8) && !node.contains(
                0x3bu8,
            ) ==> script_search(host, node_root, Some(existing)) == node + seq![0x3bu8] + existing
            &&& host == PlatformTarget::Windows && !existing.contains(0x22u8) && node.contains(
                0x3bu8,
            ) && !node.contains(0x22u8) ==> script_search(host, node_root, Some(existing)) == seq![
                0x22u8,
            ] + node + seq![0x22u8] + seq![0x3bu8] + existing
        }),
{
    let node = environment::bytes_of(node_bin(host, node_root));
    let dirs = search_path::directories(host, existing);
    let all = seq![node] + dirs;
    assert(all[0] == node);
    assert(all.skip(1) =~= dirs);
    if host != PlatformTarget::Windows {
        lemma_parts_joined(existing);
        assert(dirs.len() >= 1);
    } else if !existing.contains(0x22u8) {
        assert(Seq::<u8>::empty() + existing =~= existing);
        lemma_quoted_parts_joined(existing, Seq::empty());
        assert(dirs.len() >= 1);
    }
}

/// The directories of a search path, joined again.
proof fn lemma_parts_joined(v: Seq<u8>)
    ensures
        text::split(v, 0x3au8).len() >= 1,
        search_path::search_path(PlatformTarget::Unix, text::split(v, 0x3au8)) == Some(v),
        search_path::search_path(PlatformTarget::MacOS, text::split(v, 0x3au8)) == Some(v),
    decreases v.len(),
{
    text::lemma_find(v, 0x3au8);
    let n = text::find(v, 0x3au8);
    let parts = text::split(v, 0x3au8);
    if n < v.len() {
        let rest = v.skip(n + 1);
        lemma_parts_joined(rest);
        assert(parts[0] == v.take(n));
        assert(parts.skip(1) =~= text::split(rest, 0x3au8));
        assert(v.take(n) + seq![0x3au8] + rest =~= v);
    } else {
        assert(parts[0] == v);
    }
}

/// The directories of a Windows search path without quotes, joined again.
proof fn lemma_quoted_parts_joined(v: Seq<u8>, current: Seq<u8>)
    requires
        !v.contains(0x22u8),
        !current.contains(0x22u8),
        !current.contains(0x3bu8),
    ensures
        search_path::split_quoted(v, false, current).len() >= 1,
        search_path::search_path(
            PlatformTarget::Windows,
            search_path::split_quoted(v, false, current),
        ) == Some(current + v),
    decreases v.len(),
{
    let parts = search_path::split_quoted(v, false, current);
    if v.len() == 0 {
        assert(parts[0] == current);
        assert(current + v =~= current);
    } else {
        assert(v.contains(v[0]));
        let rest = v.skip(1);
        assert forall|i: int| 0 <= i < rest.len() implies rest[i] != 0x22u8 by {
            assert(v.contains(v[i + 1]));
        }
        if v[0] == 0x3b {
            lemma_quoted_parts_joined(rest, Seq::empty());
            assert(parts[0] == current);
            assert(parts.skip(1) =~= search_path::split_quoted(rest, false, Seq::empty()));
            assert(current + seq![0x3bu8] + (Seq::<u8>::empty() + rest) =~= current + v);
        } else {
            let grown = current.push(v[0]);
            assert forall|i: int| 0 <= i < grown.len() implies grown[i] != 0x22u8 && grown[i]
                != 0x3bu8 by {
                if i < current.len() {
                    assert(current.contains(current[i]));
                }
            }
            lemma_quoted_parts_joined(rest, grown);
            assert(grown + rest =~= current + v);
        }
    }
}

/// The package of Node that is taken is the one for the system and the processor.
pub proof fn the_package_fits_the_machine(version: Seq<char>)
    ensures
        file_key(PlatformTarget::Windows, true) == "win-arm64-zip"@,
        file_key(PlatformTarget::Windows, false) == "win-x64-zip"@,
        file_key(PlatformTarget::MacOS, true) == "osx-arm64-tar"@,
        file_key(PlatformTarget::MacOS, false) == "osx-x64-tar"@,
        file_key(PlatformTarget::Unix, true) == "linux-arm64"@,
        file_key(PlatformTarget::Unix, false) == "linux-x64"@,
        archive_name(PlatformTarget::Windows, true, version) == "node-"@ + version
            + "-win-arm64.zip"@,
        archive_name(PlatformTarget::Windows, false, version) == "node-"@ + version
            + "-win-x64.zip"@,
        archive_name(PlatformTarget::MacOS, true, version) == "node-"@ + version
            + "-darwin-arm64.tar.gz"@,
        archive_name(PlatformTarget::MacOS, false, version) == "node-"@ + version
            + "-darwin-x64.tar.gz"@,
        archive_name(PlatformTarget::Unix, true, version) == "node-"@ + version
            + "-linux-arm64.tar.gz"@,
        archive_name(PlatformTarget::Unix, false, version) == "node-"@ + version
            + "-linux-x64.tar.gz"@,
{
    reveal_strlit("-win-arm64.zip");
    reveal_strlit("-win-x64.zip");
    reveal_strlit("-darwin-arm64.tar.gz");
    reveal_strlit("-darwin-x64.tar.gz");
    reveal_strlit("-linux-arm64.tar.gz");
    reveal_strlit("-linux-x64.tar.gz");
    reveal_strlit("-win-");
    reveal_strlit("-darwin-");
    reveal_strlit("-linux-");
    reveal_strlit("arm64");
    reveal_strlit("x64");
    reveal_strlit(".zip");
    reveal_strlit(".tar.gz");
    let v = "node-"@ + version;
    assert(v + "-win-"@ + "arm64"@ + ".zip"@ =~= v + "-win-arm64.zip"@);
    assert(v + "-win-"@ + "x64"@ + ".zip"@ =~= v + "-win-x64.zip"@);
    assert(v + "-darwin-"@ + "arm64"@ + ".tar.gz"@ =~= v + "-darwin-arm64.tar.gz"@);
    assert(v + "-darwin-"@ + "x64"@ + ".tar.gz"@ =~= v + "-darwin-x64.tar.gz"@);
    assert(v + "-linux-"@ + "arm64"@ + ".tar.gz"@ =~= v + "-linux-arm64.tar.gz"@);
    assert(v + "-linux-"@ + "x64"@ + ".tar.gz"@ =~= v + "-linux-x64.tar.gz"@);
}

/// The directory in an archive is called as the archive is, without the ending.
pub proof fn the_directory_of_an_archive_is_its_name(name: Seq<char>)
    requires
        name.len() > 0,
        name.last() != 'z' && name.last() != 'p',
    ensures
        without_suffixes(without_suffixes(name + ".tar.gz"@, ".tar.gz"@), ".zip"@) == name,
        without_suffixes(without_suffixes(name + ".zip"@, ".tar.gz"@), ".zip"@) == name,
        without_suffixes(without_suffixes(name, ".tar.gz"@), ".zip"@) == name,
{
    reveal_strlit(".tar.gz");
    reveal_strlit(".zip");
    lemma_without_suffix(name, ".tar.gz"@);
    lemma_without_suffix(name, ".zip"@);
    let zipped = name + ".zip"@;
    assert(zipped.last() == 'p');
    if text::ends_with(zipped, ".tar.gz"@) {
        assert(zipped.skip(zipped.len() - 7)[6] == zipped.last());
    }
}

proof fn lemma_without_suffix(name: Seq<char>, suffix: Seq<char>)
    requires
        name.len() > 0,
        suffix.len() > 0,
        name.last() != suffix.last(),
    ensures
        without_suffixes(name, suffix) == name,
        without_suffixes(name + suffix, suffix) == name,
{
    if text::ends_with(name, suffix) {
        let n = suffix.len() as int;
        assert(name.skip(name.len() - n)[n - 1] == name.last());
    }
    assert(!text::ends_with(name, suffix));
    assert(without_suffixes(name, suffix) == name);
    let whole = name + suffix;
    assert(whole.skip(whole.len() - suffix.len()) =~= suffix);
    assert(whole.take(whole.len() - suffix.len()) =~= name);
    assert(text::ends_with(whole, suffix));
    assert(without_suffixes(whole, suffix) == without_suffixes(name, suffix));
}

/// A download begins at fifteen per cent of the installation and ends at forty-two; in between
/// it counts as much as has come, and it never goes back.
pub proof fn a_download_counts_what_has_come(downloaded: u64, more: u64, total: u64)
    ensures
        15 <= progress_of(downloaded, total) <= 42,
        progress_of(0, total) == 15,
        downloaded <= more ==> progress_of(downloaded, total) <= progress_of(more, total),
        0 < total <= downloaded && total * 27 <= u64::MAX ==> progress_of(downloaded, total) == 42,
        downloaded < total && downloaded * 27 <= u64::MAX ==> {
            let part = progress_of(downloaded, total) - 15;
            part * total <= downloaded * 27 < (part + 1) * total
        },
{
    let size: int = if total == 0 {
        1
    } else {
        total as int
    };
    let scaled: int = if downloaded * 27 > u64::MAX {
        u64::MAX as int
    } else {
        downloaded * 27
    };
    let scaled_more: int = if more * 27 > u64::MAX {
        u64::MAX as int
    } else {
        more * 27
    };
    assert(0 <= scaled / size) by (nonlinear_arith)
        requires
            0 <= scaled,
            size > 0,
    ;
    assert(0int / size == 0) by (nonlinear_arith)
        requires
            size > 0,
    ;
    if downloaded <= more {
        assert(scaled <= scaled_more);
        assert(scaled / size <= scaled_more / size) by (nonlinear_arith)
            requires
                0 <= scaled <= scaled_more,
                size > 0,
        ;
    }
    if 0 < total <= downloaded && total * 27 <= u64::MAX {
        assert(scaled >= total * 27);
        assert(scaled / size >= 27) by (nonlinear_arith)
            requires
                scaled >= size * 27,
                size > 0,
        ;
    }
    if downloaded < total && downloaded * 27 <= u64::MAX {
        let part = scaled / size;
        assert(part * size <= scaled < (part + 1) * size) by (nonlinear_arith)
            requires
                part == scaled / size,
                size > 0,
        ;
        assert(part < 27) by (nonlinear_arith)
            requires
                part * size <= scaled,
                scaled < size * 27,
                size > 0,
        ;
    }
}

/// The checksum that a list gives for a file is that of the first line which ends with the
/// file's name, with two spaces or a space and a star between them.
pub proof fn a_listed_checksum_is_found(
    before: Seq<Seq<char>>,
    sum: Seq<char>,
    name: Seq<char>,
    after: Seq<Seq<char>>,
)
    requires
        forall|i: int| 0 <= i < sum.len() ==> !text::is_space(#[trigger] sum[i]),
        name.len() > 0,
        name[0] != ' ' && name[0] != '*',
        forall|i: int| 0 <= i < before.len() ==> !text::ends_with(#[trigger] before[i], name),
    ensures
        checksum_in(before + seq![sum + "  "@ + name] + after, name) == Some(sum),
        checksum_in(before + seq![sum + " *"@ + name] + after, name) == Some(sum),
{
    reveal_strlit("  ");
    reveal_strlit(" *");
    lemma_checksum_line(sum, ' ', name);
    lemma_checksum_line(sum, '*', name);
    assert(sum + "  "@ + name =~= sum + seq![' ', ' '] + name);
    assert(sum + " *"@ + name =~= sum + seq![' ', '*'] + name);
    lemma_checksum_after(before, sum + "  "@ + name, after, sum, name);
    lemma_checksum_after(before, sum + " *"@ + name, after, sum, name);
}

proof fn lemma_checksum_line(sum: Seq<char>, mark: char, name: Seq<char>)
    requires
        forall|i: int| 0 <= i < sum.len() ==> !text::is_space(#[trigger] sum[i]),
        mark == ' ' || mark == '*',
        name.len() > 0,
        name[0] != ' ' && name[0] != '*',
    ensures
        checksum_line(sum + seq![' ', mark] + name) == Some((sum, name)),
{
    let line = sum + seq![' ', mark] + name;
    lemma_space_after(sum, line.skip(sum.len() as int));
    assert(sum + line.skip(sum.len() as int) =~= line);
    assert(line.take(sum.len() as int) =~= sum);
    let rest = line.skip(sum.len() as int + 1);
    assert(rest[0] == mark);
    let set = seq![' ', '*'];
    assert(set[0] == ' ' && set[1] == '*');
    assert(set.contains(mark));
    assert(rest.skip(1) =~= name);
    assert(!set.contains(name[0]));
    assert(text::strip_start_of(name, set) == name);
}

proof fn lemma_space_after(word: Seq<char>, rest: Seq<char>)
    requires
        forall|i: int| 0 <= i < word.len() ==> !text::is_space(#[trigger] word[i]),
        rest.len() > 0,
        text::is_space(rest[0]),
    ensures
        text::find_space(word + rest) == word.len(),
    decreases word.len(),
{
    let all = word + rest;
    if word.len() == 0 {
        assert(all =~= rest);
    } else {
        assert(all[0] == word[0]);
        assert(all.skip(1) =~= word.skip(1) + rest);
        assert forall|i: int| 0 <= i < word.skip(1).len() implies !text::is_space(
            #[trigger] word.skip(1)[i],
        ) by {
            assert(word.skip(1)[i] == word[i + 1]);
        }
        lemma_space_after(word.skip(1), rest);
    }
}

proof fn lemma_checksum_after(
    before: Seq<Seq<char>>,
    line: Seq<char>,
    after: Seq<Seq<char>>,
    sum: Seq<char>,
    name: Seq<char>,
)
    requires
        forall|i: int| 0 <= i < before.len() ==> !text::ends_with(#[trigger] before[i], name),
        checksum_line(line) == Some((sum, name)),
    ensures
        checksum_in(before + seq![line] + after, name) == Some(sum),
    decreases before.len(),
{
    let all = before + seq![line] + after;
    if before.len() == 0 {
        assert(all[0] == line);
    } else {
        assert(all[0] == before[0]);
        lemma_checksum_name(before[0]);
        assert(all.skip(1) =~= before.skip(1) + seq![line] + after);
        assert forall|i: int| 0 <= i < before.skip(1).len() implies !text::ends_with(
            #[trigger] before.skip(1)[i],
            name,
        ) by {
            assert(before.skip(1)[i] == before[i + 1]);
        }
        lemma_checksum_after(before.skip(1), line, after, sum, name);
    }
}

/// A line of a list ends with the name of its file; before it stand the checksum, a white
/// space, and nothing but spaces and stars.
proof fn lemma_checksum_name(line: Seq<char>)
    ensures
        checksum_line(line) matches Some(p) ==> {
            &&& text::ends_with(line, p.1)
            &&& text::starts_with(line, p.0)
            &&& p.0.len() + 1 + p.1.len() <= line.len()
            &&& text::is_space(line[p.0.len() as int])
            &&& forall|j: int|
                p.0.len() < j < line.len() - p.1.len() ==> line[j] == ' ' || line[j] == '*'
        },
{
    let n = text::find_space(line);
    lemma_found_space(line);
    if n < line.len() {
        let rest = line.skip(n + 1);
        lemma_stripped(rest);
        let name = text::strip_start_of(rest, seq![' ', '*']);
        assert(line.skip(line.len() - name.len()) =~= name);
        assert forall|j: int| n < j < line.len() - name.len() implies line[j] == ' ' || line[j]
            == '*' by {
            assert(rest[j - n - 1] == line[j]);
        }
    }
}

proof fn lemma_found_space(s: Seq<char>)
    ensures
        0 <= text::find_space(s) <= s.len(),
        text::find_space(s) < s.len() ==> text::is_space(s[text::find_space(s)]),
        forall|i: int| 0 <= i < text::find_space(s) ==> !text::is_space(#[trigger] s[i]),
    decreases s.len(),
{
    if s.len() == 0 || text::is_space(s[0]) {
    } else {
        lemma_found_space(s.skip(1));
        assert forall|i: int| 0 <= i < text::find_space(s) implies !text::is_space(
            #[trigger] s[i],
        ) by {
            if i > 0 {
                assert(s.skip(1)[i - 1] == s[i]);
            }
        }
    }
}

proof fn lemma_stripped(s: Seq<char>)
    ensures
        ({
            let r = text::strip_start_of(s, seq![' ', '*']);
            &&& r.len() <= s.len()
            &&& r == s.skip(s.len() - r.len())
            &&& forall|j: int| 0 <= j < s.len() - r.len() ==> s[j] == ' ' || s[j] == '*'
        }),
    decreases s.len(),
{
    let set = seq![' ', '*'];
    if s.len() > 0 && set.contains(s[0]) {
        let rest = s.skip(1);
        lemma_stripped(rest);
        let r = text::strip_start_of(rest, set);
        assert(r =~= s.skip(s.len() - r.len()));
        assert forall|j: int| 0 <= j < s.len() - r.len() implies s[j] == ' ' || s[j] == '*' by {
            if j > 0 {
                assert(rest[j - 1] == s[j]);
            }
        }
    } else {
        assert(s.skip(0) =~= s);
    }
}

/// A checksum is taken only from a line that begins with it and ends with the whole name of
/// the file, with nothing but white space and stars between them.
pub proof fn a_checksum_belongs_to_the_whole_name(lines: Seq<Seq<char>>, name: Seq<char>)
    ensures
        checksum_in(lines, name) matches Some(sum) ==> exists|i: int|
            {
                &&& 0 <= i < lines.len()
                &&& text::starts_with(#[trigger] lines[i], sum)
                &&& text::ends_with(lines[i], name)
                &&& sum.len() + 1 + name.len() <= lines[i].len()
                &&& text::is_space(lines[i][sum.len() as int])
                &&& forall|j: int|
                    sum.len() < j < lines[i].len() - name.len() ==> lines[i][j] == ' '
                        || lines[i][j] == '*'
            },
    decreases lines.len(),
{
    if lines.len() > 0 {
        lemma_checksum_name(lines[0]);
        let rest = lines.skip(1);
        a_checksum_belongs_to_the_whole_name(rest, name);
        if !(checksum_line(lines[0]) matches Some(p) && p.1 == name) {
            if checksum_in(rest, name) is Some {
                let sum = checksum_in(rest, name)->0;
                let i = choose|i: int|
                    {
                        &&& 0 <= i < rest.len()
                        &&& text::starts_with(#[trigger] rest[i], sum)
                        &&& text::ends_with(rest[i], name)
                        &&& sum.len() + 1 + name.len() <= rest[i].len()
                        &&& text::is_space(rest[i][sum.len() as int])
                        &&& forall|j: int|
                            sum.len() < j < rest[i].len() - name.len() ==> rest[i][j] == ' '
                                || rest[i][j] == '*'
                    };
                assert(lines[i + 1] == rest[i]);
            }
        } else {
            assert(lines[0] == lines[0int]);
        }
    }
}

/// Bytes are told apart by their hexadecimal text: two digits for each byte, from `0` to `9`
/// and from `a` to `f`, the higher half first.
pub proof fn bytes_are_told_apart_in_hexadecimal(a: Seq<u8>, b: Seq<u8>)
    ensures
        hex(a).len() == 2 * a.len(),
        text::lowered(hex(a)) == hex(a),
        hex(a) == hex(b) ==> a == b,
        a.len() > 0 ==> {
            let high = hex(a)[hex(a).len() - 2] as int;
            let low = hex(a)[hex(a).len() - 1] as int;
            &&& high == if a.last() < 160 {
                48 + a.last() as int / 16
            } else {
                87 + a.last() as int / 16
            }
            &&& low == if a.last() % 16 < 10 {
                48 + a.last() as int % 16
            } else {
                87 + a.last() as int % 16
            }
            &&& hex(a).take(hex(a).len() - 2) == hex(a.drop_last())
        },
    decreases a.len(),
{
    lemma_hex(a);
    lemma_hex(b);
    if a.len() > 0 && b.len() > 0 {
        bytes_are_told_apart_in_hexadecimal(a.drop_last(), b.drop_last());
        if hex(a) == hex(b) {
            assert(a.last() == b.last());
            assert(hex(a).take(hex(a).len() - 2) == hex(b).take(hex(b).len() - 2));
            assert(a =~= a.drop_last().push(a.last()));
            assert(b =~= b.drop_last().push(b.last()));
        }
    } else if hex(a) == hex(b) {
        assert(a =~= b);
    }
}

proof fn lemma_hex(a: Seq<u8>)
    ensures
        hex(a).len() == 2 * a.len(),
        text::lowered(hex(a)) == hex(a),
        a.len() > 0 ==> {
            &&& hex(a)[hex(a).len() - 2] as int == if a.last() < 160 {
                48 + a.last() as int / 16
            } else {
                87 + a.last() as int / 16
            }
            &&& hex(a)[hex(a).len() - 1] as int == if a.last() % 16 < 10 {
                48 + a.last() as int % 16
            } else {
                87 + a.last() as int % 16
            }
            &&& hex(a).take(hex(a).len() - 2) == hex(a.drop_last())
        },
    decreases a.len(),
{
    if a.len() > 0 {
        let before = a.drop_last();
        lemma_hex(before);
        let x = hex(before);
        let h = hex_digit(a.last() as int / 16);
        let l = hex_digit(a.last() as int % 16);
        assert(hex(a) == x.push(h).push(l));
        assert(hex(a).take(hex(a).len() - 2) =~= x);
        assert(text::lowered(hex(a)) =~= hex(a)) by {
            assert forall|i: int| 0 <= i < hex(a).len() implies text::lower(hex(a)[i])
                == hex(a)[i] by {
                if i < x.len() {
                    assert(hex(a)[i] == x[i]);
                    assert(text::lowered(x)[i] == x[i]);
                }
            }
        }
    } else {
        assert(text::lowered(hex(a)) =~= hex(a));
    }
}

/// A download passes exactly if its digest is the expected one, in letters of either case.
pub proof fn only_the_expected_digest_passes(bytes: Seq<u8>, expected: Seq<u8>)
    ensures
        checksum_matches(bytes, hex(expected)) <==> adapters::sha256_of(bytes) == expected,
{
    let digest = adapters::sha256_of(bytes);
    bytes_are_told_apart_in_hexadecimal(digest, expected);
    lemma_hex(expected);
    lemma_hex_trimmed(expected);
}

proof fn lemma_hex_trimmed(a: Seq<u8>)
    ensures
        text::trim(hex(a)) == hex(a),
    decreases a.len(),
{
    if a.len() > 0 {
        lemma_hex(a);
        lemma_hex_first(a);
        text::lemma_trimmed(hex(a));
    }
}

proof fn lemma_hex_first(a: Seq<u8>)
    requires
        a.len() > 0,
    ensures
        !text::is_space(hex(a)[0]),
        !text::is_space(hex(a).last()),
    decreases a.len(),
{
    lemma_hex(a);
    if a.len() > 1 {
        lemma_hex_first(a.drop_last());
        assert(hex(a)[0] == hex(a).take(hex(a).len() - 2)[0]);
    }
}

/// A name that leaves the place where an archive is unpacked is refused: one from a root, on a
/// Windows drive or share, or with `..` among its parts.
pub proof fn a_name_that_leads_outside_is_refused(
    host: PlatformTarget,
    before: Seq<char>,
    after: Seq<char>,
)
    ensures
        !stays_below(host, "/"@ + after),
        !stays_below(host, "../"@ + after),
        !stays_below(host, "./"@ + after),
        !before.contains('/') && !before.contains('\\') ==> !stays_below(
            host,
            before + "/../"@ + after,
        ),
        !before.contains('/') && !before.contains('\\') ==> !stays_below(host, before + "/.."@),
        host == PlatformTarget::Windows ==> {
            &&& !stays_below(host, "\\"@ + after)
            &&& !stays_below(host, "..\\"@ + after)
            &&& !stays_below(host, "C:"@ + after)
        },
{
    reveal_strlit("/");
    reveal_strlit("../");
    reveal_strlit("./");
    reveal_strlit("/../");
    reveal_strlit("/..");
    reveal_strlit("\\");
    reveal_strlit("..\\");
    reveal_strlit("C:");
    let dots = seq!['.', '.'];
    let dot = seq!['.'];
    lemma_part_found(host, dots, after);
    lemma_part_found(host, dot, after);
    assert("../"@ + after =~= dots + seq!['/'] + after);
    assert("./"@ + after =~= dot + seq!['/'] + after);
    if host == PlatformTarget::Windows {
        let p = "..\\"@ + after;
        let slashed = text::replace_char(p, '\\', '/');
        let rest = text::replace_char(after, '\\', '/');
        assert(slashed =~= dots + seq!['/'] + rest);
        text::lemma_split_first(dots, '/', rest);
        assert(text::split(slashed, '/')[0] == dots);
    }
    if !before.contains('/') && !before.contains('\\') {
        let p = before + "/../"@ + after;
        let slashed = if host == PlatformTarget::Windows {
            text::replace_char(p, '\\', '/')
        } else {
            p
        };
        let rest = if host == PlatformTarget::Windows {
            text::replace_char(after, '\\', '/')
        } else {
            after
        };
        assert forall|i: int| 0 <= i < before.len() implies before[i] != '\\' by {
            assert(before.contains(before[i]));
        }
        assert(slashed =~= before + seq!['/'] + (dots + seq!['/'] + rest));
        text::lemma_split_first(before, '/', dots + seq!['/'] + rest);
        text::lemma_split_first(dots, '/', rest);
        assert(text::split(slashed, '/')[1] == dots);
        let q = before + "/.."@;
        let slashed_q = if host == PlatformTarget::Windows {
            text::replace_char(q, '\\', '/')
        } else {
            q
        };
        assert(slashed_q =~= before + seq!['/'] + dots);
        text::lemma_split_first(before, '/', dots);
        text::lemma_split_last(dots, '/');
        assert(text::split(slashed_q, '/')[1] == dots);
    }
}

proof fn lemma_part_found(host: PlatformTarget, part: Seq<char>, after: Seq<char>)
    requires
        forall|i: int| 0 <= i < part.len() ==> part[i] == '.',
    ensures
        ({
            let p = part + seq!['/'] + after;
            let slashed = if host == PlatformTarget::Windows {
                text::replace_char(p, '\\', '/')
            } else {
                p
            };
            text::split(slashed, '/')[0] == part
        }),
{
    let rest = if host == PlatformTarget::Windows {
        text::replace_char(after, '\\', '/')
    } else {
        after
    };
    let p = part + seq!['/'] + after;
    let slashed = if host == PlatformTarget::Windows {
        text::replace_char(p, '\\', '/')
    } else {
        p
    };
    assert(slashed =~= part + seq!['/'] + rest);
    text::lemma_split_first(part, '/', rest);
}

/// A directory is accepted exactly if it could be made and listed, is empty, and can be named
/// in scripts and search paths: without a percent sign, a semicolon or a share on Windows,
/// without a colon elsewhere.
pub proof fn a_usable_directory_is_accepted(
    host: PlatformTarget,
    root: Seq<char>,
    empty: bool,
    why: String,
)
    ensures
        root_complaint(host, root, RootState::NotMade(why)) is Some,
        root_complaint(host, root, RootState::NotListed(why)) is Some,
        ({
            let share = root.len() >= 2 && (root[0] == '\\' || root[0] == '/') && (root[1] == '\\'
                || root[1] == '/');
            root_complaint(host, root, RootState::Listed { empty }) is None <==> empty && (if host
                == PlatformTarget::Windows {
                !root.contains('%') && !root.contains(';') && !share
            } else {
                !root.contains(':')
            })
        }),
{
    reveal_strlit("\\\\");
    let turned = text::replace_char(root, '/', '\\');
    if root.len() >= 2 {
        let two = turned.take(2);
        assert(two[0] == turned[0] && two[1] == turned[1]);
        if turned[0] == '\\' && turned[1] == '\\' {
            assert(two =~= "\\\\"@);
        }
    }
}

/// The latest version is asked for at the mirror if the installation uses it, and at the
/// registry of npm otherwise; what is answered is taken as it is, if it is a version.
pub proof fn the_latest_version_is_asked_for_at_the_source(version: String, why: String)
    ensures
        latest_url(true) == "https://registry.npmmirror.com/@deepseek-ai%2Fdsh/latest"@,
        latest_url(false) == "https://registry.npmjs.org/@deepseek-ai%2Fdsh/latest"@,
        latest_of(LatestAnswer::NotFetched(why)) == Err::<Seq<char>, Seq<char>>(why@),
        latest_of(LatestAnswer::NotRead(why)) is Err,
        adapters::semver_text(text::trim(version@)) ==> latest_of(LatestAnswer::Version(version))
            == Ok::<Seq<char>, Seq<char>>(version@),
        !adapters::semver_text(text::trim(version@)) ==> latest_of(LatestAnswer::Version(version))
            is Err,
{
}

} // verus!
