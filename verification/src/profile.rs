//! Profiles of DSH: where they are, which plugins they hold, and the commands that change
//! them.

use vstd::prelude::*;

use crate::adapters;
use crate::adapters::{json_get, json_members, json_str, lossy_text, parse_json, Json};
use crate::config;
use crate::config::{home_dir_for, is_blank, EnvLookup, PlatformTarget};
use crate::environment;
use crate::environment::{copied_bytes, text_bytes};
use crate::login_shell::holds_text;
use crate::path;
use crate::path::child;
use crate::process::Query;
use crate::raw_path;
use crate::raw_path::raw_child;
use crate::search_path;
use crate::text;
use crate::text::{
    after_prefix, begins, char_is_alnum, chars_of, cut_at, equal, has_text, joined, lines_of,
    number, precedes, same, sort_texts, string_of, stripped_end, stripped_start, trimmed,
};

verus! {

// ---------------------------------------------------------------------------
// Directories
// ---------------------------------------------------------------------------

/// The directory in which DSH keeps its data: the one that is named, else `.dsh` in the
/// home directory.
pub open spec fn dsh_home(
    platform: PlatformTarget,
    named: Option<Seq<u8>>,
    vars: Seq<(Seq<char>, Seq<char>)>,
) -> Option<Seq<u8>> {
    match named {
        Some(dir) if dir.len() > 0 => Some(dir),
        _ => match config::home_directory(platform, vars) {
            Some(home) => Some(environment::bytes_of(path::join(platform, home, ".dsh"@))),
            None => None,
        },
    }
}

pub fn dsh_home_directory(
    platform: PlatformTarget,
    named: Option<&[u8]>,
    lookup: &EnvLookup,
) -> (r: Option<Vec<u8>>)
    ensures
        environment::opt_bytes(r) == dsh_home(platform, search_path::opt_slice(named), lookup@),
{
    if let Some(dir) = named {
        if dir.len() > 0 {
            return Some(copied_bytes(dir));
        }
    }
    match home_dir_for(platform, lookup) {
        Some(home) => Some(text_bytes(child(platform, home.as_str(), ".dsh").as_str())),
        None => None,
    }
}

/// The names of the directories that are profiles.
pub open spec fn profile_names(entries: Seq<(String, bool)>) -> Seq<Seq<char>>
    decreases entries.len(),
{
    if entries.len() == 0 {
        Seq::empty()
    } else {
        let front = profile_names(entries.drop_last());
        let (name, is_dir) = entries.last();
        if is_dir && !text::starts_with(name@, "."@) && name@ != "node_modules"@ {
            front.push(name@)
        } else {
            front
        }
    }
}

/// The profiles, with the one that every installation has.
pub open spec fn known_profiles(entries: Seq<(String, bool)>) -> Seq<Seq<char>> {
    let names = profile_names(entries);
    if names.contains("web"@) {
        names
    } else {
        names.push("web"@)
    }
}

/// The profiles in the order of the dictionary. Without a data directory there is `web`
/// alone.
pub fn discover_profiles(entries: Option<&Vec<(String, bool)>>) -> (r: Vec<String>)
    ensures
        match entries {
            Some(entries) => text::ascending(text::texts(r@)) && text::texts(r@).to_multiset()
                == known_profiles(entries@).to_multiset(),
            None => text::texts(r@) == seq!["web"@],
        },
        text::texts(r@).contains("web"@),
{
    let mut names: Vec<String> = Vec::new();
    let entries = match entries {
        Some(entries) => entries,
        None => {
            names.push("web".to_string());
            assert(text::texts(names@) =~= seq!["web"@]);
            assert(text::texts(names@)[0] == "web"@);
            return names;
        },
    };
    let mut i: usize = 0;
    assert(text::texts(names@) =~= profile_names(entries@.take(0)));
    while i < entries.len()
        invariant
            i <= entries.len(),
            text::texts(names@) == profile_names(entries@.take(i as int)),
        decreases entries.len() - i,
    {
        let ghost next = entries@.take(i as int + 1);
        let ghost before = text::texts(names@);
        assert(next.drop_last() == entries@.take(i as int));
        assert(next.last() == entries@[i as int]);
        let name = entries[i].0.as_str();
        if entries[i].1 && !begins(chars_of(name).as_slice(), chars_of(".").as_slice()) && !equal(
            name,
            "node_modules",
        ) {
            names.push(name.to_string());
            assert(text::texts(names@) =~= before.push(name@));
        }
        i += 1;
    }
    assert(entries@.take(entries@.len() as int) == entries@);
    if !holds_text(&names, "web") {
        let ghost before = text::texts(names@);
        names.push("web".to_string());
        assert(text::texts(names@) =~= before.push("web"@));
        assert(text::texts(names@)[before.len() as int] == "web"@);
    }
    let ghost all = text::texts(names@);
    assert(all.contains("web"@));
    let sorted = sort_texts(names);
    proof {
        all.to_multiset_ensures();
        text::texts(sorted@).to_multiset_ensures();
        assert(all.to_multiset().count("web"@) > 0);
    }
    sorted
}

/// A profile's name, `web` where none is given.
pub open spec fn profile_name(profile: Seq<char>) -> Seq<char> {
    if text::trim(profile).len() == 0 {
        "web"@
    } else {
        text::trim(profile)
    }
}

/// Letters, digits, `-` and `_` only.
pub open spec fn plain_name(name: Seq<char>) -> bool {
    forall|i: int|
        0 <= i < name.len() ==> text::is_alnum(#[trigger] name[i]) || name[i] == '-' || name[i]
            == '_'
}

fn is_plain_name(name: &[char]) -> (r: bool)
    ensures
        r == plain_name(name@),
{
    let mut i: usize = 0;
    while i < name.len()
        invariant
            i <= name.len(),
            forall|j: int|
                0 <= j < i ==> text::is_alnum(#[trigger] name@[j]) || name@[j] == '-' || name@[j]
                    == '_',
        decreases name.len() - i,
    {
        if !(char_is_alnum(name[i]) || name[i] == '-' || name[i] == '_') {
            assert(!(text::is_alnum(name@[i as int]) || name@[i as int] == '-' || name@[i as int]
                == '_'));
            return false;
        }
        i += 1;
    }
    true
}

/// The directory of a profile; none without a data directory or with a name that could lead
/// elsewhere.
pub open spec fn directory_of(
    platform: PlatformTarget,
    home: Option<Seq<u8>>,
    profile: Seq<char>,
) -> Option<Seq<u8>> {
    match home {
        Some(home) => if plain_name(profile_name(profile)) {
            Some(
                raw_path::join_text(
                    platform,
                    raw_path::join_text(platform, home, "profiles"@),
                    profile_name(profile),
                ),
            )
        } else {
            None
        },
        None => None,
    }
}

pub fn profile_directory(platform: PlatformTarget, home: Option<&[u8]>, profile: &str) -> (r:
    Option<Vec<u8>>)
    ensures
        environment::opt_bytes(r) == directory_of(
            platform,
            search_path::opt_slice(home),
            profile@,
        ),
{
    let home = match home {
        Some(home) => home,
        None => return None,
    };
    let all = chars_of(profile);
    let t = trimmed(all.as_slice());
    let name = if t.len() == 0 {
        "web".to_string()
    } else {
        string_of(t)
    };
    if !is_plain_name(chars_of(name.as_str()).as_slice()) {
        return None;
    }
    let profiles = raw_child(platform, home, "profiles");
    Some(raw_child(platform, profiles.as_slice(), name.as_str()))
}

/// A profile's directory is below the directory of profiles, one level down.
pub proof fn a_profile_stays_below_its_home(
    platform: PlatformTarget,
    home: Seq<u8>,
    profile: Seq<char>,
)
    requires
        directory_of(platform, Some(home), profile) is Some,
    ensures
        text::starts_with(
            directory_of(platform, Some(home), profile)->0,
            raw_path::join_text(platform, home, "profiles"@),
        ),
        !profile_name(profile).contains('/'),
        !profile_name(profile).contains('\\'),
        !profile_name(profile).contains('.'),
{
    let name = profile_name(profile);
    assert(!name.contains('/') && !name.contains('\\') && !name.contains('.'));
    assert(path::volume_len(platform, name) == 0) by {
        if name.len() >= 2 {
            assert(text::is_alnum(name[1]) || name[1] == '-' || name[1] == '_');
            assert(text::is_alnum(name[0]) || name[0] == '-' || name[0] == '_');
        }
    }
    assert(!path::starts_at_root(platform, name)) by {
        if name.len() > 0 {
            assert(text::is_alnum(name[0]) || name[0] == '-' || name[0] == '_');
        }
    }
    assert(vstd::utf8::is_ascii_chars(name)) by {
        assert forall|i: int| 0 <= i < name.len() implies '\0' <= #[trigger] name[i] <= '\u{7f}' by {
            assert(text::is_alnum(name[i]) || name[i] == '-' || name[i] == '_');
        }
    }
    raw_path::ascii_text_is_its_bytes(name);
    raw_path::a_join_keeps_the_bytes(
        platform,
        raw_path::join_text(platform, home, "profiles"@),
        environment::bytes_of(name),
    );
}

// ---------------------------------------------------------------------------
// The theme
// ---------------------------------------------------------------------------

pub open spec fn is_theme(t: Seq<char>) -> bool {
    t == "dark"@ || t == "light"@ || t == "system"@
}

/// The value of a preference line, without white space and quotes.
pub open spec fn preference_value(line: Seq<char>) -> Option<Seq<char>> {
    match text::strip_prefix(text::trim(line), "preference:"@) {
        Some(rest) => Some(crate::process::unquoted(text::trim(rest))),
        None => None,
    }
}

/// A line that starts another section: not indented, and with a colon.
pub open spec fn starts_section(line: Seq<char>) -> bool {
    !text::starts_with(line, " "@) && !text::starts_with(line, "\t"@) && text::contains_text(
        text::trim(line),
        ":"@,
    )
}

/// The theme that the lines set, given whether they start inside the section on themes.
pub open spec fn theme_in(lines: Seq<Seq<char>>, inside: bool) -> Seq<char>
    decreases lines.len(),
{
    if lines.len() == 0 {
        "system"@
    } else {
        let line = lines[0];
        let rest = lines.skip(1);
        if text::starts_with(text::trim(line), "ui-theme:"@) {
            theme_in(rest, true)
        } else if !inside {
            theme_in(rest, false)
        } else if starts_section(line) {
            theme_in(rest, false)
        } else {
            match preference_value(line) {
                Some(v) => if is_theme(v) {
                    v
                } else {
                    theme_in(rest, true)
                },
                None => theme_in(rest, true),
            }
        }
    }
}

/// The theme that the settings set; the system's where they set none.
#[verifier::loop_isolation(false)]
pub fn parse_dsh_theme_preference(yaml_text: &str) -> (r: String)
    ensures
        r@ == theme_in(text::lines(yaml_text@), false),
        is_theme(r@),
{
    let lines = lines_of(chars_of(yaml_text).as_slice());
    let ghost all = text::lines(yaml_text@);
    let section = chars_of("ui-theme:");
    let blank_char = chars_of(" ");
    let tab = chars_of("\t");
    let quotes: Vec<char> = vec!['\'', '"'];
    assert(quotes@ =~= seq!['\'', '"']);
    let mut inside = false;
    let mut i: usize = 0;
    assert(all.skip(0) == all);
    while i < lines.len()
        invariant
            i <= lines.len(),
            theme_in(all, false) == theme_in(all.skip(i as int), inside),
        decreases lines.len() - i,
    {
        assert(all.skip(i as int)[0] == lines@[i as int]@);
        assert(all.skip(i as int).skip(1) == all.skip(i as int + 1));
        let line = lines[i].as_slice();
        let t = trimmed(line);
        if begins(t, section.as_slice()) {
            inside = true;
        } else if inside {
            if !begins(line, blank_char.as_slice()) && !begins(line, tab.as_slice()) && has_text(
                t,
                ":",
            ) {
                inside = false;
            } else if let Some(rest) = after_prefix(t, "preference:") {
                let v = stripped_end(
                    stripped_start(trimmed(rest), quotes.as_slice()),
                    quotes.as_slice(),
                );
                if same(v, chars_of("dark").as_slice()) || same(v, chars_of("light").as_slice())
                    || same(v, chars_of("system").as_slice()) {
                    return string_of(v);
                }
            }
        }
        i += 1;
    }
    "system".to_string()
}

/// The theme of the settings file; the system's where there is none.
pub fn read_dsh_theme_preference(settings: Option<&str>) -> (r: String)
    ensures
        r@ == (match settings {
            Some(s) => theme_in(text::lines(s@), false),
            None => "system"@,
        }),
{
    match settings {
        Some(settings) => parse_dsh_theme_preference(settings),
        None => "system".to_string(),
    }
}

// ---------------------------------------------------------------------------
// Plugins
// ---------------------------------------------------------------------------

#[derive(Debug)]
pub struct ProfilePlugin {
    pub name: String,
    pub version: String,
}

pub open spec fn is_package_char(c: char) -> bool {
    text::is_alnum(c) || c == '-' || c == '_' || c == '.' || c == '@'
}

/// One part of a package's name.
pub open spec fn package_part(s: Seq<char>) -> bool {
    &&& s.len() > 0
    &&& s != "."@
    &&& s != ".."@
    &&& forall|i: int| 0 <= i < s.len() ==> is_package_char(#[trigger] s[i])
}

/// The name of a package, with or without a scope.
pub open spec fn package_name(name: Seq<char>) -> bool {
    let t = text::trim(name);
    t.len() <= 214 && match text::split_once(t, '/') {
        Some(p) => package_part(p.0) && package_part(p.1),
        None => package_part(t),
    }
}

fn is_package_part(s: &[char]) -> (r: bool)
    ensures
        r == package_part(s@),
{
    if s.len() == 0 || same(s, chars_of(".").as_slice()) || same(s, chars_of("..").as_slice()) {
        return false;
    }
    let mut i: usize = 0;
    while i < s.len()
        invariant
            i <= s.len(),
            forall|j: int| 0 <= j < i ==> is_package_char(#[trigger] s@[j]),
        decreases s.len() - i,
    {
        let c: char = s[i];
        if !(char_is_alnum(c) || c == '-' || c == '_' || c == '.' || c == '@') {
            assert(!is_package_char(s@[i as int]));
            return false;
        }
        i += 1;
    }
    true
}

pub fn validate_plugin_name(name: &str) -> (r: Result<(), String>)
    ensures
        match r {
            Ok(_) => package_name(name@),
            Err(e) => !package_name(name@) && e@ == "插件名无效"@,
        },
{
    let all = chars_of(name);
    let t = trimmed(all.as_slice());
    let ok = t.len() <= 214 && match cut_at(t, '/') {
        Some((scope, package)) => is_package_part(scope) && is_package_part(package),
        None => is_package_part(t),
    };
    if ok {
        Ok(())
    } else {
        Err("插件名无效".to_string())
    }
}

/// A valid name neither leaves the directory of packages nor holds a character with a
/// meaning to a shell.
pub proof fn a_plugin_name_is_harmless(name: Seq<char>, i: int)
    requires
        package_name(name),
        0 <= i < text::trim(name).len(),
    ensures
        is_package_char(text::trim(name)[i]) || text::trim(name)[i] == '/',
        text::trim(name) != ".."@,
{
    let t = text::trim(name);
    text::lemma_find(t, '/');
    let n = text::find(t, '/');
    if n < t.len() {
        if i < n {
            assert(t.take(n)[i] == t[i]);
        } else if i > n {
            assert(t.skip(n + 1)[i - n - 1] == t[i]);
        }
        if t == ".."@ {
            reveal_strlit("..");
            assert(t[n] == '/');
        }
    }
}

/// The names and versions of the dependencies, a version that is no text being empty.
pub open spec fn dependencies_of(package: Json) -> Seq<(Seq<char>, Seq<char>)> {
    match adapters::json_member(package, "dependencies"@) {
        Some(Json::Object(members)) => members.map_values(
            |m: (Seq<char>, Json)|
                (
                    m.0,
                    match m.1 {
                        Json::Text(t) => t,
                        _ => Seq::<char>::empty(),
                    },
                ),
        ),
        _ => Seq::empty(),
    }
}

pub open spec fn plugins_view(v: Seq<ProfilePlugin>) -> Seq<(Seq<char>, Seq<char>)> {
    v.map_values(|p: ProfilePlugin| (p.name@, p.version@))
}

/// In the order of the names.
pub open spec fn by_name(v: Seq<(Seq<char>, Seq<char>)>) -> bool {
    forall|i: int, j: int|
        0 <= i < j < v.len() ==> !text::before((#[trigger] v[j]).0, (#[trigger] v[i]).0)
}

fn plugin_place(v: &Vec<ProfilePlugin>, name: &[char]) -> (r: usize)
    requires
        by_name(plugins_view(v@)),
    ensures
        r <= v.len(),
        forall|i: int| 0 <= i < r ==> !text::before(name@, (#[trigger] plugins_view(v@)[i]).0),
        r < v.len() ==> text::before(name@, plugins_view(v@)[r as int].0),
{
    let mut i: usize = 0;
    while i < v.len()
        invariant
            i <= v.len(),
            forall|k: int| 0 <= k < i ==> !text::before(
                name@,
                (#[trigger] plugins_view(v@)[k]).0,
            ),
        decreases v.len() - i,
    {
        assert(plugins_view(v@)[i as int].0 == v@[i as int].name@);
        if precedes(name, chars_of(v[i].name.as_str()).as_slice()) {
            return i;
        }
        i += 1;
    }
    i
}

/// The plugins that a parsed package file lists, in the order of their names.
pub fn plugins_of(package: &serde_json::Value) -> (r: Vec<ProfilePlugin>)
    ensures
        by_name(plugins_view(r@)),
        plugins_view(r@).to_multiset() == dependencies_of(adapters::json(*package)).to_multiset(),
{
    let mut out: Vec<ProfilePlugin> = Vec::new();
    let ghost deps = dependencies_of(adapters::json(*package));
    assert(plugins_view(out@) =~= deps.take(0));
    let members = match json_get(package, "dependencies") {
        Some(d) => match json_members(d) {
            Some(members) => members,
            None => {
                assert(deps =~= deps.take(0));
                return out;
            },
        },
        None => {
            assert(deps =~= deps.take(0));
            return out;
        },
    };
    let mut i: usize = 0;
    while i < members.len()
        invariant
            i <= members.len(),
            members@.len() == deps.len(),
            forall|k: int|
                0 <= k < deps.len() ==> (#[trigger] members@[k]).0@ == deps[k].0 && (
                match adapters::json(*members@[k].1) {
                    Json::Text(t) => t,
                    _ => Seq::<char>::empty(),
                }) == deps[k].1,
            by_name(plugins_view(out@)),
            plugins_view(out@).to_multiset() == deps.take(i as int).to_multiset(),
        decreases members.len() - i,
    {
        let name = members[i].0.clone();
        let version = match json_str(members[i].1) {
            Some(v) => v,
            None => String::new(),
        };
        let ghost x = (name@, version@);
        assert(members@[i as int].0@ == deps[i as int].0);
        assert(x == deps[i as int]);
        let chars = chars_of(name.as_str());
        let at: usize = plugin_place(&out, chars.as_slice());
        let ghost old_out = plugins_view(out@);
        out.insert(at, ProfilePlugin { name, version });
        let ghost new_out = plugins_view(out@);
        assert(new_out =~= old_out.insert(at as int, x));
        assert(by_name(new_out)) by {
            assert forall|a: int, b: int| 0 <= a < b < new_out.len() implies !text::before(
                (#[trigger] new_out[b]).0,
                (#[trigger] new_out[a]).0,
            ) by {
                text::lemma_before_total(new_out[a].0, new_out[b].0);
                if a < at && b == at {
                    assert(new_out[a] == old_out[a]);
                } else if a == at && b > at {
                    assert(new_out[b] == old_out[b - 1]);
                    assert(text::before(x.0, old_out[at as int].0));
                    if text::before(old_out[b - 1].0, x.0) {
                        if b - 1 == at {
                            text::lemma_before_total(x.0, old_out[at as int].0);
                        } else {
                            text::lemma_before_transitive(
                                old_out[b - 1].0,
                                x.0,
                                old_out[at as int].0,
                            );
                            assert(!text::before(old_out[b - 1].0, old_out[at as int].0));
                        }
                    }
                } else {
                    let a0: int = if a < at {
                        a
                    } else {
                        a - 1
                    };
                    let b0: int = if b < at {
                        b
                    } else {
                        b - 1
                    };
                    assert(new_out[a] == old_out[a0]);
                    assert(new_out[b] == old_out[b0]);
                }
            }
        }
        proof {
            new_out.to_multiset_ensures();
            assert(new_out[at as int] == x);
            assert(new_out.contains(x));
            assert(new_out.remove(at as int) =~= old_out);
            assert(new_out.to_multiset() =~= old_out.to_multiset().insert(x));
            assert(deps.take(i as int + 1) =~= deps.take(i as int).push(x));
            deps.take(i as int).to_multiset_ensures();
        }
        i += 1;
    }
    assert(deps.take(deps.len() as int) == deps);
    out
}

/// The plugins of a profile: its package file must be there and be JSON.
pub fn read_profile_plugins(directory: Option<&[u8]>, package: Option<&str>) -> (r: Result<
    Vec<ProfilePlugin>,
    String,
>)
    ensures
        match (directory, package) {
            (None, _) => r matches Err(e) && e@ == "无法定位 Profile 目录"@,
            (Some(_), None) => r matches Err(e) && e@
                == "Profile 尚未初始化（未找到 package.json），请先启动一次 DSH"@,
            (Some(_), Some(text)) => match adapters::json_text(text@) {
                Err(error) => r matches Err(e) && e@ == "package.json 解析失败："@ + error,
                Ok(package) => r matches Ok(plugins) && by_name(plugins_view(plugins@))
                    && plugins_view(plugins@).to_multiset() == dependencies_of(
                    package,
                ).to_multiset(),
            },
        },
{
    if directory.is_none() {
        return Err("无法定位 Profile 目录".to_string());
    }
    match package {
        None => Err("Profile 尚未初始化（未找到 package.json），请先启动一次 DSH".to_string()),
        Some(package) => match parse_json(package) {
            Err(error) => Err("package.json 解析失败：".to_string().concat(error.as_str())),
            Ok(package) => Ok(plugins_of(&package)),
        },
    }
}

// ---------------------------------------------------------------------------
// Commands
// ---------------------------------------------------------------------------

/// The seconds that a clean-up and an installation may take.
pub const PNPM_CLEAN_TIMEOUT_SECS: u64 = 120;

pub const PNPM_INSTALL_TIMEOUT_SECS: u64 = 600;

/// How often a command that runs is looked at.
pub const OUTPUT_POLL_MILLIS: u64 = 200;

/// The command that runs pnpm: on Windows by way of the command interpreter.
pub fn pnpm_command(platform: PlatformTarget, args: &Vec<String>) -> (r: Query)
    ensures
        if platform == PlatformTarget::Windows {
            r.program@ == "cmd"@ && text::texts(r.args@) == seq![
                "/C"@,
                "pnpm "@ + text::join(text::texts(args@), " "@),
            ]
        } else {
            r.program@ == "pnpm"@ && text::texts(r.args@) == text::texts(args@)
        },
{
    let mut out: Vec<String> = Vec::new();
    if matches!(platform, PlatformTarget::Windows) {
        out.push("/C".to_string());
        out.push("pnpm ".to_string().concat(joined(args.as_slice(), " ").as_str()));
        assert(text::texts(out@) =~= seq![
            "/C"@,
            "pnpm "@ + text::join(text::texts(args@), " "@),
        ]);
        return Query { program: "cmd", args: out };
    }
    let mut i: usize = 0;
    while i < args.len()
        invariant
            i <= args.len(),
            out@.len() == i,
            forall|j: int| 0 <= j < i ==> (#[trigger] out@[j])@ == args@[j]@,
        decreases args.len() - i,
    {
        out.push(args[i].clone());
        i += 1;
    }
    assert(text::texts(out@) =~= text::texts(args@));
    Query { program: "pnpm", args: out }
}

/// Both outputs of a command as one text: the second follows on a line of its own, unless
/// it is blank.
pub open spec fn both_outputs(stdout: Seq<char>, stderr: Seq<char>) -> Seq<char> {
    if config::blank(stderr) {
        stdout
    } else if config::blank(stdout) {
        stdout + stderr
    } else {
        stdout.push('\n') + stderr
    }
}

/// What is known of a command that is waited for.
#[derive(Debug)]
pub enum CommandState {
    /// It has exited; its outputs, if they could be read.
    Exited { success: bool, outputs: Option<(Vec<u8>, Vec<u8>)> },
    /// It is running; whether time is up.
    Running { expired: bool },
    /// It cannot be watched; why.
    Unknown(String),
}

/// What is done with a command that is waited for.
#[derive(Debug)]
pub enum WaitStep {
    Again,
    /// It ended this way; with `kill` it must be killed first.
    Ended { result: Result<String, String>, kill: bool },
}

/// The text of what a command printed.
pub open spec fn printed(outputs: Option<(Vec<u8>, Vec<u8>)>) -> Seq<char> {
    match outputs {
        Some((out, err)) => both_outputs(adapters::lossy(out@), adapters::lossy(err@)),
        None => Seq::empty(),
    }
}

/// What becomes of a command that is waited for.
pub open spec fn waited_for(
    state: CommandState,
    display: Seq<char>,
    timeout_secs: u64,
    step: WaitStep,
) -> bool {
    match state {
        CommandState::Exited { success, outputs } => {
            &&& step matches WaitStep::Ended { result, kill }
            &&& !kill
            &&& if success {
                result matches Ok(o) && o@ == printed(outputs)
            } else {
                result matches Err(e) && e@ == display + " 失败："@ + printed(outputs)
            }
        },
        CommandState::Running { expired } => if expired {
            &&& step matches WaitStep::Ended { result, kill }
            &&& kill
            &&& result matches Err(e)
            &&& e@ == display + " 执行超时（"@ + text::decimal(timeout_secs as nat)
                + " 秒），子进程已被终止"@
        } else {
            step is Again
        },
        CommandState::Unknown(error) => {
            &&& step matches WaitStep::Ended { result, kill }
            &&& !kill
            &&& result matches Err(e)
            &&& e@ == "等待 "@ + display + " 退出失败："@ + error@
        },
    }
}

fn print_both(outputs: &Option<(Vec<u8>, Vec<u8>)>) -> (r: String)
    ensures
        r@ == printed(*outputs),
{
    match outputs {
        Some((out, err)) => {
            let mut text = lossy_text(out.as_slice());
            let errors = lossy_text(err.as_slice());
            if !is_blank(errors.as_str()) {
                if !is_blank(text.as_str()) {
                    text.push('\n');
                }
                text.append(errors.as_str());
            }
            text
        },
        None => String::new(),
    }
}

pub fn wait_for_output(state: &CommandState, display: &str, timeout_secs: u64) -> (r: WaitStep)
    ensures
        waited_for(*state, display@, timeout_secs, r),
{
    match state {
        CommandState::Exited { success, outputs } => {
            let output = print_both(outputs);
            let result = if *success {
                Ok(output)
            } else {
                Err(display.to_string().concat(" 失败：").concat(output.as_str()))
            };
            WaitStep::Ended { result, kill: false }
        },
        CommandState::Running { expired } => if *expired {
            WaitStep::Ended {
                result: Err(
                    display.to_string().concat(" 执行超时（").concat(
                        number(timeout_secs).as_str(),
                    ).concat(" 秒），子进程已被终止"),
                ),
                kill: true,
            }
        } else {
            WaitStep::Again
        },
        CommandState::Unknown(error) => WaitStep::Ended {
            result: Err(
                "等待 ".to_string().concat(display).concat(" 退出失败：").concat(error.as_str()),
            ),
            kill: false,
        },
    }
}

/// A line for the log of the plugins.
#[derive(Debug)]
pub struct PluginLog {
    pub level: &'static str,
    pub message: String,
}

pub open spec fn plugin_logs(v: Seq<PluginLog>) -> Seq<(Seq<char>, Seq<char>)> {
    v.map_values(|l: PluginLog| (l.level@, l.message@))
}

fn note(logs: &mut Vec<PluginLog>, level: &'static str, message: String)
    ensures
        plugin_logs(final(logs)@) == plugin_logs(old(logs)@).push((level@, message@)),
{
    let ghost before = plugin_logs(logs@);
    logs.push(PluginLog { level, message });
    assert(plugin_logs(logs@) =~= before.push((level@, message@)));
}

/// The arguments with which DSH uninstalls a plugin.
pub open spec fn uninstall_args(profile: Seq<char>, name: Seq<char>) -> Seq<Seq<char>> {
    seq!["plugin"@, "--profile"@, profile, "uninstall"@, name]
}

/// Why a plugin cannot be uninstalled.
pub open spec fn uninstall_complaint(name: Seq<char>, dsh_found: bool) -> Option<Seq<char>> {
    if !package_name(name) {
        Some("插件名无效"@)
    } else if !dsh_found {
        Some("未找到可执行的 dsh，请先在设置中指定 DSH 命令"@)
    } else {
        None
    }
}

/// What the log says before a plugin is uninstalled, and the arguments that do it.
pub fn uninstall_profile_plugin(profile: &str, name: &str, dsh_found: bool) -> (r: Result<
    (Vec<String>, String),
    String,
>)
    ensures
        match r {
            Ok(plan) => uninstall_complaint(name@, dsh_found) is None && text::texts(plan.0@)
                == uninstall_args(profile@, name@) && plan.1@ == "正在通过 dsh 卸载插件 "@ + name@
                + "..."@,
            Err(e) => uninstall_complaint(name@, dsh_found) == Some(e@),
        },
{
    match validate_plugin_name(name) {
        Ok(_) => {},
        Err(e) => return Err(e),
    }
    if !dsh_found {
        return Err("未找到可执行的 dsh，请先在设置中指定 DSH 命令".to_string());
    }
    let mut args: Vec<String> = Vec::new();
    args.push("plugin".to_string());
    args.push("--profile".to_string());
    args.push(profile.to_string());
    args.push("uninstall".to_string());
    args.push(name.to_string());
    assert(text::texts(args@) =~= uninstall_args(profile@, name@));
    Ok((args, "正在通过 dsh 卸载插件 ".to_string().concat(name).concat("...")))
}

/// What the log says of an output: itself, unless it is blank.
pub open spec fn output_log(output: Seq<char>) -> Seq<(Seq<char>, Seq<char>)> {
    if config::blank(output) {
        Seq::empty()
    } else {
        seq![("info"@, text::trim(output))]
    }
}

fn note_output(logs: &mut Vec<PluginLog>, output: &str)
    ensures
        plugin_logs(final(logs)@) == plugin_logs(old(logs)@) + output_log(output@),
{
    let ghost before = plugin_logs(logs@);
    let all = chars_of(output);
    let t = trimmed(all.as_slice());
    if t.len() > 0 {
        note(logs, "info", string_of(t));
        assert(plugin_logs(logs@) =~= before + output_log(output@));
    } else {
        assert(before + Seq::<(Seq<char>, Seq<char>)>::empty() =~= before);
    }
}

/// What came of the uninstallation, and what the log says of it.
pub fn plugin_uninstalled(name: &str, result: Result<String, String>) -> (r: (
    Result<(), String>,
    Vec<PluginLog>,
))
    ensures
        match result {
            Ok(output) => r.0 is Ok && plugin_logs(r.1@) == output_log(output@).push(
                ("info"@, "插件 "@ + name@ + " 已卸载"@),
            ),
            Err(error) => (r.0 matches Err(e) && e@ == "通过 dsh 卸载插件失败，详见服务日志"@)
                && plugin_logs(r.1@) == seq![("error"@, error@)],
        },
{
    let mut logs: Vec<PluginLog> = Vec::new();
    assert(plugin_logs(logs@) =~= Seq::<(Seq<char>, Seq<char>)>::empty());
    match result {
        Ok(output) => {
            note_output(&mut logs, output.as_str());
            assert(plugin_logs(logs@) =~= output_log(output@));
            note(&mut logs, "info", "插件 ".to_string().concat(name).concat(" 已卸载"));
            (Ok(()), logs)
        },
        Err(error) => {
            note(&mut logs, "error", error);
            assert(plugin_logs(logs@) =~= seq![("error"@, error@)]);
            (Err("通过 dsh 卸载插件失败，详见服务日志".to_string()), logs)
        },
    }
}

/// How far the clean-up of a profile has come.
#[derive(Debug)]
pub enum CleanStage {
    /// What is there must be removed.
    Clean,
    /// It must be installed anew.
    Install,
    Done(Result<(), String>),
}

/// The clean-up of a profile after one of its commands, and what the log says.
pub open spec fn cleaned(
    stage: CleanStage,
    result: Result<String, String>,
    next: CleanStage,
    logs: Seq<(Seq<char>, Seq<char>)>,
) -> bool {
    match (stage, result) {
        (CleanStage::Clean, Err(error)) => (next matches CleanStage::Done(Err(e)) && e@ == error@)
            && logs == seq![("error"@, error@)],
        (CleanStage::Clean, Ok(_)) => next is Install && logs == seq![
            ("info"@, "正在执行 pnpm install..."@),
        ],
        (CleanStage::Install, Ok(output)) => (next matches CleanStage::Done(Ok(_))) && logs
            == output_log(output@).push(("info"@, "依赖已清理并重新安装完成"@)),
        (CleanStage::Install, Err(error)) => (next matches CleanStage::Done(Err(e)) && e@
            == error@) && logs == seq![
            ("error"@, "pnpm install 失败，Profile 可能不可用，请检查上方日志"@),
        ],
        (CleanStage::Done(_), _) => next == stage && logs.len() == 0,
    }
}

/// Begins to clean up a profile, with what the log says.
pub fn run_profile_clean(directory: Option<&[u8]>, has_package: bool) -> (r: Result<
    &'static str,
    String,
>)
    ensures
        match r {
            Ok(log) => directory is Some && has_package && log@
                == "正在执行 pnpm clean --lockfile..."@,
            Err(e) => if directory is None {
                e@ == "无法定位 Profile 目录"@
            } else {
                !has_package && e@ == "Profile 尚未初始化（未找到 package.json）"@
            },
        },
{
    if directory.is_none() {
        return Err("无法定位 Profile 目录".to_string());
    }
    if !has_package {
        return Err("Profile 尚未初始化（未找到 package.json）".to_string());
    }
    Ok("正在执行 pnpm clean --lockfile...")
}

/// Goes on with the clean-up once a command has ended.
pub fn clean_next(stage: CleanStage, result: Result<String, String>) -> (r: (
    CleanStage,
    Vec<PluginLog>,
))
    ensures
        cleaned(stage, result, r.0, plugin_logs(r.1@)),
{
    let mut logs: Vec<PluginLog> = Vec::new();
    assert(plugin_logs(logs@) =~= Seq::<(Seq<char>, Seq<char>)>::empty());
    match (stage, result) {
        (CleanStage::Clean, Err(error)) => {
            note(&mut logs, "error", error.clone());
            assert(plugin_logs(logs@) =~= seq![("error"@, error@)]);
            (CleanStage::Done(Err(error)), logs)
        },
        (CleanStage::Clean, Ok(_)) => {
            note(&mut logs, "info", "正在执行 pnpm install...".to_string());
            assert(plugin_logs(logs@) =~= seq![("info"@, "正在执行 pnpm install..."@)]);
            (CleanStage::Install, logs)
        },
        (CleanStage::Install, Ok(output)) => {
            note_output(&mut logs, output.as_str());
            assert(plugin_logs(logs@) =~= output_log(output@));
            note(&mut logs, "info", "依赖已清理并重新安装完成".to_string());
            (CleanStage::Done(Ok(())), logs)
        },
        (CleanStage::Install, Err(error)) => {
            note(
                &mut logs,
                "error",
                "pnpm install 失败，Profile 可能不可用，请检查上方日志".to_string(),
            );
            assert(plugin_logs(logs@) =~= seq![
                ("error"@, "pnpm install 失败，Profile 可能不可用，请检查上方日志"@),
            ]);
            (CleanStage::Done(Err(error)), logs)
        },
        (CleanStage::Done(done), _) => (CleanStage::Done(done), logs),
    }
}

// ---------------------------------------------------------------------------
// What profiles and their commands are
// ---------------------------------------------------------------------------

/// DSH keeps its data in the directory that is named for it, and otherwise in `.dsh` of the
/// home directory.
pub proof fn a_named_directory_is_the_home_of_dsh(
    platform: PlatformTarget,
    named: Seq<u8>,
    vars: Seq<(Seq<char>, Seq<char>)>,
)
    ensures
        named.len() > 0 ==> dsh_home(platform, Some(named), vars) == Some(named),
        ({
            let name = if platform == PlatformTarget::Windows {
                "USERPROFILE"@
            } else {
                "HOME"@
            };
            let home = config::looked_up(vars, name);
            let set = home is Some && text::trim(home->0).len() > 0;
            let empty: Option<Seq<u8>> = Some(Seq::empty());
            &&& set ==> dsh_home(platform, None, vars) == Some(
                environment::bytes_of(path::join(platform, home->0, ".dsh"@)),
            )
            &&& !set ==> dsh_home(platform, None, vars) is None
            &&& dsh_home(platform, empty, vars) == dsh_home(platform, None, vars)
        }),
{
}

/// A directory is a profile unless it is hidden or holds packages; a file is none. The profile
/// `web` is always known.
pub proof fn the_directories_are_the_profiles(entries: Seq<(String, bool)>, name: Seq<char>)
    ensures
        profile_names(entries).contains(name) <==> exists|i: int|
            0 <= i < entries.len() && (#[trigger] entries[i]).0@ == name && entries[i].1 && !(
            name.len() > 0 && name[0] == '.') && name != "node_modules"@,
        known_profiles(entries).contains(name) <==> profile_names(entries).contains(name) || name
            == "web"@,
    decreases entries.len(),
{
    reveal_strlit(".");
    let names = profile_names(entries);
    if name.len() > 0 {
        assert(name.take(1)[0] == name[0]);
        if name[0] == '.' {
            assert(name.take(1) =~= "."@);
        }
    }
    if entries.len() > 0 {
        let before = entries.drop_last();
        the_directories_are_the_profiles(before, name);
        let front = profile_names(before);
        let (last, is_dir) = entries.last();
        if front.contains(name) {
            let k = choose|k: int| 0 <= k < front.len() && front[k] == name;
            assert(names[k] == name);
            let i = choose|i: int|
                0 <= i < before.len() && (#[trigger] before[i]).0@ == name && before[i].1 && !(
                name.len() > 0 && name[0] == '.') && name != "node_modules"@;
            assert(entries[i] == before[i]);
        } else if names.contains(name) {
            let k = choose|k: int| 0 <= k < names.len() && names[k] == name;
            if k < front.len() {
                assert(front[k] == name);
            }
            assert(entries[entries.len() - 1].0@ == name);
        } else if last@ == name && is_dir && !(name.len() > 0 && name[0] == '.') && name
            != "node_modules"@ {
            assert(names[names.len() - 1] == name);
        }
        if exists|i: int|
            0 <= i < entries.len() && (#[trigger] entries[i]).0@ == name && entries[i].1 && !(
            name.len() > 0 && name[0] == '.') && name != "node_modules"@ {
            let i = choose|i: int|
                0 <= i < entries.len() && (#[trigger] entries[i]).0@ == name && entries[i].1 && !(
                name.len() > 0 && name[0] == '.') && name != "node_modules"@;
            if i < before.len() {
                assert(before[i] == entries[i]);
                assert(front.contains(name));
            }
        }
    }
    let known = known_profiles(entries);
    if !names.contains("web"@) {
        assert(known[names.len() as int] == "web"@);
        if names.contains(name) {
            let k = choose|k: int| 0 <= k < names.len() && names[k] == name;
            assert(known[k] == name);
        }
        if known.contains(name) && name != "web"@ {
            let k = choose|k: int| 0 <= k < known.len() && known[k] == name;
            assert(names[k] == name);
        }
    }
}

/// A name of letters, digits, `-` and `_`.
pub open spec fn has_name_characters_only(name: Seq<char>) -> bool {
    forall|i: int|
        0 <= i < name.len() ==> 'a' <= #[trigger] name[i] <= 'z' || 'A' <= name[i] <= 'Z' || '0'
            <= name[i] <= '9' || name[i] == '-' || name[i] == '_'
}

/// A profile is kept in `profiles` of the home directory, under its name without the white
/// space around it; a blank name means `web`, and a name with anything but letters, digits,
/// `-` and `_` has no directory.
pub proof fn a_profile_is_kept_under_its_name(
    platform: PlatformTarget,
    home: Seq<u8>,
    profile: Seq<char>,
    name: Seq<char>,
)
    requires
        text::trim(profile).len() == 0 ==> name == "web"@,
        text::trim(profile).len() > 0 ==> name == text::trim(profile),
    ensures
        has_name_characters_only(name) ==> directory_of(platform, Some(home), profile) == Some(
            raw_path::join_text(
                platform,
                raw_path::join_text(platform, home, "profiles"@),
                name,
            ),
        ),
        !has_name_characters_only(name) ==> directory_of(platform, Some(home), profile) is None,
        directory_of(platform, None, profile) is None,
{
    assert(profile_name(profile) == name);
    if has_name_characters_only(name) {
        assert(plain_name(name));
    } else if plain_name(name) {
        assert forall|i: int| 0 <= i < name.len() implies 'a' <= #[trigger] name[i] <= 'z' || 'A'
            <= name[i] <= 'Z' || '0' <= name[i] <= '9' || name[i] == '-' || name[i] == '_' by {
            assert(text::is_alnum(name[i]) || name[i] == '-' || name[i] == '_');
        }
    }
}

/// The theme is the preference in the section on themes, and the system's where the settings
/// have no such section.
pub proof fn the_preferred_theme_is_read(
    before: Seq<Seq<char>>,
    theme: Seq<char>,
    after: Seq<Seq<char>>,
)
    requires
        theme == "dark"@ || theme == "light"@ || theme == "system"@,
        forall|i: int|
            0 <= i < before.len() ==> !text::starts_with(
                text::trim(#[trigger] before[i]),
                "ui-theme:"@,
            ),
    ensures
        theme_in(before + seq!["ui-theme:"@, "  preference: "@ + theme] + after, false) == theme,
        theme_in(before + seq!["ui-theme:"@, "  preference: '"@ + theme + "'"@] + after, false)
            == theme,
        theme_in(before, false) == "system"@,
{
    reveal_strlit("ui-theme:");
    reveal_strlit("  preference: ");
    reveal_strlit("  preference: '");
    reveal_strlit("'");
    reveal_strlit("preference:");
    reveal_strlit("dark");
    reveal_strlit("light");
    reveal_strlit("system");
    let plain = "  preference: "@ + theme;
    let quoted = "  preference: '"@ + theme + "'"@;
    lemma_preference(theme, seq![]);
    lemma_preference(theme, seq!['\'']);
    assert(plain =~= "  preference: "@ + (Seq::<char>::empty() + theme + Seq::<char>::empty()));
    assert(quoted =~= "  preference: "@ + (seq!['\''] + theme + seq!['\'']));
    text::lemma_trimmed("ui-theme:"@);
    assert("ui-theme:"@.take(9) =~= "ui-theme:"@);
    lemma_skips_to_the_theme(before, seq!["ui-theme:"@, plain] + after);
    lemma_skips_to_the_theme(before, seq!["ui-theme:"@, quoted] + after);
    lemma_skips_to_the_theme(before, Seq::empty());
    assert(before + (seq!["ui-theme:"@, plain] + after) =~= before + seq!["ui-theme:"@, plain]
        + after);
    assert(before + (seq!["ui-theme:"@, quoted] + after) =~= before + seq!["ui-theme:"@, quoted]
        + after);
    assert(before + Seq::<Seq<char>>::empty() =~= before);
    lemma_theme_line(plain, theme, after);
    lemma_theme_line(quoted, theme, after);
}

proof fn lemma_theme_line(line: Seq<char>, theme: Seq<char>, after: Seq<Seq<char>>)
    requires
        text::starts_with(text::trim("ui-theme:"@), "ui-theme:"@),
        !text::starts_with(text::trim(line), "ui-theme:"@),
        !starts_section(line),
        preference_value(line) == Some(theme),
        is_theme(theme),
    ensures
        theme_in(seq!["ui-theme:"@, line] + after, false) == theme,
{
    let lines = seq!["ui-theme:"@, line] + after;
    assert(lines[0] == "ui-theme:"@);
    let rest = lines.skip(1);
    assert(rest[0] == line);
    assert(theme_in(rest, true) == theme);
}

proof fn lemma_skips_to_the_theme(before: Seq<Seq<char>>, rest: Seq<Seq<char>>)
    requires
        forall|i: int|
            0 <= i < before.len() ==> !text::starts_with(
                text::trim(#[trigger] before[i]),
                "ui-theme:"@,
            ),
    ensures
        theme_in(before + rest, false) == theme_in(rest, false),
    decreases before.len(),
{
    if before.len() == 0 {
        assert(before + rest =~= rest);
    } else {
        let all = before + rest;
        assert(all[0] == before[0]);
        assert(all.skip(1) =~= before.skip(1) + rest);
        assert forall|i: int| 0 <= i < before.skip(1).len() implies !text::starts_with(
            text::trim(#[trigger] before.skip(1)[i]),
            "ui-theme:"@,
        ) by {
            assert(before.skip(1)[i] == before[i + 1]);
        }
        lemma_skips_to_the_theme(before.skip(1), rest);
    }
}

proof fn lemma_preference(theme: Seq<char>, quote: Seq<char>)
    requires
        theme == "dark"@ || theme == "light"@ || theme == "system"@,
        quote == Seq::<char>::empty() || quote == seq!['\''],
    ensures
        ({
            let line = "  preference: "@ + (quote + theme + quote);
            &&& !text::starts_with(text::trim(line), "ui-theme:"@)
            &&& !starts_section(line)
            &&& preference_value(line) == Some(theme)
        }),
{
    reveal_strlit("ui-theme:");
    reveal_strlit("  preference: ");
    reveal_strlit("preference:");
    reveal_strlit(" ");
    let value = quote + theme + quote;
    let line = "  preference: "@ + value;
    lemma_quoted_theme(theme, quote);
    let body = "preference: "@ + value;
    reveal_strlit("preference: ");
    assert(body[0] == 'p' && body.last() == value.last());
    assert(seq![' '] + body =~= line.skip(1));
    lemma_space_before(body);
    lemma_space_before_trimmed(seq![' '] + body, body);
    assert(seq![' '] + (seq![' '] + body) =~= line);
    assert(text::trim(line) == body);
    if body.len() >= 9 {
        assert(body.take(9)[0] == 'p');
    }
    assert(line.take(1) =~= " "@);
    assert(body.take(11) =~= "preference:"@);
    let rest = body.skip(11);
    assert(rest =~= seq![' '] + value);
    lemma_space_before(value);
}

proof fn lemma_space_before(body: Seq<char>)
    requires
        body.len() > 0,
        !text::is_space(body[0]) && !text::is_space(body.last()),
    ensures
        text::trim(seq![' '] + body) == body,
{
    text::lemma_trimmed(body);
    lemma_space_before_trimmed(body, body);
}

proof fn lemma_space_before_trimmed(s: Seq<char>, body: Seq<char>)
    requires
        text::trim(s) == body,
    ensures
        text::trim(seq![' '] + s) == body,
{
    let longer = seq![' '] + s;
    assert(longer[0] == ' ');
    assert(longer.skip(1) =~= s);
    assert(text::trim_start(longer) == text::trim_start(s));
}

proof fn lemma_quoted_theme(theme: Seq<char>, quote: Seq<char>)
    requires
        theme == "dark"@ || theme == "light"@ || theme == "system"@,
        quote == Seq::<char>::empty() || quote == seq!['\''],
    ensures
        ({
            let value = quote + theme + quote;
            &&& value.len() > 0
            &&& !text::is_space(value[0]) && !text::is_space(value.last())
            &&& crate::process::unquoted(value) == theme
        }),
{
    reveal_strlit("dark");
    reveal_strlit("light");
    reveal_strlit("system");
    let value = quote + theme + quote;
    let quotes = seq!['\'', '"'];
    assert(quotes[0] == '\'' && quotes[1] == '"');
    if quote.len() > 0 {
        assert(value[0] == '\'' && value.last() == '\'');
        assert(value.skip(1) =~= theme + quote);
        assert((theme + quote)[0] == theme[0]);
        assert(quotes.contains('\''));
        assert(!quotes.contains(theme[0]));
        assert(text::strip_start_of(theme + quote, quotes) == theme + quote);
        assert(text::strip_start_of(value, quotes) == theme + quote);
        assert((theme + quote).last() == '\'');
        assert((theme + quote).drop_last() =~= theme);
        assert(!quotes.contains(theme.last()));
        assert(text::strip_end_of(theme, quotes) == theme);
        assert(text::strip_end_of(theme + quote, quotes) == theme);
    } else {
        assert(value =~= theme);
        crate::process::lemma_not_quoted(theme);
    }
}

/// A package is named by one part, or by a scope and a part with a slash between them, each of
/// letters, digits, `-`, `_`, `.` and `@`, but not `.` or `..`.
pub proof fn a_package_has_a_plain_name(scope: Seq<char>, name: Seq<char>)
    requires
        scope.len() > 0 && name.len() > 0,
        scope.len() + 1 + name.len() <= 214,
        forall|i: int| 0 <= i < scope.len() ==> is_package_char(#[trigger] scope[i]),
        forall|i: int| 0 <= i < name.len() ==> is_package_char(#[trigger] name[i]),
        scope != "."@ && scope != ".."@,
        name != "."@ && name != ".."@,
    ensures
        package_name(name),
        package_name(scope + seq!['/'] + name),
        !package_name(seq!['.', '.']),
        !package_name(scope + seq!['/'] + seq!['.', '.']),
        !package_name(scope + seq!['/'] + name + seq!['/'] + name),
        !package_name(scope + seq![';'] + name),
        !package_name(scope + seq![' '] + name),
        !package_name(scope + seq!['&'] + name),
{
    reveal_strlit(".");
    reveal_strlit("..");
    lemma_package_text(scope);
    lemma_package_text(name);
    let dots = seq!['.', '.'];
    assert(dots =~= ".."@);
    assert forall|i: int| 0 <= i < dots.len() implies is_package_char(#[trigger] dots[i]) by {}
    lemma_package_text(dots);
    lemma_scoped(scope, name);
    lemma_scoped(scope, dots);
    let twice = name + seq!['/'] + name;
    assert(scope + seq!['/'] + twice =~= scope + seq!['/'] + name + seq!['/'] + name);
    assert(twice[0] == name[0] && twice.last() == name.last());
    assert(twice[name.len() as int] == '/');
    lemma_scoped(scope, twice);
    lemma_unplain(scope, ';', name);
    lemma_unplain(scope, ' ', name);
    lemma_unplain(scope, '&', name);
}

proof fn lemma_package_text(s: Seq<char>)
    requires
        s.len() > 0,
        forall|i: int| 0 <= i < s.len() ==> is_package_char(#[trigger] s[i]),
    ensures
        text::trim(s) == s,
        text::split_once(s, '/') is None,
        !text::is_space(s[0]) && !text::is_space(s.last()),
{
    assert(is_package_char(s[0]));
    assert(is_package_char(s[s.len() - 1]));
    text::lemma_trimmed(s);
    text::lemma_find(s, '/');
    if text::find(s, '/') < s.len() {
        assert(is_package_char(s[text::find(s, '/')]));
    }
}

proof fn lemma_scoped(scope: Seq<char>, rest: Seq<char>)
    requires
        scope.len() > 0,
        forall|i: int| 0 <= i < scope.len() ==> is_package_char(#[trigger] scope[i]),
        rest.len() > 0,
        !text::is_space(rest.last()),
    ensures
        text::trim(scope + seq!['/'] + rest) == scope + seq!['/'] + rest,
        text::split_once(scope + seq!['/'] + rest, '/') == Some((scope, rest)),
{
    let s = scope + seq!['/'] + rest;
    lemma_package_text(scope);
    assert(s[0] == scope[0] && s.last() == rest.last());
    text::lemma_trimmed(s);
    assert forall|j: int| 0 <= j < scope.len() implies s[j] != '/' by {
        assert(s[j] == scope[j]);
        assert(is_package_char(scope[j]));
    }
    text::lemma_find_is(s, '/', scope.len() as int);
    assert(s.take(scope.len() as int) =~= scope);
    assert(s.skip(scope.len() as int + 1) =~= rest);
}

proof fn lemma_unplain(scope: Seq<char>, c: char, name: Seq<char>)
    requires
        scope.len() > 0 && name.len() > 0,
        forall|i: int| 0 <= i < scope.len() ==> is_package_char(#[trigger] scope[i]),
        forall|i: int| 0 <= i < name.len() ==> is_package_char(#[trigger] name[i]),
        c == ';' || c == ' ' || c == '&',
    ensures
        !package_name(scope + seq![c] + name),
{
    let s = scope + seq![c] + name;
    lemma_package_text(scope);
    lemma_package_text(name);
    assert(s[0] == scope[0] && s.last() == name.last());
    text::lemma_trimmed(s);
    assert forall|j: int| 0 <= j < s.len() implies s[j] != '/' by {
        if j < scope.len() {
            assert(s[j] == scope[j]);
            assert(is_package_char(scope[j]));
        } else if j > scope.len() {
            assert(s[j] == name[j - scope.len() - 1]);
            assert(is_package_char(name[j - scope.len() - 1]));
        }
    }
    text::lemma_find_is(s, '/', s.len() as int);
    assert(s[scope.len() as int] == c);
    assert(!is_package_char(s[scope.len() as int]));
}

/// The outputs of a command follow each other: the errors stand on lines of their own below
/// what was printed, unless they are blank.
pub proof fn the_errors_follow_the_output(stdout: Seq<char>, stderr: Seq<char>)
    ensures
        text::trim(stderr).len() == 0 ==> both_outputs(stdout, stderr) == stdout,
        text::trim(stderr).len() > 0 && text::trim(stdout).len() > 0 ==> both_outputs(
            stdout,
            stderr,
        ) == stdout + seq!['\n'] + stderr,
        text::trim(stderr).len() > 0 && text::trim(stdout).len() == 0 ==> both_outputs(
            stdout,
            stderr,
        ) == stdout + stderr,
{
    assert(stdout.push('\n') + stderr =~= stdout + seq!['\n'] + stderr);
}

/// A command that ended well gives what it printed; one that ended badly, that took too long or
/// that cannot be watched fails, and only one that took too long is killed. While there is time
/// it is waited for.
pub proof fn a_command_is_waited_for(
    state: CommandState,
    display: Seq<char>,
    timeout_secs: u64,
    step: WaitStep,
)
    requires
        waited_for(state, display, timeout_secs, step),
    ensures
        match state {
            CommandState::Running { expired: false } => step is Again,
            CommandState::Running { expired: true } => step is Ended && step->kill && step->result
                is Err,
            CommandState::Unknown(_) => step is Ended && !step->kill && step->result is Err,
            CommandState::Exited { success, outputs } => {
                &&& step is Ended && !step->kill
                &&& step->result is Ok <==> success
                &&& outputs matches Some(o) ==> (step->result matches Ok(text) ==> text@
                    == both_outputs(adapters::lossy(o.0@), adapters::lossy(o.1@)))
                &&& outputs is None ==> (step->result matches Ok(text) ==> text@.len() == 0)
                &&& step->result matches Err(e) ==> text::starts_with(e@, display)
            },
        },
{
    if let CommandState::Exited { success, outputs } = state {
        if !success {
            let m = display + " 失败："@ + printed(outputs);
            assert(m.take(display.len() as int) =~= display);
        }
    }
}

/// A plugin is uninstalled from its profile by its name, if the name is valid and there is a
/// command of DSH.
pub proof fn a_plugin_is_uninstalled_by_name(profile: Seq<char>, name: Seq<char>, dsh_found: bool)
    ensures
        uninstall_args(profile, name) == seq![
            "plugin"@,
            "--profile"@,
            profile,
            "uninstall"@,
            name,
        ],
        uninstall_complaint(name, dsh_found) is None <==> package_name(name) && dsh_found,
{
}

/// A profile is cleaned and then installed anew; a failure of either ends it with that failure.
pub proof fn a_clean_up_installs_anew(
    stage: CleanStage,
    result: Result<String, String>,
    next: CleanStage,
    logs: Seq<(Seq<char>, Seq<char>)>,
)
    requires
        cleaned(stage, result, next, logs),
    ensures
        stage is Clean && result is Ok ==> next is Install,
        stage is Clean && result is Err ==> next is Done && next->Done_0 is Err
            && next->Done_0->Err_0@ == result->Err_0@,
        stage is Install && result is Ok ==> next is Done && next->Done_0 is Ok,
        stage is Install && result is Err ==> next is Done && next->Done_0 is Err
            && next->Done_0->Err_0@ == result->Err_0@,
        stage is Done ==> next == stage && logs.len() == 0,
        !(stage is Done) && result is Err ==> logs.len() == 1 && logs[0].0 == "error"@,
        !(stage is Done) && result is Ok ==> logs.len() > 0 && logs.last().0 == "info"@,
{
}

/// Every dependency is a plugin with its name and, if it is a text, its version.
pub proof fn every_dependency_is_a_plugin(members: Seq<(Seq<char>, Json)>, package: Json, i: int)
    requires
        adapters::json_member(package, "dependencies"@) == Some(Json::Object(members)),
        0 <= i < members.len(),
    ensures
        dependencies_of(package).len() == members.len(),
        dependencies_of(package)[i].0 == members[i].0,
        members[i].1 matches Json::Text(version) ==> dependencies_of(package)[i].1 == version,
        !(members[i].1 is Text) ==> dependencies_of(package)[i].1.len() == 0,
{
}

} // verus!
