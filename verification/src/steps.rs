//! What an installation, an upgrade and a migration do, step by step: what each step asks for,
//! where it leads when it works, and where when it fails.
use vstd::prelude::*;

use crate::config::PlatformTarget;
use crate::install;
use crate::install::{
    Doing, InstallAction, InstallEvent, InstallStage, InstallView, NoteView, NpmAction, NpmEvent,
    NpmInstall, NpmStageView,
};
use crate::managed;
use crate::managed::{LatestAnswer, MarkerFile, NodeRelease, RootState};
use crate::path;
use crate::text;
use crate::upgrade;
use crate::upgrade::{
    MarkerAction, MarkerStage, MarkerWriteView, MigrateAction, MigrateStage, MigrateView,
    UpgradeStage, UpgradeView,
};

verus! {

// ---------------------------------------------------------------------------
// npm
// ---------------------------------------------------------------------------

/// npm is told to install exactly one version of DSH into its prefix, with its cache there
/// too, from the mirror if that was chosen and from the official registry otherwise.
pub proof fn npm_installs_one_version_from_one_source(
    host: PlatformTarget,
    node_root: Seq<char>,
    prefix: Seq<char>,
    use_mirror: bool,
    version: Seq<char>,
)
    ensures
        ({
            let args = install::npm_arguments(host, node_root, prefix, use_mirror, version);
            let n = args.len();
            &&& n == 18
            &&& host == PlatformTarget::Windows ==> args[0] == path::join(
                host,
                node_root,
                "node_modules/npm/bin/npm-cli.js"@,
            )
            &&& host != PlatformTarget::Windows ==> args[0] == path::join(
                host,
                node_root,
                "lib/node_modules/npm/bin/npm-cli.js"@,
            )
            &&& args[1] == "install"@ && args[2] == "--global"@
            &&& args[3] == "--no-audit"@ && args[4] == "--no-fund"@ && args[5] == "--no-progress"@
            &&& args[6] == "--foreground-scripts"@ && args[7] == "--package-lock=false"@
            &&& args[8] == "--strict-ssl"@
            &&& args[9] == "--fetch-timeout=60000"@ && args[10] == "--fetch-retries=2"@
            &&& args[11] == "--registry"@
            &&& use_mirror ==> args[12] == "https://registry.npmmirror.com"@
            &&& !use_mirror ==> args[12] == "https://registry.npmjs.org"@
            &&& args[13] == "--cache"@ && args[14] == path::join(host, prefix, ".npm-cache"@)
            &&& args[15] == "--prefix"@ && args[16] == prefix
            &&& args[17] == "@deepseek-ai/dsh@"@ + version
        }),
{
}

/// npm's part goes on step by step: the directories, npm itself, the tidying up, and a look at
/// what came of it. Windows needs no `lib` directory, before or after.
pub proof fn npm_goes_on_step_by_step(host: PlatformTarget, s: NpmStageView)
    ensures
        ({
            let windows = host == PlatformTarget::Windows;
            let did = NpmEvent::Did(Ok::<(), String>(()));
            &&& s is MakePrefix && windows ==> install::npm_advanced(host, s, did) is Spawn
            &&& s is MakePrefix && !windows ==> install::npm_advanced(host, s, did) is MakeLib
            &&& s is MakeLib ==> install::npm_advanced(host, s, did) is Spawn
            &&& s is Spawn ==> install::npm_advanced(host, s, did) is Wait
            &&& s is Wait ==> install::npm_advanced(host, s, NpmEvent::Running { expired: false })
                is Wait
            &&& s is Wait ==> install::npm_advanced(host, s, NpmEvent::Running { expired: true })
                is Kill
            &&& s is MoveModules ==> install::npm_advanced(host, s, did) is RemoveLib
            &&& s is RemoveLib ==> install::npm_advanced(host, s, did) is RemoveBin
            &&& s is RemoveBin ==> install::npm_advanced(host, s, did) is RemoveCache
            &&& s is RemoveCache ==> install::npm_advanced(host, s, did) is CheckEntry
            &&& s is CheckEntry ==> install::npm_advanced(host, s, NpmEvent::Found(true))
                == NpmStageView::Done(Ok(()))
        }),
{
}

/// What was left over by npm need not be removable: the tidying up goes on.
pub proof fn what_npm_left_may_stay(host: PlatformTarget, why: String)
    ensures
        ({
            let failed = NpmEvent::Did(Err::<(), String>(why));
            &&& install::npm_advanced(host, NpmStageView::RemoveLib, failed) is RemoveBin
            &&& install::npm_advanced(host, NpmStageView::RemoveBin, failed) is RemoveCache
            &&& install::npm_advanced(host, NpmStageView::RemoveCache, failed) is CheckEntry
        }),
{
}

/// npm must exit well: then its modules are moved, which Windows does not need, and otherwise
/// its part has failed. It has failed, too, if a step before or the moving fails, if npm took
/// too long, or if DSH is not where it should be in the end; and only then has it ended well if
/// DSH is.
pub proof fn npm_ends_well_only_with_dsh_in_place(
    host: PlatformTarget,
    s: NpmStageView,
    event: NpmEvent,
    status: String,
    why: String,
)
    ensures
        ({
            let next = install::npm_advanced(host, s, event);
            next == NpmStageView::Done(Ok(())) && s != next ==> s is CheckEntry && event
                == NpmEvent::Found(true)
        }),
        ({
            let well = NpmEvent::Exited { success: true, status };
            let badly = NpmEvent::Exited { success: false, status };
            let failed = NpmEvent::Did(Err::<(), String>(why));
            let wait = NpmStageView::Wait;
            &&& host == PlatformTarget::Windows ==> install::npm_advanced(host, wait, well)
                is RemoveCache
            &&& host != PlatformTarget::Windows ==> install::npm_advanced(host, wait, well)
                is MoveModules
            &&& npm_failed(install::npm_advanced(host, wait, badly))
            &&& npm_failed(install::npm_advanced(host, wait, failed))
            &&& npm_failed(install::npm_advanced(host, NpmStageView::MakePrefix, failed))
            &&& npm_failed(install::npm_advanced(host, NpmStageView::MakeLib, failed))
            &&& npm_failed(install::npm_advanced(host, NpmStageView::Spawn, failed))
            &&& npm_failed(install::npm_advanced(host, NpmStageView::Kill, failed))
            &&& npm_failed(
                install::npm_advanced(
                    host,
                    NpmStageView::Kill,
                    NpmEvent::Did(Ok::<(), String>(())),
                ),
            )
            &&& npm_failed(install::npm_advanced(host, NpmStageView::MoveModules, failed))
            &&& npm_failed(
                install::npm_advanced(host, NpmStageView::CheckEntry, NpmEvent::Found(false)),
            )
        }),
{
}

/// npm's part has ended with an error.
pub open spec fn npm_failed(s: NpmStageView) -> bool {
    s matches NpmStageView::Done(r) && r is Err
}

/// npm's part works in its prefix: it makes it, runs the Node that it was given, brings the
/// modules up from `lib` and removes what is not needed.
pub proof fn npm_works_in_its_prefix(npm: NpmInstall, a: NpmAction)
    requires
        npm.action_is(a),
    ensures
        npm.stage is MakePrefix ==> a is MakeDir && a->MakeDir_0@ == npm.prefix@,
        npm.stage is MakeLib ==> a is MakeDir && a->MakeDir_0@ == path::join(
            npm.host,
            npm.prefix@,
            "lib"@,
        ),
        npm.stage is Spawn ==> a is Run && a->program@ == path::join(
            npm.host,
            npm.node_root@,
            if npm.host == PlatformTarget::Windows {
                "node.exe"@
            } else {
                "bin/node"@
            },
        ) && text::texts(a->args@) == install::npm_arguments(
            npm.host,
            npm.node_root@,
            npm.prefix@,
            npm.use_mirror,
            npm.version@,
        ),
        npm.stage is Wait ==> a is Watch,
        npm.stage is Kill ==> a is Kill,
        npm.stage is MoveModules ==> a is Rename && a->from@ == path::join(
            npm.host,
            npm.prefix@,
            "lib/node_modules"@,
        ) && a->to@ == path::join(npm.host, npm.prefix@, "node_modules"@),
        npm.stage is RemoveLib ==> a is RemoveDir && a->RemoveDir_0@ == path::join(
            npm.host,
            npm.prefix@,
            "lib"@,
        ),
        npm.stage is RemoveBin ==> a is RemoveDir && a->RemoveDir_0@ == path::join(
            npm.host,
            npm.prefix@,
            "bin"@,
        ),
        npm.stage is RemoveCache ==> a is RemoveDir && a->RemoveDir_0@ == path::join(
            npm.host,
            npm.prefix@,
            ".npm-cache"@,
        ),
        npm.stage is CheckEntry ==> a is IsFile && a->IsFile_0@ == path::join(
            npm.host,
            npm.prefix@,
            "node_modules/@deepseek-ai/dsh/lib/bin.js"@,
        ),
        npm.stage is Done ==> a is Finished,
{
}

// ---------------------------------------------------------------------------
// The installation
// ---------------------------------------------------------------------------

/// A directory is moved.
pub open spec fn is_move(a: InstallAction, old_place: Seq<char>, new_place: Seq<char>) -> bool {
    a is Rename && a->from@ == old_place && a->Rename_to@ == new_place
}

/// A directory is removed.
pub open spec fn is_removal(a: InstallAction, place: Seq<char>) -> bool {
    a is RemoveDir && a->RemoveDir_0@ == place
}

/// A version of DSH is installed with npm.
pub open spec fn runs_npm(
    a: InstallAction,
    host: PlatformTarget,
    node: Seq<char>,
    prefix: Seq<char>,
    use_mirror: bool,
    version: Seq<char>,
) -> bool {
    a matches InstallAction::Npm(npm) && {
        &&& npm.stage is MakePrefix
        &&& npm.host == host
        &&& npm.node_root@ == node
        &&& npm.prefix@ == prefix
        &&& npm.use_mirror == use_mirror
        &&& npm.version@ == version
    }
}

/// The installation did not change but for its stage.
pub open spec fn only_moved_on(v: InstallView, next: InstallView) -> bool {
    &&& next.host == v.host && next.arm == v.arm && next.root == v.root
    &&& next.use_mirror == v.use_mirror
    &&& next.node_version == v.node_version && next.checksum == v.checksum
    &&& next.dsh_version == v.dsh_version
    &&& next.error == v.error
}

/// An installation begins where an absolute path was given, and nowhere else.
pub proof fn only_an_absolute_path_is_tried(
    host: PlatformTarget,
    arm: bool,
    root: Seq<char>,
    use_mirror: bool,
)
    ensures
        ({
            let v = install::install_of(host, arm, root, use_mirror);
            &&& v.host == host && v.arm == arm && v.root == root && v.use_mirror == use_mirror
            &&& path::is_absolute(host, root) ==> v.stage == InstallStage::Prepare && v.error
                is None
            &&& !path::is_absolute(host, root) ==> v.stage == InstallStage::Done && v.error is Some
        }),
{
}

/// While everything works, an installation goes from the directory to the archive, from there
/// to Node and DSH in the staging directory, then to their places, and ends with the marker
/// and without the staging directory.
pub proof fn an_installation_goes_on_step_by_step(
    v: InstallView,
    text: String,
)
    ensures
        ({
            let did = InstallEvent::Did(Ok::<(), String>(()));
            let ran = InstallEvent::Ran(Ok::<(), String>(()));
            let found = InstallEvent::Found(true);
            &&& v.stage == InstallStage::MakeStaging ==> goes_on(v, did, InstallStage::Download)
            &&& v.stage == InstallStage::Download ==> goes_on(v, ran, InstallStage::Checksums)
            &&& v.stage == InstallStage::MakeExtracted ==> goes_on(v, did, InstallStage::Extract)
            &&& v.stage == InstallStage::Extract ==> goes_on(v, ran, InstallStage::CheckNode)
            &&& v.stage == InstallStage::CheckNode ==> goes_on(v, found, InstallStage::Latest)
            &&& v.stage == InstallStage::Npm ==> goes_on(v, ran, InstallStage::MoveNode)
            &&& v.stage == InstallStage::MoveNode ==> goes_on(v, did, InstallStage::MoveRuntime)
            &&& v.stage == InstallStage::MoveRuntime ==> goes_on(v, did, InstallStage::WriteEntry)
            &&& v.stage == InstallStage::WriteEntry ==> goes_on(v, ran, InstallStage::Probe)
            &&& v.stage == InstallStage::Probe && text@ == v.dsh_version ==> goes_on(
                v,
                InstallEvent::Text(Ok::<String, String>(text)),
                InstallStage::WriteMarker,
            )
            &&& v.stage == InstallStage::WriteMarker ==> goes_on(
                v,
                ran,
                InstallStage::RemoveStaging,
            )
            &&& v.stage == InstallStage::RemoveStaging && v.error is None ==> goes_on(
                v,
                did,
                InstallStage::Done,
            )
        }),
{
}

/// The event moves the installation on to the stage.
pub open spec fn goes_on(v: InstallView, event: InstallEvent, stage: InstallStage) -> bool {
    let next = install::install_advanced(v, event).0;
    next.stage == stage && only_moved_on(v, next)
}

/// What an installation finds out on the way it keeps: the version of the release that it
/// takes, the checksum of the archive, and the latest version of DSH.
pub proof fn an_installation_keeps_what_it_finds_out(
    v: InstallView,
    releases: Vec<NodeRelease>,
    i: int,
    list: String,
    sum: Seq<char>,
    version: String,
)
    ensures
        v.stage == InstallStage::List && 0 <= i < releases@.len() && releases@[i].lts
            && text::texts(releases@[i].files@).contains(managed::file_key(v.host, v.arm)) && (
        forall|j: int|
            0 <= j < i ==> !(#[trigger] releases@[j]).lts || !text::texts(
                releases@[j].files@,
            ).contains(managed::file_key(v.host, v.arm))) ==> {
            let next = install::install_advanced(
                v,
                InstallEvent::Releases(Ok::<Vec<NodeRelease>, String>(releases)),
            ).0;
            &&& next.stage == InstallStage::MakeStaging
            &&& next.node_version == releases@[i].version@
            &&& next.host == v.host && next.arm == v.arm && next.root == v.root
            &&& next.use_mirror == v.use_mirror && next.error == v.error
        },
        v.stage == InstallStage::Checksums && managed::checksum_in(
            text::lines(list@),
            managed::archive_name(v.host, v.arm, v.node_version),
        ) == Some(sum) ==> {
            let next = install::install_advanced(
                v,
                InstallEvent::Text(Ok::<String, String>(list)),
            ).0;
            &&& next.stage == InstallStage::Verify
            &&& next.checksum == sum
            &&& next.node_version == v.node_version && next.error == v.error
            &&& next.host == v.host && next.arm == v.arm && next.root == v.root
            &&& next.use_mirror == v.use_mirror
        },
        v.stage == InstallStage::Latest && managed::latest_of(LatestAnswer::Version(version)) is Ok
            ==> {
            let next = install::install_advanced(
                v,
                InstallEvent::Latest(LatestAnswer::Version(version)),
            ).0;
            &&& next.stage == InstallStage::Npm
            &&& next.dsh_version == version@
            &&& next.node_version == v.node_version && next.error == v.error
            &&& next.host == v.host && next.arm == v.arm && next.root == v.root
            &&& next.use_mirror == v.use_mirror
        },
{
    let key = managed::file_key(v.host, v.arm);
    if 0 <= i < releases@.len() && managed::is_wanted(releases@[i], key) && (forall|j: int|
        0 <= j < i ==> !managed::is_wanted(#[trigger] releases@[j], key)) {
        lemma_first(releases@, key, i);
    }
}

proof fn lemma_first(releases: Seq<NodeRelease>, key: Seq<char>, i: int)
    requires
        0 <= i < releases.len(),
        managed::is_wanted(releases[i], key),
        forall|j: int| 0 <= j < i ==> !managed::is_wanted(#[trigger] releases[j], key),
    ensures
        install::first_wanted(releases, key) == i,
    decreases releases.len(),
{
    if i > 0 {
        assert(!managed::is_wanted(releases[0], key));
        let rest = releases.skip(1);
        assert forall|j: int| 0 <= j < i - 1 implies !managed::is_wanted(
            #[trigger] rest[j],
            key,
        ) by {
            assert(rest[j] == releases[j + 1]);
        }
        assert(rest[i - 1] == releases[i]);
        lemma_first(rest, key, i - 1);
    }
}

/// Without a release for the machine, or with a directory that may not be used, an
/// installation ends before it has made anything.
pub proof fn an_installation_is_refused_before_it_begins(
    v: InstallView,
    state: RootState,
    releases: Vec<NodeRelease>,
    why: String,
)
    ensures
        v.stage == InstallStage::Prepare && managed::root_complaint(v.host, v.root, state) is Some
            ==> is_refused(v, InstallEvent::Root(state)),
        v.stage == InstallStage::Prepare && managed::root_complaint(v.host, v.root, state) is None
            ==> goes_on(v, InstallEvent::Root(state), InstallStage::List),
        v.stage == InstallStage::List ==> is_refused(
            v,
            InstallEvent::Releases(Err::<Vec<NodeRelease>, String>(why)),
        ),
        v.stage == InstallStage::List && (forall|j: int|
            0 <= j < releases@.len() ==> !(#[trigger] releases@[j]).lts || !text::texts(
                releases@[j].files@,
            ).contains(managed::file_key(v.host, v.arm))) ==> is_refused(
            v,
            InstallEvent::Releases(Ok::<Vec<NodeRelease>, String>(releases)),
        ),
{
    let key = managed::file_key(v.host, v.arm);
    if forall|j: int|
        0 <= j < releases@.len() ==> !managed::is_wanted(#[trigger] releases@[j], key) {
        lemma_none(releases@, key);
    }
}

proof fn lemma_none(releases: Seq<NodeRelease>, key: Seq<char>)
    requires
        forall|j: int| 0 <= j < releases.len() ==> !managed::is_wanted(#[trigger] releases[j], key),
    ensures
        install::first_wanted(releases, key) == releases.len(),
    decreases releases.len(),
{
    if releases.len() > 0 {
        assert(!managed::is_wanted(releases[0], key));
        let rest = releases.skip(1);
        assert forall|j: int| 0 <= j < rest.len() implies !managed::is_wanted(
            #[trigger] rest[j],
            key,
        ) by {
            assert(rest[j] == releases[j + 1]);
        }
        lemma_none(rest, key);
    }
}

/// The event ends the installation with an error.
pub open spec fn is_refused(v: InstallView, event: InstallEvent) -> bool {
    let next = install::install_advanced(v, event).0;
    next.stage == InstallStage::Done && next.error is Some
}

/// The event makes the installation fail, and it goes on to clean up.
pub open spec fn is_failed(v: InstallView, event: InstallEvent) -> bool {
    let next = install::install_advanced(v, event).0;
    next.stage == InstallStage::RemoveStaging && next.error is Some && next.root == v.root
        && next.host == v.host
}

/// Whatever fails once there is a staging directory makes the installation fail: a step that
/// did not work, an archive without its checksum or with another one, one without Node, no
/// version to install, or a command that does not report that version. If only the runtime
/// could not be moved, Node is moved back first.
pub proof fn a_failed_step_makes_the_installation_fail(
    v: InstallView,
    why: String,
    bytes: Vec<u8>,
    list: String,
    actual: String,
    answer: LatestAnswer,
)
    ensures
        ({
            let did = InstallEvent::Did(Err::<(), String>(why));
            let ran = InstallEvent::Ran(Err::<(), String>(why));
            let unread = InstallEvent::Text(Err::<String, String>(why));
            &&& v.stage == InstallStage::MakeStaging ==> is_failed(v, did)
            &&& v.stage == InstallStage::Download ==> is_failed(v, ran)
            &&& v.stage == InstallStage::Checksums ==> is_failed(v, unread)
            &&& v.stage == InstallStage::Checksums && managed::checksum_in(
                text::lines(list@),
                managed::archive_name(v.host, v.arm, v.node_version),
            ) is None ==> is_failed(v, InstallEvent::Text(Ok::<String, String>(list)))
            &&& v.stage == InstallStage::Verify ==> is_failed(
                v,
                InstallEvent::Bytes(Err::<Vec<u8>, String>(why)),
            )
            &&& v.stage == InstallStage::Verify && !managed::checksum_matches(bytes@, v.checksum)
                ==> is_failed(v, InstallEvent::Bytes(Ok::<Vec<u8>, String>(bytes)))
            &&& v.stage == InstallStage::Verify && managed::checksum_matches(bytes@, v.checksum)
                ==> goes_on(
                v,
                InstallEvent::Bytes(Ok::<Vec<u8>, String>(bytes)),
                InstallStage::MakeExtracted,
            )
            &&& v.stage == InstallStage::MakeExtracted ==> is_failed(v, did)
            &&& v.stage == InstallStage::Extract ==> is_failed(v, ran)
            &&& v.stage == InstallStage::CheckNode ==> is_failed(v, InstallEvent::Found(false))
            &&& v.stage == InstallStage::Latest && managed::latest_of(answer) is Err ==> is_failed(
                v,
                InstallEvent::Latest(answer),
            )
            &&& v.stage == InstallStage::Npm ==> is_failed(v, ran)
            &&& v.stage == InstallStage::MoveNode ==> is_failed(v, did)
            &&& v.stage == InstallStage::WriteEntry ==> is_failed(v, ran)
            &&& v.stage == InstallStage::Probe ==> is_failed(v, unread)
            &&& v.stage == InstallStage::Probe && actual@ != v.dsh_version ==> is_failed(
                v,
                InstallEvent::Text(Ok::<String, String>(actual)),
            )
            &&& v.stage == InstallStage::WriteMarker ==> is_failed(v, ran)
        }),
        v.stage == InstallStage::MoveRuntime ==> {
            let next = install::install_advanced(
                v,
                InstallEvent::Did(Err::<(), String>(why)),
            ).0;
            next.stage == InstallStage::UndoNode && next.error is Some
        },
{
}

/// A failed installation is cleaned up whether or not each step of it works, and keeps its
/// error: the staging directory goes, and without a marker Node, the runtime and the command
/// go too.
pub proof fn a_failed_installation_is_cleaned_up(v: InstallView, r: Result<(), String>)
    requires
        v.error is Some,
    ensures
        ({
            let did = InstallEvent::Did(r);
            &&& v.stage == InstallStage::UndoNode ==> goes_on(v, did, InstallStage::RemoveStaging)
            &&& v.stage == InstallStage::RemoveStaging ==> goes_on(
                v,
                did,
                InstallStage::CheckMarker,
            )
            &&& v.stage == InstallStage::CheckMarker ==> goes_on(
                v,
                InstallEvent::Found(true),
                InstallStage::Done,
            )
            &&& v.stage == InstallStage::CheckMarker ==> goes_on(
                v,
                InstallEvent::Found(false),
                InstallStage::RemoveNode,
            )
            &&& v.stage == InstallStage::RemoveNode ==> goes_on(v, did, InstallStage::RemoveRuntime)
            &&& v.stage == InstallStage::RemoveRuntime ==> goes_on(v, did, InstallStage::RemoveEntry)
            &&& v.stage == InstallStage::RemoveEntry ==> goes_on(v, did, InstallStage::Done)
        }),
{
}

/// The list of releases, the archive and the version of DSH come from the source that was
/// chosen; the checksums always come from Node itself.
pub proof fn an_installation_asks_its_source(a: InstallAction, v: InstallView)
    requires
        install::install_action_is(a, v),
    ensures
        v.stage == InstallStage::List ==> a is FetchReleases && a->FetchReleases_0@
            == if v.use_mirror {
            "https://npmmirror.com/mirrors/node/index.json"@
        } else {
            "https://nodejs.org/dist/index.json"@
        },
        v.stage == InstallStage::Download ==> a is Download && a->url@ == (if v.use_mirror {
            "https://npmmirror.com/mirrors/node"@
        } else {
            "https://nodejs.org/dist"@
        }) + "/"@ + v.node_version + "/"@ + managed::archive_name(v.host, v.arm, v.node_version),
        v.stage == InstallStage::Checksums ==> a is FetchText && a->FetchText_0@
            == "https://nodejs.org/dist"@ + "/"@ + v.node_version + "/"@ + "SHASUMS256.txt"@,
        v.stage == InstallStage::Latest ==> a is LatestDsh && a->LatestDsh_0@ == if v.use_mirror {
            "https://registry.npmmirror.com/@deepseek-ai%2Fdsh/latest"@
        } else {
            "https://registry.npmjs.org/@deepseek-ai%2Fdsh/latest"@
        },
{
}

/// An installation works in its staging directory: the archive goes there, what is verified
/// and unpacked is that archive, DSH is installed there with the Node that was unpacked, and
/// the whole of it is removed in the end.
pub proof fn an_installation_works_in_its_staging_directory(a: InstallAction, v: InstallView)
    requires
        install::install_action_is(a, v),
    ensures
        ({
            let staging = path::join(v.host, v.root, ".dsh-launcher-staging"@);
            let name = managed::archive_name(v.host, v.arm, v.node_version);
            let archive = path::join(v.host, staging, name);
            let extracted = path::join(v.host, staging, "extracted"@);
            let node = path::join(
                v.host,
                extracted,
                managed::without_suffixes(managed::without_suffixes(name, ".tar.gz"@), ".zip"@),
            );
            &&& v.stage == InstallStage::Prepare ==> a is PrepareRoot
            &&& v.stage == InstallStage::MakeStaging ==> a is MakeDir && a->MakeDir_0@ == staging
            &&& v.stage == InstallStage::Download ==> a is Download && a->Download_to@ == archive
            &&& v.stage == InstallStage::Verify ==> a is ReadFile && a->ReadFile_0@ == archive
            &&& v.stage == InstallStage::MakeExtracted ==> a is MakeDir && a->MakeDir_0@
                == extracted
            &&& v.stage == InstallStage::Extract ==> a is Extract && a->archive@ == archive
                && a->Extract_to@ == extracted
            &&& v.stage == InstallStage::CheckNode ==> a is IsFile && a->IsFile_0@
                == managed::node_program(v.host, node)
            &&& v.stage == InstallStage::Npm ==> runs_npm(
                a,
                v.host,
                node,
                path::join(v.host, staging, "dsh-runtime"@),
                v.use_mirror,
                v.dsh_version,
            )
            &&& v.stage == InstallStage::RemoveStaging ==> is_removal(a, staging)
        }),
{
}

/// What was installed goes to its places: Node and the runtime are moved into the root, and
/// moved back the same way; the command in the root runs them, it is the one that is tried,
/// and the marker says what it is. What is cleaned up is what was put there.
pub proof fn what_was_installed_goes_to_its_places(a: InstallAction, v: InstallView)
    requires
        install::install_action_is(a, v),
    ensures
        ({
            let staging = path::join(v.host, v.root, ".dsh-launcher-staging"@);
            let name = managed::archive_name(v.host, v.arm, v.node_version);
            let unpacked = path::join(
                v.host,
                path::join(v.host, staging, "extracted"@),
                managed::without_suffixes(managed::without_suffixes(name, ".tar.gz"@), ".zip"@),
            );
            let node = path::join(v.host, v.root, "node"@);
            let runtime = path::join(v.host, v.root, "dsh-runtime"@);
            let entry = path::join(
                v.host,
                v.root,
                if v.host == PlatformTarget::Windows {
                    "dsh.cmd"@
                } else {
                    "dsh"@
                },
            );
            &&& v.stage == InstallStage::MoveNode ==> is_move(a, unpacked, node)
            &&& v.stage == InstallStage::MoveRuntime ==> is_move(
                a,
                path::join(v.host, staging, "dsh-runtime"@),
                runtime,
            )
            &&& v.stage == InstallStage::UndoNode ==> is_move(a, node, unpacked)
            &&& v.stage == InstallStage::WriteEntry ==> a is WriteScript && a->file@ == entry
                && a->script@ == managed::entry_script(v.host, v.root, runtime)
            &&& v.stage == InstallStage::Probe ==> a is Probe && a->Probe_0@ == entry
            &&& v.stage == InstallStage::WriteMarker ==> a is WriteMarker && {
                let m = a->WriteMarker_0;
                &&& m.schema == 1
                &&& m.dsh_version@ == v.dsh_version
                &&& m.use_mirror == v.use_mirror
                &&& m.node_version@ == text::strip_start_of(v.node_version, seq!['v'])
            }
            &&& v.stage == InstallStage::CheckMarker ==> a is IsFile && a->IsFile_0@ == path::join(
                v.host,
                v.root,
                ".dsh-launcher-managed.json"@,
            )
            &&& v.stage == InstallStage::RemoveNode ==> is_removal(a, node)
            &&& v.stage == InstallStage::RemoveRuntime ==> is_removal(a, runtime)
            &&& v.stage == InstallStage::RemoveEntry ==> a is RemoveFile && a->RemoveFile_0@
                == entry
            &&& v.stage == InstallStage::Done ==> a is Finished
        }),
{
}

/// The version in a marker is that of the release without the `v` before its number.
pub proof fn a_marker_names_the_number_of_the_release(number: Seq<char>)
    requires
        number.len() == 0 || number[0] != 'v',
    ensures
        text::strip_start_of("v"@ + number, seq!['v']) == number,
        text::strip_start_of(number, seq!['v']) == number,
{
    reveal_strlit("v");
    let set = seq!['v'];
    assert(set[0] == 'v');
    assert(set.contains('v'));
    assert(("v"@ + number)[0] == 'v');
    assert(("v"@ + number).skip(1) =~= number);
    if number.len() > 0 {
        assert(!set.contains(number[0]));
    }
    assert(text::strip_start_of(number, set) == number);
}

/// The user is told how far an installation has come: at most one step at a time, with the
/// per cent that belongs to it.
pub proof fn an_installation_tells_how_far_it_has_come(v: InstallView, event: InstallEvent)
    ensures
        ({
            let (next, notes) = install::install_advanced(v, event);
            &&& v.stage == InstallStage::Prepare && next.stage == InstallStage::List ==> is_told(
                notes,
                "metadata"@,
                5,
            )
            &&& v.stage == InstallStage::MakeStaging && next.stage == InstallStage::Download
                ==> is_told(notes.take(1), "download"@, 15) && notes.len() == 2 && notes[1]
                == NoteView::Log(
                if v.use_mirror {
                    "Node 使用国内镜像下载，SHA-256 校验清单仍来自 Node 官方"@
                } else {
                    "Node 使用官方源下载"@
                },
            )
            &&& v.stage == InstallStage::Checksums && next.stage == InstallStage::Verify
                ==> is_told(notes, "verify"@, 45)
            &&& v.stage == InstallStage::Verify && next.stage == InstallStage::MakeExtracted
                ==> is_told(notes, "extract"@, 55)
            &&& v.stage == InstallStage::CheckNode && next.stage == InstallStage::Latest
                ==> is_told(notes, "install"@, 70)
            &&& v.stage == InstallStage::WriteMarker && next.stage == InstallStage::RemoveStaging
                && next.error is None ==> is_told(notes, "complete"@, 100)
            &&& notes.len() > 0 ==> v.stage == InstallStage::Prepare || v.stage
                == InstallStage::MakeStaging || v.stage == InstallStage::Checksums || v.stage
                == InstallStage::Verify || v.stage == InstallStage::CheckNode || v.stage
                == InstallStage::WriteMarker
        }),
{
}

/// The one note is how far it has come.
pub open spec fn is_told(notes: Seq<NoteView>, phase: Seq<char>, percent: u8) -> bool {
    notes.len() == 1 && notes[0] is Progress && notes[0]->phase == phase && notes[0]->percent
        == percent
}

// ---------------------------------------------------------------------------
// The marker
// ---------------------------------------------------------------------------

/// A marker is written beside its place and then renamed into it; Windows removes the one that
/// is there first. A step that fails ends the writing with an error.
pub proof fn a_marker_is_written_beside_its_place(v: MarkerWriteView, why: String)
    ensures
        ({
            let did = InstallEvent::Did(Ok::<(), String>(()));
            let failed = InstallEvent::Did(Err::<(), String>(why));
            let windows = v.host == PlatformTarget::Windows;
            &&& v.stage == MarkerStage::Write && windows ==> upgrade::marker_advanced(v, did)
                == MarkerWriteView { stage: MarkerStage::Check, ..v }
            &&& v.stage == MarkerStage::Write && !windows ==> upgrade::marker_advanced(v, did)
                == MarkerWriteView { stage: MarkerStage::Rename, ..v }
            &&& v.stage == MarkerStage::Check ==> upgrade::marker_advanced(
                v,
                InstallEvent::Found(true),
            ) == MarkerWriteView { stage: MarkerStage::Remove, ..v }
            &&& v.stage == MarkerStage::Check ==> upgrade::marker_advanced(
                v,
                InstallEvent::Found(false),
            ) == MarkerWriteView { stage: MarkerStage::Rename, ..v }
            &&& v.stage == MarkerStage::Remove ==> upgrade::marker_advanced(v, did)
                == MarkerWriteView { stage: MarkerStage::Rename, ..v }
            &&& v.stage == MarkerStage::Rename ==> upgrade::marker_advanced(v, did)
                == MarkerWriteView { stage: MarkerStage::Done, ..v }
            &&& v.stage == MarkerStage::Write || v.stage == MarkerStage::Remove || v.stage
                == MarkerStage::Rename ==> {
                let next = upgrade::marker_advanced(v, failed);
                next.stage == MarkerStage::Done && next.error is Some
            }
        }),
{
}

/// Only the marker in the root and a file beside it are touched when it is written.
pub proof fn a_marker_is_written_in_the_root(a: MarkerAction, v: MarkerWriteView)
    requires
        upgrade::marker_action_is(a, v),
    ensures
        ({
            let marker = path::join(v.host, v.root, ".dsh-launcher-managed.json"@);
            let beside = path::join(v.host, v.root, ".dsh-launcher-managed.json.tmp"@);
            &&& v.stage == MarkerStage::Write ==> a is WriteTo && a->WriteTo_0@ == beside
            &&& v.stage == MarkerStage::Check ==> a is Exists && a->Exists_0@ == marker
            &&& v.stage == MarkerStage::Remove ==> a is RemoveFile && a->RemoveFile_0@ == marker
            &&& v.stage == MarkerStage::Rename ==> a is Rename && a->from@ == beside && a->to@
                == marker
            &&& v.stage == MarkerStage::Done ==> a is Finished
        }),
{
}

// ---------------------------------------------------------------------------
// The upgrade
// ---------------------------------------------------------------------------

/// An upgrade begins with what the marker says, and without a usable marker not at all.
pub proof fn an_upgrade_begins_with_the_marker(
    v: UpgradeView,
    host: PlatformTarget,
    root: Seq<char>,
    file: MarkerFile,
)
    requires
        upgrade::upgrade_begins(v, host, root, file),
    ensures
        v.host == host && v.root == root,
        match file {
            MarkerFile::Read(m) if m.schema == 1 => {
                &&& v.stage == UpgradeStage::ClearStaging && v.error is None
                &&& v.schema == 1 && v.use_mirror == m.use_mirror
                &&& v.node_version == m.node_version@ && v.dsh_version == m.dsh_version@
            },
            _ => v.stage == UpgradeStage::Done && v.error is Some,
        },
{
}

/// The event moves the upgrade on to the stage, and changes nothing else.
pub open spec fn upgrade_goes_on(v: UpgradeView, event: InstallEvent, stage: UpgradeStage) -> bool {
    upgrade::upgrade_advanced(v, event).0 == UpgradeView { stage, ..v }
}

/// While everything works, an upgrade clears what an earlier one left, installs the new version
/// beside the one in use and tries it out; then the one in use is set aside, the new one is put
/// in its place and named, and what is left over goes. What cannot be cleared does not matter.
pub proof fn an_upgrade_goes_on_step_by_step(
    v: UpgradeView,
    r: Result<(), String>,
    version: String,
    actual: String,
)
    ensures
        ({
            let any = InstallEvent::Did(r);
            let did = InstallEvent::Did(Ok::<(), String>(()));
            let ran = InstallEvent::Ran(Ok::<(), String>(()));
            &&& v.stage == UpgradeStage::ClearStaging ==> upgrade_goes_on(
                v,
                any,
                UpgradeStage::ClearBackup,
            )
            &&& v.stage == UpgradeStage::ClearBackup ==> upgrade_goes_on(
                v,
                any,
                UpgradeStage::ClearFailed,
            )
            &&& v.stage == UpgradeStage::ClearFailed ==> upgrade_goes_on(
                v,
                any,
                UpgradeStage::Latest,
            )
            &&& v.stage == UpgradeStage::Latest && managed::latest_of(
                LatestAnswer::Version(version),
            ) is Ok ==> {
                let next = upgrade::upgrade_advanced(
                    v,
                    InstallEvent::Latest(LatestAnswer::Version(version)),
                ).0;
                next.stage == UpgradeStage::Npm && next.expected == version@ && next == UpgradeView {
                    stage: next.stage,
                    expected: next.expected,
                    ..v
                }
            }
            &&& v.stage == UpgradeStage::Npm ==> upgrade_goes_on(v, ran, UpgradeStage::WriteTrial)
            &&& v.stage == UpgradeStage::WriteTrial ==> upgrade_goes_on(v, ran, UpgradeStage::Probe)
            &&& v.stage == UpgradeStage::Probe && actual@ == v.expected ==> upgrade_goes_on(
                v,
                InstallEvent::Text(Ok::<String, String>(actual)),
                UpgradeStage::SetAside,
            )
            &&& v.stage == UpgradeStage::SetAside ==> upgrade_goes_on(v, did, UpgradeStage::Enable)
            &&& v.stage == UpgradeStage::Enable ==> upgrade::upgrade_advanced(v, did).0
                == UpgradeView { stage: UpgradeStage::WriteMarker, dsh_version: v.expected, ..v }
            &&& v.stage == UpgradeStage::WriteMarker ==> upgrade_goes_on(
                v,
                ran,
                UpgradeStage::RemoveBackup,
            )
            &&& v.stage == UpgradeStage::RemoveBackup ==> upgrade_goes_on(
                v,
                any,
                UpgradeStage::RemoveTrial,
            )
            &&& v.stage == UpgradeStage::RemoveTrial ==> upgrade_goes_on(
                v,
                any,
                UpgradeStage::RemoveStaging,
            )
            &&& v.stage == UpgradeStage::RemoveStaging ==> upgrade_goes_on(
                v,
                any,
                UpgradeStage::Done,
            )
        }),
{
}

/// The event makes the upgrade fail, and it goes on at the stage.
pub open spec fn upgrade_fails(v: UpgradeView, event: InstallEvent, stage: UpgradeStage) -> bool {
    let next = upgrade::upgrade_advanced(v, event).0;
    next.stage == stage && next.error is Some && next == UpgradeView {
        stage: next.stage,
        error: next.error,
        ..v
    }
}

/// An upgrade that fails before the version in use was set aside only removes what it brought.
/// One that fails later puts it back: at once, or after the new one was taken out; and if it
/// cannot be put back, the new one is.
pub proof fn a_failed_upgrade_puts_the_version_back(
    v: UpgradeView,
    why: String,
    actual: String,
    answer: LatestAnswer,
    r: Result<(), String>,
)
    ensures
        ({
            let any = InstallEvent::Did(r);
            let did = InstallEvent::Did(Ok::<(), String>(()));
            let not_done = InstallEvent::Did(Err::<(), String>(why));
            let not_run = InstallEvent::Ran(Err::<(), String>(why));
            &&& v.stage == UpgradeStage::Latest && managed::latest_of(answer) is Err
                ==> upgrade_fails(v, InstallEvent::Latest(answer), UpgradeStage::RemoveTrial)
            &&& v.stage == UpgradeStage::Npm ==> upgrade_fails(
                v,
                not_run,
                UpgradeStage::RemoveTrial,
            )
            &&& v.stage == UpgradeStage::WriteTrial ==> upgrade_fails(
                v,
                not_run,
                UpgradeStage::RemoveTrial,
            )
            &&& v.stage == UpgradeStage::Probe ==> upgrade_fails(
                v,
                InstallEvent::Text(Err::<String, String>(why)),
                UpgradeStage::RemoveTrial,
            )
            &&& v.stage == UpgradeStage::Probe && actual@ != v.expected ==> upgrade_fails(
                v,
                InstallEvent::Text(Ok::<String, String>(actual)),
                UpgradeStage::RemoveTrial,
            )
            &&& v.stage == UpgradeStage::SetAside ==> upgrade_fails(
                v,
                not_done,
                UpgradeStage::RemoveTrial,
            )
            &&& v.stage == UpgradeStage::Enable ==> upgrade_fails(
                v,
                not_done,
                UpgradeStage::Restore,
            )
            &&& v.stage == UpgradeStage::Restore ==> upgrade_goes_on(
                v,
                any,
                UpgradeStage::RemoveTrial,
            )
            &&& v.stage == UpgradeStage::WriteMarker ==> upgrade_fails(
                v,
                not_run,
                UpgradeStage::TakeOut,
            )
            &&& v.stage == UpgradeStage::TakeOut ==> upgrade_goes_on(v, did, UpgradeStage::PutBack)
            &&& v.stage == UpgradeStage::TakeOut ==> upgrade_fails(
                v,
                not_done,
                UpgradeStage::RemoveTrial,
            )
            &&& v.stage == UpgradeStage::PutBack ==> upgrade_goes_on(
                v,
                did,
                UpgradeStage::RemoveTakenOut,
            )
            &&& v.stage == UpgradeStage::PutBack ==> upgrade_fails(
                v,
                not_done,
                UpgradeStage::Reinstate,
            )
            &&& v.stage == UpgradeStage::Reinstate ==> upgrade_goes_on(
                v,
                any,
                UpgradeStage::RemoveTrial,
            )
            &&& v.stage == UpgradeStage::RemoveTakenOut ==> upgrade_goes_on(
                v,
                any,
                UpgradeStage::RemoveTrial,
            )
        }),
{
}

/// If the version in use could not be put back, the user is told where it is kept.
pub proof fn the_user_is_told_where_the_version_is_kept(v: UpgradeView, why: String)
    requires
        v.stage == UpgradeStage::TakeOut || v.stage == UpgradeStage::PutBack,
        v.error is Some,
    ensures
        ({
            let next = upgrade::upgrade_advanced(
                v,
                InstallEvent::Did(Err::<(), String>(why)),
            ).0;
            let backup = path::join(v.host, v.root, ".dsh-upgrade-backup"@);
            &&& next.error is Some
            &&& text::starts_with(next.error->0, v.error->0)
            &&& text::ends_with(next.error->0, backup)
            &&& text::contains_text(next.error->0, why@)
        }),
{
    let next = upgrade::upgrade_advanced(v, InstallEvent::Did(Err::<(), String>(why))).0;
    let backup = path::join(v.host, v.root, ".dsh-upgrade-backup"@);
    let m = next.error->0;
    let middle = if v.stage == UpgradeStage::TakeOut {
        "；回滚准备失败："@
    } else {
        "；恢复旧版失败："@
    };
    assert(m == v.error->0 + middle + why@ + "。旧版仍保留在 "@ + backup);
    assert(m.take(v.error->0.len() as int) =~= v.error->0);
    assert(m.skip(m.len() - backup.len()) =~= backup);
    assert(m =~= v.error->0 + middle + why@ + ("。旧版仍保留在 "@ + backup));
    text::lemma_contains(v.error->0 + middle, why@, "。旧版仍保留在 "@ + backup);
}

/// An upgrade works beside the runtime in use: it installs into a directory of its own, with
/// the installed Node and from the source of the installation, and tries the new version
/// through a command of its own.
pub proof fn an_upgrade_works_beside_the_version_in_use(a: InstallAction, v: UpgradeView)
    requires
        upgrade::upgrade_action_is(a, v),
    ensures
        ({
            let staging = path::join(v.host, v.root, ".dsh-upgrade-staging"@);
            let trial = path::join(
                v.host,
                v.root,
                if v.host == PlatformTarget::Windows {
                    ".dsh-upgrade-check.cmd"@
                } else {
                    ".dsh-upgrade-check"@
                },
            );
            &&& v.stage == UpgradeStage::ClearStaging ==> is_removal(a, staging)
            &&& v.stage == UpgradeStage::ClearBackup ==> is_removal(
                a,
                path::join(v.host, v.root, ".dsh-upgrade-backup"@),
            )
            &&& v.stage == UpgradeStage::ClearFailed ==> is_removal(
                a,
                path::join(v.host, v.root, ".dsh-upgrade-failed"@),
            )
            &&& v.stage == UpgradeStage::Latest ==> a is LatestDsh && a->LatestDsh_0@
                == if v.use_mirror {
                "https://registry.npmmirror.com/@deepseek-ai%2Fdsh/latest"@
            } else {
                "https://registry.npmjs.org/@deepseek-ai%2Fdsh/latest"@
            }
            &&& v.stage == UpgradeStage::Npm ==> runs_npm(
                a,
                v.host,
                path::join(v.host, v.root, "node"@),
                staging,
                v.use_mirror,
                v.expected,
            )
            &&& v.stage == UpgradeStage::WriteTrial ==> a is WriteScript && a->file@ == trial
                && a->script@ == managed::entry_script(v.host, v.root, staging)
            &&& v.stage == UpgradeStage::Probe ==> a is Probe && a->Probe_0@ == trial
            &&& v.stage == UpgradeStage::RemoveTrial ==> a is RemoveFile && a->RemoveFile_0@
                == trial
            &&& v.stage == UpgradeStage::RemoveStaging ==> is_removal(a, staging)
            &&& v.stage == UpgradeStage::Done ==> a is Finished
        }),
{
}

/// The runtime in use goes to the backup and comes back from there, the new one comes from the
/// staging directory and is taken out to a place of its own; the marker that is written keeps
/// everything but the version of DSH.
pub proof fn the_version_in_use_is_kept_in_the_backup(a: InstallAction, v: UpgradeView)
    requires
        upgrade::upgrade_action_is(a, v),
    ensures
        ({
            let current = path::join(v.host, v.root, "dsh-runtime"@);
            let staging = path::join(v.host, v.root, ".dsh-upgrade-staging"@);
            let backup = path::join(v.host, v.root, ".dsh-upgrade-backup"@);
            let taken_out = path::join(v.host, v.root, ".dsh-upgrade-failed"@);
            &&& v.stage == UpgradeStage::SetAside ==> is_move(a, current, backup)
            &&& v.stage == UpgradeStage::Enable ==> is_move(a, staging, current)
            &&& v.stage == UpgradeStage::Restore ==> is_move(a, backup, current)
            &&& v.stage == UpgradeStage::TakeOut ==> is_move(a, current, taken_out)
            &&& v.stage == UpgradeStage::PutBack ==> is_move(a, backup, current)
            &&& v.stage == UpgradeStage::Reinstate ==> is_move(a, taken_out, current)
            &&& v.stage == UpgradeStage::RemoveTakenOut ==> is_removal(a, taken_out)
            &&& v.stage == UpgradeStage::RemoveBackup ==> is_removal(a, backup)
            &&& v.stage == UpgradeStage::WriteMarker ==> a is WriteMarker && {
                let m = a->WriteMarker_0;
                &&& m.schema == v.schema
                &&& m.node_version@ == v.node_version
                &&& m.dsh_version@ == v.dsh_version
                &&& m.use_mirror == v.use_mirror
            }
        }),
{
}

/// The user is told when an upgrade has begun and when it is complete.
pub proof fn an_upgrade_tells_how_far_it_has_come(v: UpgradeView, event: InstallEvent)
    ensures
        ({
            let notes = upgrade::upgrade_advanced(v, event).1;
            &&& v.stage == UpgradeStage::ClearFailed && event is Did ==> is_told(
                notes,
                "upgrade"@,
                20,
            )
            &&& v.stage == UpgradeStage::RemoveBackup && event is Did ==> is_told(
                notes,
                "complete"@,
                100,
            )
            &&& v.stage != UpgradeStage::ClearFailed && v.stage != UpgradeStage::RemoveBackup
                ==> notes.len() == 0
        }),
{
}

// ---------------------------------------------------------------------------
// The migration
// ---------------------------------------------------------------------------

/// The event moves the migration on to the stage, and changes nothing else.
pub open spec fn migrate_goes_on(v: MigrateView, event: InstallEvent, stage: MigrateStage) -> bool {
    upgrade::migrate_advanced(v, event) == MigrateView { stage, ..v }
}

/// A migration looks for an installation with a runtime under its first name, renames that, and
/// then sees to the commands: the present one is written where there is none, and the first one
/// follows where there is one or the runtime was renamed.
pub proof fn a_migration_goes_on_by_what_it_finds(v: MigrateView, r: Result<(), String>)
    ensures
        ({
            let yes = InstallEvent::Found(true);
            let no = InstallEvent::Found(false);
            let did = InstallEvent::Did(Ok::<(), String>(()));
            let ran = InstallEvent::Ran(Ok::<(), String>(()));
            let follows = if v.renamed {
                MigrateStage::WriteLegacyEntry
            } else {
                MigrateStage::CheckLegacyEntry
            };
            &&& v.stage == MigrateStage::CheckMarker ==> migrate_goes_on(
                v,
                yes,
                MigrateStage::CheckLegacy,
            ) && migrate_goes_on(v, no, MigrateStage::Done)
            &&& v.stage == MigrateStage::CheckLegacy ==> migrate_goes_on(
                v,
                yes,
                MigrateStage::CheckRuntime,
            ) && migrate_goes_on(v, no, MigrateStage::CheckScript)
            &&& v.stage == MigrateStage::CheckRuntime ==> migrate_goes_on(v, no, MigrateStage::Move)
            &&& v.stage == MigrateStage::Move ==> upgrade::migrate_advanced(v, did)
                == MigrateView { stage: MigrateStage::CheckScript, renamed: true, ..v }
            &&& v.stage == MigrateStage::CheckScript ==> migrate_goes_on(
                v,
                yes,
                MigrateStage::CheckEntry,
            ) && migrate_goes_on(v, no, follows)
            &&& v.stage == MigrateStage::CheckEntry ==> migrate_goes_on(v, yes, follows)
                && migrate_goes_on(v, no, MigrateStage::WriteEntry)
            &&& v.stage == MigrateStage::WriteEntry ==> migrate_goes_on(v, ran, follows)
            &&& v.stage == MigrateStage::CheckLegacyEntry ==> migrate_goes_on(
                v,
                yes,
                MigrateStage::WriteLegacyEntry,
            ) && migrate_goes_on(v, no, MigrateStage::Done)
            &&& v.stage == MigrateStage::WriteLegacyEntry ==> migrate_goes_on(
                v,
                InstallEvent::Ran(r),
                MigrateStage::Done,
            )
        }),
{
}

/// A migration fails if there are two runtimes, if the one could not be renamed, or if its
/// command could not be written; then what is there of the command is removed, and a runtime
/// that was renamed gets its first name back.
pub proof fn a_failed_migration_is_undone(v: MigrateView, why: String, r: Result<(), String>)
    ensures
        ({
            let not_done = InstallEvent::Did(Err::<(), String>(why));
            let not_run = InstallEvent::Ran(Err::<(), String>(why));
            let undone = if v.renamed {
                MigrateStage::MoveBack
            } else {
                MigrateStage::Done
            };
            &&& v.stage == MigrateStage::CheckRuntime ==> {
                let next = upgrade::migrate_advanced(v, InstallEvent::Found(true));
                next.stage == MigrateStage::Done && next.error is Some
            }
            &&& v.stage == MigrateStage::Move ==> {
                let next = upgrade::migrate_advanced(v, not_done);
                next.stage == MigrateStage::Done && next.error is Some && next.renamed == v.renamed
            }
            &&& v.stage == MigrateStage::WriteEntry ==> {
                let next = upgrade::migrate_advanced(v, not_run);
                next.stage == MigrateStage::CheckLeft && next.error is Some && next.renamed
                    == v.renamed
            }
            &&& v.stage == MigrateStage::CheckLeft ==> migrate_goes_on(
                v,
                InstallEvent::Found(true),
                MigrateStage::RemoveLeft,
            ) && migrate_goes_on(v, InstallEvent::Found(false), undone)
            &&& v.stage == MigrateStage::RemoveLeft ==> migrate_goes_on(
                v,
                InstallEvent::Did(r),
                undone,
            )
            &&& v.stage == MigrateStage::MoveBack ==> migrate_goes_on(
                v,
                InstallEvent::Did(r),
                MigrateStage::Done,
            )
        }),
{
}

/// A migration begins with nothing done, and looks at and changes only the marker, the runtime
/// under its two names and the commands in the root; a command that it writes runs the runtime
/// under its present name.
pub proof fn a_migration_keeps_to_the_installation(a: MigrateAction, v: MigrateView)
    requires
        upgrade::migrate_action_is(a, v),
    ensures
        upgrade::migration_of(v.host, v.root) == (MigrateView {
            host: v.host,
            root: v.root,
            renamed: false,
            stage: MigrateStage::CheckMarker,
            error: None,
        }),
        ({
            let windows = v.host == PlatformTarget::Windows;
            let legacy = path::join(v.host, v.root, "dsh"@);
            let runtime = path::join(v.host, v.root, "dsh-runtime"@);
            let entry = path::join(
                v.host,
                v.root,
                if windows {
                    "dsh.cmd"@
                } else {
                    "dsh"@
                },
            );
            let first_entry = path::join(
                v.host,
                v.root,
                if windows {
                    "dsh-managed.cmd"@
                } else {
                    "dsh-managed"@
                },
            );
            let script = managed::entry_script(v.host, v.root, runtime);
            &&& v.stage == MigrateStage::CheckMarker ==> a is IsFile && a->IsFile_0@ == path::join(
                v.host,
                v.root,
                ".dsh-launcher-managed.json"@,
            )
            &&& v.stage == MigrateStage::CheckLegacy ==> a is IsDir && a->IsDir_0@ == legacy
            &&& v.stage == MigrateStage::CheckRuntime ==> a is Exists && a->Exists_0@ == runtime
            &&& v.stage == MigrateStage::Move ==> a is Rename && a->from@ == legacy && a->to@
                == runtime
            &&& v.stage == MigrateStage::CheckScript ==> a is IsFile && a->IsFile_0@ == path::join(
                v.host,
                runtime,
                "node_modules/@deepseek-ai/dsh/lib/bin.js"@,
            )
            &&& v.stage == MigrateStage::CheckEntry ==> a is IsFile && a->IsFile_0@ == entry
            &&& v.stage == MigrateStage::WriteEntry ==> a is WriteScript && a->file@ == entry
                && a->script@ == script
            &&& v.stage == MigrateStage::CheckLeft ==> a is Exists && a->Exists_0@ == entry
            &&& v.stage == MigrateStage::RemoveLeft ==> a is RemoveFile && a->RemoveFile_0@ == entry
            &&& v.stage == MigrateStage::MoveBack ==> a is Rename && a->from@ == runtime && a->to@
                == legacy
            &&& v.stage == MigrateStage::CheckLegacyEntry ==> a is IsFile && a->IsFile_0@
                == first_entry
            &&& v.stage == MigrateStage::WriteLegacyEntry ==> a is WriteScript && a->file@
                == first_entry && a->script@ == script
            &&& v.stage == MigrateStage::Done ==> a is Finished
        }),
{
}

// ---------------------------------------------------------------------------
// What is said of a failure
// ---------------------------------------------------------------------------

/// What was being done when something failed is told in its own words.
pub proof fn a_failure_is_told_in_its_own_words()
    ensures
        install::doing_text(Doing::Request) == "网络请求失败："@,
        install::doing_text(Doing::ReadResponse) == "读取网络响应失败："@,
        install::doing_text(Doing::ReadNodeList) == "解析 Node 版本列表失败："@,
        install::doing_text(Doing::MakeStaging) == "创建安装临时目录失败："@,
        install::doing_text(Doing::DownloadNode) == "下载 Node 失败："@,
        install::doing_text(Doing::CreateDownload) == "创建下载文件失败："@,
        install::doing_text(Doing::ReadDownload) == "读取 Node 下载内容失败："@,
        install::doing_text(Doing::SaveDownload) == "保存 Node 下载文件失败："@,
        install::doing_text(Doing::OpenDownload) == "读取 Node 下载文件失败："@,
        install::doing_text(Doing::HashDownload) == "计算 Node 校验值失败："@,
        install::doing_text(Doing::MakeExtracted) == "创建解压目录失败："@,
        install::doing_text(Doing::OpenArchive) == "打开 Node 压缩包失败："@,
        install::doing_text(Doing::ReadArchive) == "读取 Node 压缩包失败："@,
        install::doing_text(Doing::ReadEntry) == "读取 Node 压缩项失败："@,
        install::doing_text(Doing::ReadEntryPath) == "读取 Node 压缩路径失败："@,
        install::doing_text(Doing::ReadZip) == "读取 Node zip 失败："@,
        install::doing_text(Doing::ReadZipEntry) == "读取 Node zip 项失败："@,
        install::doing_text(Doing::MakeEntryDir) == "创建 Node 解压目录失败："@,
        install::doing_text(Doing::MakeEntryFile) == "创建 Node 解压文件失败："@,
        install::doing_text(Doing::WriteEntryFile) == "解压 Node 文件失败："@,
        install::doing_text(Doing::Extract) == "解压 Node 失败："@,
        install::doing_text(Doing::MakePrefix) == "创建 DSH 安装目录失败："@,
        install::doing_text(Doing::MakeGlobalPrefix) == "创建 DSH 全局安装目录失败："@,
        install::doing_text(Doing::RunNpm) == "执行 npm 安装失败："@,
        install::doing_text(Doing::WatchNpm) == "检查 npm 安装状态失败："@,
        install::doing_text(Doing::Tidy) == "整理 DSH 安装目录失败："@,
        install::doing_text(Doing::EnableNode) == "启用 Node 失败："@,
        install::doing_text(Doing::EnableDsh) == "启用 DSH 失败："@,
        install::doing_text(Doing::WriteScript) == "创建 DSH 启动脚本失败："@,
        install::doing_text(Doing::MarkScript) == "设置 DSH 启动脚本权限失败："@,
        install::doing_text(Doing::WriteMarker) == "写入托管环境标记失败："@,
        install::doing_text(Doing::ReplaceMarker) == "替换旧托管环境标记失败："@,
        install::doing_text(Doing::SaveMarker) == "保存托管环境标记失败："@,
{
}

} // verus!
