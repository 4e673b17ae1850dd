//! The package and its build states.
//!
//! A package is built in a fixed order: it is created, libraries are staged
//! for it, it is aligned, and it is signed. Each state is a type of its own,
//! and each transition takes the state before it by value, so the order
//! cannot be changed and no step can be repeated.

use crate::command::{
    action_views, lemma_action_views_push, Action, ActionView, Invocation, InvocationView, Tool,
    ToolOutput, ToolView,
};
use crate::error::{result_view, NdkError, NdkErrorView};
use crate::command::EventView;
use crate::error::failure_of;
use crate::job::{
    attempted, lemma_all_succeed, lemma_stops_at_first_failure, run, start, Job, Progress,
    ProgressView,
};
use crate::manifest::AndroidManifest;
use crate::ndk::{Key, Ndk};
use crate::path::{
    archive_path, archive_path_spec, debug_file_name, debug_file_name_spec, file_name,
    file_name_spec, join, join_spec,
};
use crate::ports::{local_ports, rule_views, PortForwards};
use crate::runtime::{
    each_once, enqueue_all, known, lemma_enqueue_all_each_once, lemma_visit_each_once,
    lemma_visit_knows, nothing_seen, runtime_libs_dir, select_shared_libraries, shared_libraries,
    visit, LibraryWalk, Listing, WalkState,
};
use crate::staged::{insert_spec, lemma_insert_is_idempotent, StagedLibrarySet};
use crate::target::Target;
use crate::text::{chain, lemma_views_push, opt_str_view, owned, views};
use crate::uid::{uid_in_listing, uid_of_package};
use vstd::prelude::*;

verus! {

/// How to treat the debug symbols of a library that is added to the package.
#[derive(Debug, Copy, Clone, PartialEq, Eq, Structural)]
pub enum StripConfig {
    /// The library is copied as it is.
    Default,
    /// The debug symbols are removed from the copy.
    Strip,
    /// The debug symbols are removed from the copy and kept in a file of
    /// their own beside it, which does not go into the package.
    Split,
}

impl Default for StripConfig {
    fn default() -> (policy: Self)
        ensures
            policy == StripConfig::Default,
    {
        StripConfig::Default
    }
}

/// What is to be built, from what, and where.
#[derive(Debug)]
pub struct ApkConfig {
    pub ndk: Ndk,
    pub build_dir: String,
    pub apk_name: String,
    pub assets: Option<String>,
    pub resources: Option<String>,
    pub manifest: AndroidManifest,
    pub disable_aapt_compression: bool,
    pub strip: StripConfig,
    pub reverse_port_forward: PortForwards,
}

/// The package has been created and takes libraries.
#[derive(Debug)]
pub struct UnalignedApk<'a> {
    config: &'a ApkConfig,
    pending_libs: StagedLibrarySet,
}

pub struct UnalignedApkView<'a> {
    pub config: &'a ApkConfig,
    /// The libraries staged so far, by their paths inside the package.
    pub pending_libs: Seq<Seq<char>>,
}

/// The package holds its libraries and has been aligned. It is not signed.
#[derive(Debug)]
pub struct UnsignedApk<'a>(&'a ApkConfig);

/// The finished package: aligned and signed, ready for a device.
#[derive(Debug)]
pub struct Apk {
    path: String,
    package_name: String,
    ndk: Ndk,
    reverse_port_forward: PortForwards,
}

pub struct ApkView {
    /// Where the package lies.
    pub path: Seq<char>,
    /// The name that identifies the application on a device.
    pub package_name: Seq<char>,
    pub ndk: Ndk,
    pub reverse_port_forward: Seq<(Seq<char>, Seq<char>)>,
}

impl<'a> View for UnalignedApk<'a> {
    type V = UnalignedApkView<'a>;

    closed spec fn view(&self) -> UnalignedApkView<'a> {
        UnalignedApkView { config: self.config, pending_libs: self.pending_libs@ }
    }
}

impl<'a> View for UnsignedApk<'a> {
    type V = &'a ApkConfig;

    closed spec fn view(&self) -> &'a ApkConfig {
        self.0
    }
}

impl View for Apk {
    type V = ApkView;

    closed spec fn view(&self) -> ApkView {
        ApkView {
            path: self.path@,
            package_name: self.package_name@,
            ndk: self.ndk,
            reverse_port_forward: self.reverse_port_forward@,
        }
    }
}

/// One run of the object-copy tool for `target`.
pub open spec fn objcopy(target: Target, args: Seq<Seq<char>>) -> ActionView {
    ActionView::Run(InvocationView { tool: ToolView::Objcopy(target), current_dir: None, args })
}

/// One run of the device bridge.
pub open spec fn adb(device_serial: Option<Seq<char>>, args: Seq<Seq<char>>) -> InvocationView {
    InvocationView { tool: ToolView::Adb(device_serial), current_dir: None, args }
}

/// Whether the action writes the debug information of a library into a file
/// of its own.
pub open spec fn writes_debug_file(action: ActionView) -> bool {
    action matches ActionView::Run(invocation) && invocation.args.len() > 0 && invocation.args[0]
        == "--only-keep-debug"@
}

/// The arguments that make the device bridge forward each rule, one run per
/// rule, in the order of the rules.
pub open spec fn forward_plan(
    device_serial: Option<Seq<char>>,
    rules: Seq<(Seq<char>, Seq<char>)>,
) -> Seq<ActionView> {
    Seq::new(
        rules.len(),
        |i: int|
            ActionView::Run(
                adb(device_serial, seq!["reverse"@].push(rules[i].0).push(rules[i].1)),
            ),
    )
}

/// Whichever debug symbol policy is chosen, a library is staged under the
/// same path inside the package: the path follows from the architecture and
/// the library's file name alone.
pub proof fn lemma_staged_library_ignores_policy(
    one: ApkConfig,
    other: ApkConfig,
    path: Seq<char>,
    other_path: Seq<char>,
    target: Target,
)
    requires
        file_name_spec(path) == file_name_spec(other_path),
    ensures
        one.staged_library(path, target) == other.staged_library(other_path, target),
        one.staged_library(path, target) == archive_path_spec(target, file_name_spec(path)),
{
}

/// Staging a library a second time changes nothing: two libraries that are
/// staged under the same path inside the package leave one entry among the
/// staged libraries.
pub proof fn lemma_staging_twice_stages_once(
    config: ApkConfig,
    pending_libs: Seq<Seq<char>>,
    path: Seq<char>,
    other_path: Seq<char>,
    target: Target,
)
    requires
        config.staged_library(path, target) == config.staged_library(other_path, target),
    ensures
        insert_spec(
            insert_spec(pending_libs, config.staged_library(path, target)),
            config.staged_library(other_path, target),
        ) == insert_spec(pending_libs, config.staged_library(path, target)),
{
    lemma_insert_is_idempotent(pending_libs, config.staged_library(path, target));
}

/// Staging libraries one after another keeps what was staged and adds each
/// of them, and nothing else: a path is among the staged libraries
/// afterwards exactly if it was before or is the path of one of the
/// libraries. No path is there twice.
pub proof fn lemma_staged_all_keeps_and_adds(
    config: ApkConfig,
    pending_libs: Seq<Seq<char>>,
    libraries: Seq<Seq<char>>,
    target: Target,
)
    ensures
        forall|path: Seq<char>| #[trigger]
            pending_libs.contains(path) ==> config.staged_all(
                pending_libs,
                libraries,
                target,
            ).contains(path),
        forall|i: int|
            0 <= i < libraries.len() ==> config.staged_all(pending_libs, libraries, target).contains(
                config.staged_library(#[trigger] libraries[i], target),
            ),
        forall|path: Seq<char>| #[trigger]
            config.staged_all(pending_libs, libraries, target).contains(path)
                ==> pending_libs.contains(path) || exists|i: int|
                0 <= i < libraries.len() && path == config.staged_library(
                    #[trigger] libraries[i],
                    target,
                ),
        pending_libs.no_duplicates() ==> config.staged_all(
            pending_libs,
            libraries,
            target,
        ).no_duplicates(),
    decreases libraries.len(),
{
    if libraries.len() > 0 {
        let front = libraries.drop_last();
        let before = config.staged_all(pending_libs, front, target);
        let after = config.staged_all(pending_libs, libraries, target);
        let added = config.staged_library(libraries.last(), target);
        lemma_staged_all_keeps_and_adds(config, pending_libs, front, target);
        lemma_insert_is_idempotent(before, added);
        assert forall|path: Seq<char>| before.contains(path) implies after.contains(path) by {
            let k = before.index_of(path);
            assert(after[k] == path);
        }
        assert forall|i: int| 0 <= i < libraries.len() implies after.contains(
            config.staged_library(#[trigger] libraries[i], target),
        ) by {
            if i < front.len() {
                assert(front[i] == libraries[i]);
            }
        }
        assert forall|path: Seq<char>| #[trigger] after.contains(path) implies pending_libs.contains(
            path,
        ) || exists|i: int|
            0 <= i < libraries.len() && path == config.staged_library(
                #[trigger] libraries[i],
                target,
            ) by {
            if before.contains(path) {
                if !pending_libs.contains(path) {
                    let i = choose|i: int|
                        0 <= i < front.len() && path == config.staged_library(
                            #[trigger] front[i],
                            target,
                        );
                    assert(libraries[i] == front[i]);
                }
            } else {
                let k = after.index_of(path);
                assert(after[k] == path);
                assert(path == config.staged_library(libraries[libraries.len() - 1], target));
            }
        }
    }
}

/// What a walk visits is what is staged. Take a package whose staged
/// libraries are those of `base` and of every library the walk has visited.
/// Let the walk go on for some rounds, in each of which the library that is
/// due is staged and turns out to depend on the libraries of that round.
/// Then the staged libraries are those of `base` and of every library the
/// walk has visited by then, each once. What was staged stays staged.
/// Whatever the walk knew at the beginning it still knows; and once the
/// walk is over, every library it ever knew is staged: those it began with,
/// what they depend on, and what those depend on in turn.
pub proof fn lemma_walk_stages_what_it_visits(
    config: ApkConfig,
    base: Seq<Seq<char>>,
    pending_libs: Seq<Seq<char>>,
    walk: WalkState,
    target: Target,
    rounds: Seq<Seq<Seq<char>>>,
)
    requires
        pending_libs == config.staged_all(base, walk.visited, target),
    ensures
        ({
            let (staged, end) = config.walked(pending_libs, walk, target, rounds);
            &&& staged == config.staged_all(base, end.visited, target)
            &&& forall|path: Seq<char>| pending_libs.contains(path) ==> staged.contains(path)
            &&& forall|library: Seq<char>| known(walk, library) ==> known(end, library)
            &&& each_once(walk) ==> each_once(end)
            &&& base.no_duplicates() ==> staged.no_duplicates()
            &&& end.pending.len() == 0 ==> forall|library: Seq<char>|
                known(walk, library) ==> staged.contains(config.staged_library(library, target))
        }),
    decreases rounds.len(),
{
    if rounds.len() == 0 || walk.pending.len() == 0 {
        lemma_staged_all_keeps_and_adds(config, base, walk.visited, target);
        if walk.pending.len() == 0 {
            assert forall|library: Seq<char>| known(walk, library) implies pending_libs.contains(
                config.staged_library(library, target),
            ) by {
                let i = walk.visited.index_of(library);
                assert(walk.visited[i] == library);
            }
        }
    } else {
        let due = walk.pending.last();
        let added = config.staged_library(due, target);
        let staged_now = insert_spec(pending_libs, added);
        let moved = visit(walk, rounds[0]);
        lemma_visit_knows(walk, rounds[0]);
        if each_once(walk) {
            lemma_visit_each_once(walk, rounds[0]);
        }
        assert(moved.visited.drop_last() =~= walk.visited);
        assert(staged_now == config.staged_all(base, moved.visited, target));
        lemma_walk_stages_what_it_visits(
            config,
            base,
            staged_now,
            moved,
            target,
            rounds.drop_first(),
        );
        let (staged, end) = config.walked(pending_libs, walk, target, rounds);
        assert forall|path: Seq<char>| pending_libs.contains(path) implies staged.contains(
            path,
        ) by {
            let k = pending_libs.index_of(path);
            assert(staged_now[k] == path);
        }
    }
}

/// Splitting leaves three things behind for one library: the copy without
/// debug symbols, the file with the debug symbols beside it, and the link
/// to that file set in the copy. The three runs of the object-copy tool that
/// make them are the last three actions, and only the second of them writes
/// a debug file.
pub proof fn lemma_split_makes_three_artifacts(config: ApkConfig, path: Seq<char>, target: Target)
    requires
        config.strip == StripConfig::Split,
    ensures
        ({
            let plan = config.staging_plan(path, target);
            let dir = config.staging_dir(target);
            let out = join_spec(dir, file_name_spec(path));
            let dwarf = join_spec(dir, debug_file_name_spec(file_name_spec(path)));
            &&& plan.len() == 5
            &&& plan[2] == objcopy(target, seq!["--strip-debug"@].push(path).push(out))
            &&& plan[3] == objcopy(target, seq!["--only-keep-debug"@].push(path).push(dwarf))
            &&& plan[4] == objcopy(target, seq!["--add-gnu-debuglink="@ + dwarf].push(out))
            &&& forall|i: int| 0 <= i < plan.len() ==> (writes_debug_file(plan[i]) <==> i == 3)
        }),
{
    reveal_strlit("--strip-debug");
    reveal_strlit("--only-keep-debug");
    reveal_strlit("--add-gnu-debuglink=");
    let dwarf = join_spec(
        config.staging_dir(target),
        debug_file_name_spec(file_name_spec(path)),
    );
    assert("--strip-debug"@[2] != "--only-keep-debug"@[2]);
    assert(("--add-gnu-debuglink="@ + dwarf)[2] != "--only-keep-debug"@[2]);
}

/// Without splitting no debug file is written: no action of the plan does.
pub proof fn lemma_no_debug_file_unless_split(config: ApkConfig, path: Seq<char>, target: Target)
    requires
        config.strip != StripConfig::Split,
    ensures
        forall|i: int|
            0 <= i < config.staging_plan(path, target).len() ==> !writes_debug_file(
                #[trigger] config.staging_plan(path, target)[i],
            ),
{
    reveal_strlit("--strip-debug");
    reveal_strlit("--only-keep-debug");
    assert("--strip-debug"@[2] != "--only-keep-debug"@[2]);
}

/// Forwarding takes one run of the device bridge for each rule, in the
/// order of the rules, and each run forwards its rule and no other.
pub proof fn lemma_one_run_for_each_rule(
    device_serial: Option<Seq<char>>,
    rules: Seq<(Seq<char>, Seq<char>)>,
)
    ensures
        forward_plan(device_serial, rules).len() == rules.len(),
        forall|i: int|
            0 <= i < rules.len() ==> #[trigger] forward_plan(device_serial, rules)[i]
                == ActionView::Run(
                adb(device_serial, seq!["reverse"@].push(rules[i].0).push(rules[i].1)),
            ),
{
}

/// Where every rule can be forwarded, the device bridge is run once for each
/// rule, in the order of the rules, and then forwarding is finished.
pub proof fn lemma_forwarding_forwards_every_rule(
    device_serial: Option<Seq<char>>,
    rules: Seq<(Seq<char>, Seq<char>)>,
    events: Seq<EventView>,
)
    requires
        events.len() == rules.len(),
        forall|i: int| 0 <= i < events.len() ==> events[i] is Succeeded,
    ensures
        run(start(forward_plan(device_serial, rules), (), ()), events) == ProgressView::<
            (),
            (),
        >::Finished(()),
        attempted(start(forward_plan(device_serial, rules), (), ()), events) == forward_plan(
            device_serial,
            rules,
        ),
{
    lemma_all_succeed(forward_plan(device_serial, rules), (), (), events);
}

/// Forwarding stops at the first rule that cannot be forwarded. The rules
/// before it have been forwarded and stay so; the device bridge is not run
/// for any rule behind it; and forwarding fails with the error of the run
/// that failed.
pub proof fn lemma_forwarding_stops_at_first_failure(
    device_serial: Option<Seq<char>>,
    rules: Seq<(Seq<char>, Seq<char>)>,
    events: Seq<EventView>,
)
    requires
        0 < events.len() <= rules.len(),
        forall|i: int| 0 <= i < events.len() - 1 ==> events[i] is Succeeded,
        !(events.last() is Succeeded),
    ensures
        run(start(forward_plan(device_serial, rules), (), ()), events) == ProgressView::<
            (),
            (),
        >::Failed(
            failure_of(forward_plan(device_serial, rules)[events.len() - 1], events.last()),
            (),
        ),
        attempted(start(forward_plan(device_serial, rules), (), ()), events) == forward_plan(
            device_serial,
            rules,
        ).take(events.len() as int),
        attempted(start(forward_plan(device_serial, rules), (), ()), events).len()
            == events.len(),
{
    lemma_stops_at_first_failure(forward_plan(device_serial, rules), (), (), events);
}

fn arg(args: &mut Vec<String>, text: &str)
    ensures
        views(final(args)@) == views(old(args)@).push(text@),
{
    let owned = String::from_str(text);
    proof {
        lemma_views_push(args@, owned);
    }
    args.push(owned);
}

fn then(actions: &mut Vec<Action>, action: Action)
    ensures
        action_views(final(actions)@) == action_views(old(actions)@).push(action@),
{
    proof {
        lemma_action_views_push(actions@, action);
    }
    actions.push(action);
}

fn no_args() -> (args: Vec<String>)
    ensures
        views(args@) == Seq::<Seq<char>>::empty(),
{
    let args: Vec<String> = Vec::new();
    assert(views(args@) =~= Seq::<Seq<char>>::empty());
    args
}

fn no_actions() -> (actions: Vec<Action>)
    ensures
        action_views(actions@) == Seq::<ActionView>::empty(),
{
    let actions: Vec<Action> = Vec::new();
    assert(action_views(actions@) =~= Seq::<ActionView>::empty());
    actions
}

fn run_objcopy(target: Target, args: Vec<String>) -> (action: Action)
    ensures
        action@ == objcopy(target, views(args@)),
{
    Action::Run(Invocation { tool: Tool::Objcopy(target), current_dir: None, args })
}

fn run_adb(device_serial: Option<&str>, args: Vec<String>) -> (invocation: Invocation)
    ensures
        invocation@ == adb(opt_str_view(device_serial), views(args@)),
{
    Invocation { tool: Tool::Adb(owned(device_serial)), current_dir: None, args }
}

impl ApkConfig {
    /// Where the package lies before it is aligned:
    /// `<apk_name>-unaligned.apk` in the build directory.
    pub open spec fn unaligned_apk_path(&self) -> Seq<char> {
        join_spec(self.build_dir@, self.apk_name@ + "-unaligned.apk"@)
    }

    /// Where the finished package lies: `<apk_name>.apk` in the build
    /// directory.
    pub open spec fn apk_path(&self) -> Seq<char> {
        join_spec(self.build_dir@, self.apk_name@ + ".apk"@)
    }

    /// The platform version to build for: the manifest's, or the toolchain's
    /// where the manifest names none.
    pub open spec fn effective_target_sdk_version(&self) -> u32 {
        match self.manifest.sdk.target_sdk_version {
            Some(version) => version,
            None => self.ndk.default_target_platform,
        }
    }

    /// One run of a tool of the SDK's build tools, started in the build
    /// directory.
    pub open spec fn build_tool_run(&self, tool: ToolView, args: Seq<Seq<char>>) -> ActionView {
        ActionView::Run(InvocationView { tool, current_dir: Some(self.build_dir@), args })
    }

    /// The compression flag of the packaging tool: `-0 ""`, which stores
    /// every entry uncompressed, where compression is disabled.
    pub open spec fn with_compression_flag(&self, args: Seq<Seq<char>>) -> Seq<Seq<char>> {
        if self.disable_aapt_compression {
            args.push("-0"@).push(""@)
        } else {
            args
        }
    }

    /// The arguments with which the packaging tool creates the package.
    pub open spec fn create_args(&self, android_jar: Seq<char>) -> Seq<Seq<char>> {
        let fixed = seq!["package"@].push("-f"@).push("-F"@).push(self.unaligned_apk_path()).push(
            "-M"@,
        ).push("AndroidManifest.xml"@).push("-I"@).push(android_jar);
        let compression = self.with_compression_flag(fixed);
        let resources = match self.resources {
            Some(dir) => compression.push("-S"@).push(dir@),
            None => compression,
        };
        match self.assets {
            Some(dir) => resources.push("-A"@).push(dir@),
            None => resources,
        }
    }

    /// The actions that create the package: make the build directory, write
    /// the manifest into it, run the packaging tool.
    pub open spec fn create_plan(&self, android_jar: Seq<char>) -> Seq<ActionView> {
        seq![ActionView::CreateDirAll(self.build_dir@)].push(
            ActionView::WriteManifest(self.build_dir@),
        ).push(self.build_tool_run(ToolView::Aapt, self.create_args(android_jar)))
    }

    /// The directory in the build tree that holds the staged libraries of
    /// `target`.
    pub open spec fn staging_dir(&self, target: Target) -> Seq<char> {
        join_spec(join_spec(self.build_dir@, "lib"@), target.abi())
    }

    /// The path inside the package under which the library at `path` is
    /// staged. It is made of the architecture and the library's file name,
    /// and of nothing else.
    pub open spec fn staged_library(&self, path: Seq<char>, target: Target) -> Seq<char> {
        archive_path_spec(target, file_name_spec(path))
    }

    /// The staged libraries after each of `libraries` has been staged for
    /// `target`, one after another.
    pub open spec fn staged_all(
        &self,
        pending_libs: Seq<Seq<char>>,
        libraries: Seq<Seq<char>>,
        target: Target,
    ) -> Seq<Seq<char>>
        decreases libraries.len(),
    {
        if libraries.len() == 0 {
            pending_libs
        } else {
            insert_spec(
                self.staged_all(pending_libs, libraries.drop_last(), target),
                self.staged_library(libraries.last(), target),
            )
        }
    }

    /// The staged libraries and the walk after some rounds of the walk. In
    /// each round the library that is due is staged, as
    /// [`UnalignedApk::stage_due`] does it, and the walk goes on with what
    /// the library depends on, as [`LibraryWalk::advance`] does it; `rounds`
    /// holds the dependencies, round by round. A walk in which nothing is
    /// due is over.
    pub open spec fn walked(
        &self,
        pending_libs: Seq<Seq<char>>,
        walk: WalkState,
        target: Target,
        rounds: Seq<Seq<Seq<char>>>,
    ) -> (Seq<Seq<char>>, WalkState)
        decreases rounds.len(),
    {
        if rounds.len() == 0 || walk.pending.len() == 0 {
            (pending_libs, walk)
        } else {
            self.walked(
                insert_spec(pending_libs, self.staged_library(walk.pending.last(), target)),
                visit(walk, rounds[0]),
                target,
                rounds.drop_first(),
            )
        }
    }

    /// The actions that stage the library at `path` in the build tree.
    ///
    /// The library must exist and its directory in the build tree is made.
    /// Then the library is copied as it is; or copied without its debug
    /// symbols; or copied without them, its debug symbols written into a
    /// file beside the copy, and a link to that file set in the copy.
    pub open spec fn staging_plan(&self, path: Seq<char>, target: Target) -> Seq<ActionView> {
        let dir = self.staging_dir(target);
        let name = file_name_spec(path);
        let out = join_spec(dir, name);
        let dwarf = join_spec(dir, debug_file_name_spec(name));
        let prepare = seq![ActionView::RequireFile(path)].push(ActionView::CreateDirAll(dir));
        let strip = objcopy(target, seq!["--strip-debug"@].push(path).push(out));
        let keep = objcopy(target, seq!["--only-keep-debug"@].push(path).push(dwarf));
        let link = objcopy(target, seq!["--add-gnu-debuglink="@ + dwarf].push(out));
        match self.strip {
            StripConfig::Default => prepare.push(ActionView::CopyFile { from: path, to: out }),
            StripConfig::Strip => prepare.push(strip),
            StripConfig::Split => prepare.push(strip).push(keep).push(link),
        }
    }

    /// The arguments with which the packaging tool adds the staged libraries
    /// to the package, all in one run.
    pub open spec fn add_args(&self, pending_libs: Seq<Seq<char>>) -> Seq<Seq<char>> {
        self.with_compression_flag(seq!["add"@]).push(self.unaligned_apk_path()) + pending_libs
    }

    /// The arguments with which the alignment tool writes the aligned
    /// package: on a boundary of 4 bytes, over whatever lies at the
    /// destination.
    pub open spec fn align_args(&self) -> Seq<Seq<char>> {
        seq!["-f"@].push("-v"@).push("4"@).push(self.unaligned_apk_path()).push(self.apk_path())
    }

    /// The actions that put the staged libraries into the package and align
    /// it.
    pub open spec fn align_plan(&self, pending_libs: Seq<Seq<char>>) -> Seq<ActionView> {
        seq![self.build_tool_run(ToolView::Aapt, self.add_args(pending_libs))].push(
            self.build_tool_run(ToolView::Zipalign, self.align_args()),
        )
    }

    /// The arguments with which the signing tool signs the package. The
    /// password is handed over as one argument, `pass:<password>`.
    pub open spec fn sign_args(&self, key_path: Seq<char>, password: Seq<char>) -> Seq<Seq<char>> {
        seq!["sign"@].push("--ks"@).push(key_path).push("--ks-pass"@).push(
            "pass:"@ + password,
        ).push(self.apk_path())
    }

    /// The finished package that this configuration describes.
    pub open spec fn finished(&self) -> ApkView {
        ApkView {
            path: self.apk_path(),
            package_name: self.manifest.package@,
            ndk: self.ndk,
            reverse_port_forward: self.reverse_port_forward@,
        }
    }

    fn build_tool(&self, tool: Tool, args: Vec<String>) -> (action: Action)
        ensures
            action@ == self.build_tool_run(tool@, views(args@)),
    {
        Action::Run(Invocation { tool, current_dir: Some(self.build_dir.clone()), args })
    }

    fn compression_flag(&self, args: &mut Vec<String>)
        ensures
            views(final(args)@) == self.with_compression_flag(views(old(args)@)),
    {
        if self.disable_aapt_compression {
            arg(args, "-0");
            arg(args, "");
        }
    }

    /// Where the package lies before it is aligned.
    pub fn unaligned_apk(&self) -> (path: String)
        ensures
            path@ == self.unaligned_apk_path(),
    {
        let name = chain(self.apk_name.as_str(), "-unaligned.apk");
        join(self.build_dir.as_str(), name.as_str())
    }

    /// Where the finished package lies.
    pub fn apk(&self) -> (path: String)
        ensures
            path@ == self.apk_path(),
    {
        let name = chain(self.apk_name.as_str(), ".apk");
        join(self.build_dir.as_str(), name.as_str())
    }

    /// The platform version to build for.
    pub fn target_sdk_version(&self) -> (version: u32)
        ensures
            version == self.effective_target_sdk_version(),
    {
        match self.manifest.sdk.target_sdk_version {
            Some(version) => version,
            None => self.ndk.default_target_platform,
        }
    }

    /// Creates the package. `android_jar` is where the toolchain keeps the
    /// platform definitions of [`ApkConfig::target_sdk_version`].
    ///
    /// The job makes the build directory, writes the manifest and runs the
    /// packaging tool. It yields the created package, with no library
    /// staged.
    pub fn create_apk<'a>(&'a self, android_jar: &str) -> (progress: Progress<
        UnalignedApk<'a>,
        (),
    >)
        ensures
            progress@ matches ProgressView::Continue(job) && job.plan == self.create_plan(
                android_jar@,
            ) && job.position == 0 && job.result@.config == self
                && job.result@.pending_libs == Seq::<Seq<char>>::empty(),
    {
        let mut args = no_args();
        arg(&mut args, "package");
        arg(&mut args, "-f");
        arg(&mut args, "-F");
        arg(&mut args, self.unaligned_apk().as_str());
        arg(&mut args, "-M");
        arg(&mut args, "AndroidManifest.xml");
        arg(&mut args, "-I");
        arg(&mut args, android_jar);
        self.compression_flag(&mut args);
        match &self.resources {
            Some(dir) => {
                arg(&mut args, "-S");
                arg(&mut args, dir.as_str());
            },
            None => {},
        }
        match &self.assets {
            Some(dir) => {
                arg(&mut args, "-A");
                arg(&mut args, dir.as_str());
            },
            None => {},
        }
        let mut actions = no_actions();
        then(&mut actions, Action::CreateDirAll(self.build_dir.clone()));
        then(&mut actions, Action::WriteManifest(self.build_dir.clone()));
        then(&mut actions, self.build_tool(Tool::Aapt, args));
        Job::begin(
            actions,
            UnalignedApk { config: self, pending_libs: StagedLibrarySet::new() },
            (),
        )
    }
}

impl<'a> UnalignedApk<'a> {
    /// The configuration the package is built from.
    pub fn config(&self) -> (config: &'a ApkConfig)
        ensures
            config == self@.config,
    {
        self.config
    }

    /// Whether `progress` is the beginning of staging the library at `path`
    /// for `target` in this package: the job that carries out the staging
    /// plan, yields the package with the library's path inside the package
    /// added to the staged libraries, and hands this package back as it is if
    /// an action does not succeed.
    pub open spec fn begins_staging(
        self,
        progress: ProgressView<UnalignedApk<'a>, UnalignedApk<'a>>,
        path: Seq<char>,
        target: Target,
    ) -> bool {
        &&& progress matches ProgressView::Continue(job)
        &&& job.plan == self@.config.staging_plan(path, target)
        &&& job.position == 0
        &&& job.result@.config == self@.config
        &&& job.result@.pending_libs == insert_spec(
            self@.pending_libs,
            self@.config.staged_library(path, target),
        )
        &&& job.fallback == self
    }

    /// Stages the library at `path` for `target`.
    ///
    /// The job checks that the library exists, makes its directory in the
    /// build tree and copies it there as the debug symbol policy says. It
    /// yields the package with the library's path inside the package added
    /// to the staged libraries; a path that is staged already is not added a
    /// second time. If an action does not succeed, the job hands the package
    /// back as it was: a library whose staging failed is not staged.
    pub fn add_lib(self, path: &str, target: Target) -> (progress: Progress<
        UnalignedApk<'a>,
        UnalignedApk<'a>,
    >)
        ensures
            self.begins_staging(progress@, path@, target),
    {
        let name = file_name(path);
        let config = self.config;
        let lib_dir = join(config.build_dir.as_str(), "lib");
        let dir = join(lib_dir.as_str(), target.android_abi());
        let out = join(dir.as_str(), name.as_str());

        let mut actions = no_actions();
        then(&mut actions, Action::RequireFile(String::from_str(path)));
        then(&mut actions, Action::CreateDirAll(dir.clone()));
        match config.strip {
            StripConfig::Default => {
                then(&mut actions, Action::CopyFile { from: String::from_str(path), to: out });
            },
            StripConfig::Strip => {
                let mut args = no_args();
                arg(&mut args, "--strip-debug");
                arg(&mut args, path);
                arg(&mut args, out.as_str());
                then(&mut actions, run_objcopy(target, args));
            },
            StripConfig::Split => {
                let dwarf = join(dir.as_str(), debug_file_name(name.as_str()).as_str());

                let mut args = no_args();
                arg(&mut args, "--strip-debug");
                arg(&mut args, path);
                arg(&mut args, out.as_str());
                then(&mut actions, run_objcopy(target, args));

                let mut args = no_args();
                arg(&mut args, "--only-keep-debug");
                arg(&mut args, path);
                arg(&mut args, dwarf.as_str());
                then(&mut actions, run_objcopy(target, args));

                let mut args = no_args();
                arg(&mut args, chain("--add-gnu-debuglink=", dwarf.as_str()).as_str());
                arg(&mut args, out.as_str());
                then(&mut actions, run_objcopy(target, args));
            },
        }
        let pending_libs = self.pending_libs.duplicate().insert(
            archive_path(target, name.as_str()),
        );
        Job::begin(actions, UnalignedApk { config, pending_libs }, self)
    }

    /// Stages the library that is due in `walk`, if one is.
    ///
    /// With nothing due the package comes back as it is. Otherwise the job
    /// is the one that [`UnalignedApk::add_lib`] gives for the library that
    /// is due.
    pub fn stage_due(self, walk: &LibraryWalk, target: Target) -> (progress: Progress<
        UnalignedApk<'a>,
        UnalignedApk<'a>,
    >)
        ensures
            walk@.pending.len() == 0 ==> progress@ == ProgressView::<
                UnalignedApk<'a>,
                UnalignedApk<'a>,
            >::Finished(self),
            walk@.pending.len() > 0 ==> self.begins_staging(
                progress@,
                walk@.pending.last(),
                target,
            ),
    {
        match walk.due() {
            Some(library) => self.add_lib(library.as_str(), target),
            None => Progress::Finished(self),
        }
    }

    /// Begins to stage the runtime libraries of `target` that lie under
    /// `path`, each with the libraries it depends on.
    ///
    /// `listing` is what came of listing the directory
    /// [`runtime_libs_dir`]. A directory that could not be read fails the
    /// operation with `IoPathError` for that directory, an entry that could
    /// not be read with `IoError`. Otherwise the walk begins with the shared
    /// libraries among the files. Nothing is staged yet: each library of the
    /// walk is staged by [`UnalignedApk::stage_due`], and
    /// [`lemma_walk_stages_what_it_visits`] says what is staged when the
    /// walk is over.
    pub fn add_runtime_libs(&self, path: &str, target: Target, listing: Listing) -> (walk: Result<
        LibraryWalk,
        NdkError,
    >)
        ensures
            match listing {
                Listing::Names(names) => walk matches Ok(walk) && walk@ == enqueue_all(
                    nothing_seen(),
                    shared_libraries(join_spec(path@, target.abi()), views(names@)),
                ) && each_once(walk@) && walk@.visited.len() == 0,
                Listing::Unreadable(message) => walk matches Err(error) && error@
                    == NdkErrorView::IoPathError(join_spec(path@, target.abi()), message@),
                Listing::Broken(message) => walk matches Err(error) && error@
                    == NdkErrorView::IoError(message@),
            },
    {
        let dir = runtime_libs_dir(path, target);
        match listing {
            Listing::Names(names) => {
                proof {
                    lemma_enqueue_all_each_once(
                        nothing_seen(),
                        shared_libraries(join_spec(path@, target.abi()), views(names@)),
                    );
                }
                Ok(LibraryWalk::new(select_shared_libraries(dir.as_str(), &names)))
            },
            Listing::Unreadable(message) => Err(NdkError::IoPathError(dir, message)),
            Listing::Broken(message) => Err(NdkError::IoError(message)),
        }
    }

    /// Puts the staged libraries into the package and aligns it.
    ///
    /// The job runs the packaging tool once for all staged libraries and
    /// then the alignment tool, which writes the aligned package to its
    /// final place. It yields the aligned package.
    pub fn add_pending_libs_and_align(self) -> (progress: Progress<UnsignedApk<'a>, ()>)
        ensures
            progress@ matches ProgressView::Continue(job) && job.plan
                == self@.config.align_plan(self@.pending_libs) && job.position == 0
                && job.result@ == self@.config,
    {
        let UnalignedApk { config, pending_libs } = self;
        let unaligned = config.unaligned_apk();

        let mut add = no_args();
        arg(&mut add, "add");
        config.compression_flag(&mut add);
        arg(&mut add, unaligned.as_str());
        let ghost head = views(add@);
        let libs = pending_libs.paths();
        let mut i: usize = 0;
        while i < libs.len()
            invariant
                i <= libs.len(),
                views(add@) == head + views(libs@).take(i as int),
            decreases libs.len() - i,
        {
            arg(&mut add, libs[i].as_str());
            i = i + 1;
            assert(views(add@) =~= head + views(libs@).take(i as int));
        }
        assert(views(libs@).take(libs.len() as int) =~= views(libs@));

        let mut align = no_args();
        arg(&mut align, "-f");
        arg(&mut align, "-v");
        arg(&mut align, "4");
        arg(&mut align, unaligned.as_str());
        arg(&mut align, config.apk().as_str());

        let mut actions = no_actions();
        then(&mut actions, config.build_tool(Tool::Aapt, add));
        then(&mut actions, config.build_tool(Tool::Zipalign, align));
        Job::begin(actions, UnsignedApk(config), ())
    }
}

impl<'a> UnsignedApk<'a> {
    /// Signs the package with `key`.
    ///
    /// The job runs the signing tool on the aligned package. It yields the
    /// finished package.
    pub fn sign(self, key: Key) -> (progress: Progress<Apk, ()>)
        ensures
            progress@ matches ProgressView::Continue(job) && job.plan == seq![
                self@.build_tool_run(
                    ToolView::Apksigner,
                    self@.sign_args(key.path@, key.password@),
                ),
            ] && job.position == 0 && job.result@ == self@.finished() && local_ports(
                job.result@.reverse_port_forward,
            ).no_duplicates(),
    {
        let config = self.0;
        let mut args = no_args();
        arg(&mut args, "sign");
        arg(&mut args, "--ks");
        arg(&mut args, key.path.as_str());
        arg(&mut args, "--ks-pass");
        arg(&mut args, chain("pass:", key.password.as_str()).as_str());
        arg(&mut args, config.apk().as_str());
        let mut actions = no_actions();
        then(&mut actions, config.build_tool(Tool::Apksigner, args));
        Job::begin(actions, Apk::from_config(config), ())
    }
}

impl Apk {
    /// The finished package that `config` describes: where it lies, the
    /// application's name from the manifest, the toolchain and the port
    /// forwarding rules.
    pub fn from_config(config: &ApkConfig) -> (apk: Self)
        ensures
            apk@ == config.finished(),
            local_ports(apk@.reverse_port_forward).no_duplicates(),
    {
        Apk {
            path: config.apk(),
            package_name: config.manifest.package.clone(),
            ndk: config.ndk,
            reverse_port_forward: config.reverse_port_forward.duplicate(),
        }
    }

    /// Sets up every reverse port forwarding rule on the device.
    ///
    /// The job runs the device bridge once for each rule, in the order of
    /// the rules. It stops at the first run that fails; rules forwarded
    /// before stay forwarded.
    pub fn reverse_port_forwarding(&self, device_serial: Option<&str>) -> (progress: Progress<
        (),
        (),
    >)
        ensures
            progress@ == start(
                forward_plan(opt_str_view(device_serial), self@.reverse_port_forward),
                (),
                (),
            ),
            local_ports(self@.reverse_port_forward).no_duplicates(),
    {
        let rules = self.reverse_port_forward.rules();
        let mut actions = no_actions();
        let mut i: usize = 0;
        while i < rules.len()
            invariant
                i <= rules.len(),
                rule_views(rules@) == self@.reverse_port_forward,
                action_views(actions@) == forward_plan(
                    opt_str_view(device_serial),
                    self@.reverse_port_forward,
                ).take(i as int),
            decreases rules.len() - i,
        {
            let mut args = no_args();
            arg(&mut args, "reverse");
            arg(&mut args, rules[i].0.as_str());
            arg(&mut args, rules[i].1.as_str());
            then(&mut actions, Action::Run(run_adb(device_serial, args)));
            i = i + 1;
            assert(action_views(actions@) =~= forward_plan(
                opt_str_view(device_serial),
                self@.reverse_port_forward,
            ).take(i as int));
        }
        assert(forward_plan(opt_str_view(device_serial), self@.reverse_port_forward).take(
            rules.len() as int,
        ) =~= forward_plan(opt_str_view(device_serial), self@.reverse_port_forward));
        Job::begin(actions, (), ())
    }

    /// Installs the package on the device, over an installed one if there
    /// is one.
    pub fn install(&self, device_serial: Option<&str>) -> (progress: Progress<(), ()>)
        ensures
            progress@ == start(
                seq![
                    ActionView::Run(
                        adb(
                            opt_str_view(device_serial),
                            seq!["install"@].push("-r"@).push(self@.path),
                        ),
                    ),
                ],
                (),
                (),
            ),
    {
        let mut args = no_args();
        arg(&mut args, "install");
        arg(&mut args, "-r");
        arg(&mut args, self.path.as_str());
        let mut actions = no_actions();
        then(&mut actions, Action::Run(run_adb(device_serial, args)));
        Job::begin(actions, (), ())
    }

    /// Starts the application on the device, at the activity
    /// `android.app.NativeActivity` of its package.
    pub fn start(&self, device_serial: Option<&str>) -> (progress: Progress<(), ()>)
        ensures
            progress@ == start(
                seq![
                    ActionView::Run(
                        adb(
                            opt_str_view(device_serial),
                            seq!["shell"@].push("am"@).push("start"@).push("-a"@).push(
                                "android.intent.action.MAIN"@,
                            ).push("-n"@).push(
                                self@.package_name + "/android.app.NativeActivity"@,
                            ),
                        ),
                    ),
                ],
                (),
                (),
            ),
    {
        let mut args = no_args();
        arg(&mut args, "shell");
        arg(&mut args, "am");
        arg(&mut args, "start");
        arg(&mut args, "-a");
        arg(&mut args, "android.intent.action.MAIN");
        arg(&mut args, "-n");
        arg(
            &mut args,
            chain(self.package_name.as_str(), "/android.app.NativeActivity").as_str(),
        );
        let mut actions = no_actions();
        then(&mut actions, Action::Run(run_adb(device_serial, args)));
        Job::begin(actions, (), ())
    }

    /// The run of the device bridge that lists the packages whose name
    /// contains this package's name, each with its numeric id.
    pub open spec fn uid_query(&self, device_serial: Option<Seq<char>>) -> InvocationView {
        adb(
            device_serial,
            seq!["shell"@].push("pm"@).push("list"@).push("package"@).push("-U"@).push(
                self@.package_name,
            ),
        )
    }

    /// The run of the device bridge whose output [`Apk::uidof`] reads.
    pub fn uidof_query(&self, device_serial: Option<&str>) -> (invocation: Invocation)
        ensures
            invocation@ == self.uid_query(opt_str_view(device_serial)),
    {
        let mut args = no_args();
        arg(&mut args, "shell");
        arg(&mut args, "pm");
        arg(&mut args, "list");
        arg(&mut args, "package");
        arg(&mut args, "-U");
        arg(&mut args, self.package_name.as_str());
        run_adb(device_serial, args)
    }

    /// What [`Apk::uidof`] makes of what came of running the query.
    ///
    /// A query that could not be started fails with the operating system's
    /// message, one that exited with a failure status with its invocation.
    /// Otherwise the id is looked up in what the query wrote, as
    /// [`uid_in_listing`] says.
    pub open spec fn uid_lookup(
        &self,
        device_serial: Option<Seq<char>>,
        output: Result<ToolOutput, String>,
    ) -> Result<u32, NdkErrorView> {
        match output {
            Err(message) => Err(NdkErrorView::IoError(message@)),
            Ok(output) => if output.success {
                uid_in_listing(self@.package_name, output.stdout@)
            } else {
                Err(NdkErrorView::ToolInvocationFailed(self.uid_query(device_serial)))
            },
        }
    }

    /// The numeric id of the package on the device. `output` is what came
    /// of running [`Apk::uidof_query`]: what the query left behind, or the
    /// operating system's message if it could not be started.
    pub fn uidof(&self, device_serial: Option<&str>, output: Result<ToolOutput, String>) -> (uid:
        Result<u32, NdkError>)
        ensures
            result_view(uid) == self.uid_lookup(opt_str_view(device_serial), output),
    {
        match output {
            Err(message) => Err(NdkError::IoError(message)),
            Ok(output) => {
                if output.success {
                    uid_of_package(self.package_name.as_str(), output.stdout.as_str())
                } else {
                    Err(NdkError::ToolInvocationFailed(self.uidof_query(device_serial)))
                }
            },
        }
    }
}

} // verus!
