//! The launch as a whole: package root, version query, install, resolution
//! of the installed version, and the call of the tool, in this order.

use crate::embedder::{
    EmbedAction, EmbedActionView, EmbedEvent, EmbedFailure, EmbedPhase, Embedder, Invocation,
};
use crate::installer::{
    InstallAction, InstallActionView, InstallEvent, InstallFailure, InstallPhase, Installer,
};
use crate::layout::{install_target_of, target_path};
use crate::remote::{get_remote_version, trimmed};
use crate::resolver::{get_local_version, resolution_of, ResolveError};
use crate::text::{text_of, texts_of};
use crate::version::is_version;
use vstd::prelude::*;

verus! {

/// Why a launch was given up.
#[derive(Clone, Copy, PartialEq, Eq, Structural, Debug)]
pub enum LaunchFailure {
    /// There is neither an override for the package root nor a home
    /// directory.
    NoPackageRoot,
    /// The latest version could not be asked for.
    RemoteQuery,
    /// The answer to the version query is no semantic version.
    RemoteVersion,
    /// The install failed.
    Install(InstallFailure),
    /// The package root could not be listed.
    Listing,
    /// The entries of the package root do not resolve to a version.
    Resolve(ResolveError),
    /// The runtime failed.
    Embed(EmbedFailure),
    /// The driver reported something that the step it was asked for cannot
    /// end in.
    UnexpectedEvent,
}

/// What the driver reports of the step it was asked for.
pub enum LaunchEvent {
    /// The environment is prepared; `root` is the package root, if there is
    /// one.
    PackageRoot { root: Option<String> },
    /// The version query was answered with `body`.
    RemoteBody { body: String },
    /// What came of a step of the install.
    Install(InstallEvent),
    /// The package root holds the entries `entries`.
    Listing { entries: Vec<String> },
    /// There is no package root to list.
    RootMissing,
    /// What came of a step of the embedding.
    Embed(EmbedEvent),
    /// The step failed.
    StepFailed,
}

/// A `LaunchEvent` as a mathematical value.
pub enum LaunchEventView {
    PackageRoot { root: Option<Seq<char>> },
    RemoteBody { body: Seq<char> },
    Install(InstallEvent),
    Listing { entries: Seq<Seq<char>> },
    RootMissing,
    Embed(EmbedEvent),
    StepFailed,
}

impl View for LaunchEvent {
    type V = LaunchEventView;

    open spec fn view(&self) -> LaunchEventView {
        match *self {
            LaunchEvent::PackageRoot { root } => LaunchEventView::PackageRoot {
                root: text_of(root),
            },
            LaunchEvent::RemoteBody { body } => LaunchEventView::RemoteBody { body: body@ },
            LaunchEvent::Install(event) => LaunchEventView::Install(event),
            LaunchEvent::Listing { entries } => LaunchEventView::Listing {
                entries: texts_of(entries@),
            },
            LaunchEvent::RootMissing => LaunchEventView::RootMissing,
            LaunchEvent::Embed(event) => LaunchEventView::Embed(event),
            LaunchEvent::StepFailed => LaunchEventView::StepFailed,
        }
    }
}

/// What the driver is asked to do next.
#[derive(PartialEq, Eq, Debug)]
pub enum LaunchAction {
    /// Remove the variable `clear` from the environment, so that it cannot
    /// reach the runtime, and find the package root, which the variable
    /// `overriding` overrides.
    PrepareEnvironment { clear: String, overriding: String },
    /// Ask `url` for the latest version.
    QueryVersion { url: String },
    /// Carry out a step of the install.
    Install(InstallAction),
    /// List the entries of the directory `root`.
    ListEntries { root: String },
    /// Carry out a step of the embedding of the tool that is installed in
    /// `home`.
    Embed { home: String, action: EmbedAction },
    /// Nothing is left to do.
    Finish,
    /// Give the launch up.
    Abort { failure: LaunchFailure },
}

/// A `LaunchAction` as a mathematical value.
pub enum LaunchActionView {
    PrepareEnvironment { clear: Seq<char>, overriding: Seq<char> },
    QueryVersion { url: Seq<char> },
    Install(InstallActionView),
    ListEntries { root: Seq<char> },
    Embed { home: Seq<char>, action: EmbedActionView },
    Finish,
    Abort { failure: LaunchFailure },
}

impl View for LaunchAction {
    type V = LaunchActionView;

    open spec fn view(&self) -> LaunchActionView {
        match *self {
            LaunchAction::PrepareEnvironment { clear, overriding } => {
                LaunchActionView::PrepareEnvironment { clear: clear@, overriding: overriding@ }
            },
            LaunchAction::QueryVersion { url } => LaunchActionView::QueryVersion { url: url@ },
            LaunchAction::Install(action) => LaunchActionView::Install(action@),
            LaunchAction::ListEntries { root } => LaunchActionView::ListEntries { root: root@ },
            LaunchAction::Embed { home, action } => LaunchActionView::Embed {
                home: home@,
                action: action@,
            },
            LaunchAction::Finish => LaunchActionView::Finish,
            LaunchAction::Abort { failure } => LaunchActionView::Abort { failure },
        }
    }
}

/// Where a launch stands, as a mathematical value. The stages follow each
/// other in this order; the arguments of the launcher are carried along
/// until they are handed to the entry point.
pub enum LaunchStage {
    /// The package root is to be found.
    Locating { arguments: Seq<Seq<char>> },
    /// The latest version is to be asked for.
    Querying { root: Seq<char>, arguments: Seq<Seq<char>> },
    /// The latest version is being installed, unless it is already.
    Installing {
        root: Seq<char>,
        version: Seq<char>,
        install: InstallPhase,
        arguments: Seq<Seq<char>>,
    },
    /// The install is over; the package root is to be listed.
    Resolving { root: Seq<char>, arguments: Seq<Seq<char>> },
    /// The tool in `home` is being started in the runtime.
    Embedding { home: Seq<char>, call: Invocation, embed: EmbedPhase },
    /// The entry point has been called.
    Finished,
    /// The launch has failed for good.
    Failed(LaunchFailure),
}

/// The variable that overrides the package root.
pub open spec fn root_variable() -> Seq<char> {
    "ARTHAS_LIB_DIR"@
}

/// The variable that is kept from the runtime.
pub open spec fn cleared_variable() -> Seq<char> {
    "JAVA_TOOL_OPTIONS"@
}

/// Where the latest version is asked for.
pub open spec fn version_url() -> Seq<char> {
    "https://arthas.aliyun.com/api/latest_version"@
}

/// The entry point of the tool, called with `arguments`.
pub open spec fn entry_point(arguments: Seq<Seq<char>>) -> Invocation {
    Invocation {
        class: "com/taobao/arthas/boot/Bootstrap"@,
        method: "main"@,
        signature: "([Ljava/lang/String;)V"@,
        arguments,
    }
}

/// The stage that follows an install in `phase`.
pub open spec fn after_install_step(
    root: Seq<char>,
    version: Seq<char>,
    phase: InstallPhase,
    arguments: Seq<Seq<char>>,
) -> LaunchStage {
    match phase {
        InstallPhase::Installed => LaunchStage::Resolving { root, arguments },
        InstallPhase::Failed(failure) => LaunchStage::Failed(LaunchFailure::Install(failure)),
        _ => LaunchStage::Installing { root, version, install: phase, arguments },
    }
}

/// The stage that follows an embedding in `phase`.
pub open spec fn after_embed_step(home: Seq<char>, call: Invocation, phase: EmbedPhase)
    -> LaunchStage {
    match phase {
        EmbedPhase::Invoked => LaunchStage::Finished,
        EmbedPhase::Failed(failure) => LaunchStage::Failed(LaunchFailure::Embed(failure)),
        _ => LaunchStage::Embedding { home, call, embed: phase },
    }
}

/// The stage that follows `stage` when the driver reports `event`.
///
/// The order is fixed. The latest version is asked for before anything is
/// installed, and it is what is installed, if it is a semantic version: an
/// answer that is none ends the launch before a path or a URL is made of it.
/// What is started afterwards is not
/// that version as such but the highest version that the package root then
/// holds: the listing decides, not the answer to the query. A package root
/// that is missing counts as one without a version, not as a failure to
/// list. A failure at any stage ends the launch, and a launch that has ended
/// stays as it is.
pub open spec fn next_stage(stage: LaunchStage, event: LaunchEventView) -> LaunchStage {
    match stage {
        LaunchStage::Finished => stage,
        LaunchStage::Failed(_) => stage,
        LaunchStage::Locating { arguments } => match event {
            LaunchEventView::PackageRoot { root: Some(root) } => LaunchStage::Querying {
                root,
                arguments,
            },
            LaunchEventView::PackageRoot { root: None } => LaunchStage::Failed(
                LaunchFailure::NoPackageRoot,
            ),
            _ => LaunchStage::Failed(LaunchFailure::UnexpectedEvent),
        },
        LaunchStage::Querying { root, arguments } => match event {
            LaunchEventView::RemoteBody { body } => if is_version(trimmed(body)) {
                LaunchStage::Installing {
                    root,
                    version: trimmed(body),
                    install: InstallPhase::Probing,
                    arguments,
                }
            } else {
                LaunchStage::Failed(LaunchFailure::RemoteVersion)
            },
            LaunchEventView::StepFailed => LaunchStage::Failed(LaunchFailure::RemoteQuery),
            _ => LaunchStage::Failed(LaunchFailure::UnexpectedEvent),
        },
        LaunchStage::Installing { root, version, install, arguments } => match event {
            LaunchEventView::Install(event) => after_install_step(
                root,
                version,
                crate::installer::next_phase(install, event),
                arguments,
            ),
            _ => LaunchStage::Failed(LaunchFailure::UnexpectedEvent),
        },
        LaunchStage::Resolving { root, arguments } => match event {
            LaunchEventView::Listing { entries } => match resolution_of(entries) {
                Ok(local) => LaunchStage::Embedding {
                    home: install_target_of(root, local),
                    call: entry_point(arguments),
                    embed: EmbedPhase::Uninitialized,
                },
                Err(error) => LaunchStage::Failed(LaunchFailure::Resolve(error)),
            },
            LaunchEventView::RootMissing => LaunchStage::Failed(
                LaunchFailure::Resolve(ResolveError::NoVersions),
            ),
            LaunchEventView::StepFailed => LaunchStage::Failed(LaunchFailure::Listing),
            _ => LaunchStage::Failed(LaunchFailure::UnexpectedEvent),
        },
        LaunchStage::Embedding { home, call, embed } => match event {
            LaunchEventView::Embed(event) => after_embed_step(
                home,
                call,
                crate::embedder::next_phase(embed, event, call.arguments.len()),
            ),
            _ => LaunchStage::Failed(LaunchFailure::UnexpectedEvent),
        },
    }
}

/// What a launch asks of the driver in `stage`.
pub open spec fn action_at(stage: LaunchStage) -> LaunchActionView {
    match stage {
        LaunchStage::Locating { .. } => LaunchActionView::PrepareEnvironment {
            clear: cleared_variable(),
            overriding: root_variable(),
        },
        LaunchStage::Querying { .. } => LaunchActionView::QueryVersion { url: version_url() },
        LaunchStage::Installing { root, version, install, .. } => LaunchActionView::Install(
            crate::installer::action_in(install, root, version),
        ),
        LaunchStage::Resolving { root, .. } => LaunchActionView::ListEntries { root },
        LaunchStage::Embedding { home, call, embed } => LaunchActionView::Embed {
            home,
            action: crate::embedder::action_in(embed, call),
        },
        LaunchStage::Finished => LaunchActionView::Finish,
        LaunchStage::Failed(failure) => LaunchActionView::Abort { failure },
    }
}

/// A stage that a launch can be in: there are no more arguments than a
/// vector holds, an install that is under way is that of a semantic version
/// and has not ended, and neither has an embedding.
pub open spec fn stage_fits(stage: LaunchStage) -> bool {
    &&& arguments_at(stage) matches Some(arguments) ==> arguments.len() <= usize::MAX
    &&& match stage {
        LaunchStage::Installing { version, install, .. } => is_version(version)
            && !crate::installer::has_ended(install),
        LaunchStage::Embedding { call, embed, .. } => !crate::embedder::has_ended(embed)
            && crate::embedder::phase_fits(embed, call.arguments.len()),
        _ => true,
    }
}

/// The stage that a launch is in after the driver has reported `events`, one
/// after the other, starting in `start`.
pub open spec fn stage_after(start: LaunchStage, events: Seq<LaunchEventView>) -> LaunchStage
    decreases events.len(),
{
    if events.len() == 0 {
        start
    } else {
        next_stage(stage_after(start, events.drop_last()), events.last())
    }
}

/// The place of a stage in the order of a launch.
pub open spec fn stage_rank(stage: LaunchStage) -> nat {
    match stage {
        LaunchStage::Locating { .. } => 0,
        LaunchStage::Querying { .. } => 1,
        LaunchStage::Installing { .. } => 2,
        LaunchStage::Resolving { .. } => 3,
        LaunchStage::Embedding { .. } => 4,
        LaunchStage::Finished => 5,
        LaunchStage::Failed(_) => 5,
    }
}

/// The arguments that a stage carries towards the entry point, while the
/// launch has not ended.
pub open spec fn arguments_at(stage: LaunchStage) -> Option<Seq<Seq<char>>> {
    match stage {
        LaunchStage::Locating { arguments } => Some(arguments),
        LaunchStage::Querying { arguments, .. } => Some(arguments),
        LaunchStage::Installing { arguments, .. } => Some(arguments),
        LaunchStage::Resolving { arguments, .. } => Some(arguments),
        LaunchStage::Embedding { call, .. } => Some(call.arguments),
        LaunchStage::Finished => None,
        LaunchStage::Failed(_) => None,
    }
}

/// A step never takes a launch back to an earlier stage, it leaves the
/// arguments as they are, and it calls no other entry point than the tool's.
pub proof fn lemma_step_keeps_order_and_arguments(stage: LaunchStage, event: LaunchEventView)
    requires
        stage_fits(stage),
        stage matches LaunchStage::Embedding { call, .. } ==> call == entry_point(call.arguments),
    ensures
        stage_fits(next_stage(stage, event)),
        stage_rank(stage) <= stage_rank(next_stage(stage, event)),
        arguments_at(next_stage(stage, event)) is Some ==> arguments_at(next_stage(stage, event))
            == arguments_at(stage),
        next_stage(stage, event) matches LaunchStage::Embedding { call, .. } ==> call
            == entry_point(call.arguments),
{
    match stage {
        LaunchStage::Embedding { home, call, embed } => {
            if let LaunchEventView::Embed(event) = event {
                crate::embedder::lemma_step_makes_progress(embed, event, call.arguments.len());
            }
        },
        _ => {},
    }
}

/// The stage after the first `n + 1` events is the stage after the first `n`
/// of them, followed by the next event.
proof fn lemma_stage_after_one_more(start: LaunchStage, events: Seq<LaunchEventView>, n: int)
    requires
        0 <= n < events.len(),
    ensures
        stage_after(start, events.take(n + 1)) == next_stage(
            stage_after(start, events.take(n)),
            events[n],
        ),
{
    assert(events.take(n + 1).drop_last() =~= events.take(n));
}

/// The stages of a launch keep their order, whatever the driver reports: of
/// two moments of a launch, the later one is in no earlier stage.
pub proof fn lemma_stages_keep_their_order(
    arguments: Seq<Seq<char>>,
    events: Seq<LaunchEventView>,
    earlier: int,
    later: int,
)
    requires
        0 <= earlier <= later <= events.len(),
        arguments.len() <= usize::MAX,
    ensures
        stage_rank(stage_after(LaunchStage::Locating { arguments }, events.take(earlier)))
            <= stage_rank(stage_after(LaunchStage::Locating { arguments }, events.take(later))),
    decreases later - earlier,
{
    if earlier < later {
        lemma_stages_keep_their_order(arguments, events, earlier, later - 1);
        lemma_arguments_are_forwarded_unchanged(arguments, events.take(later - 1));
        lemma_stage_after_one_more(LaunchStage::Locating { arguments }, events, later - 1);
        lemma_step_keeps_order_and_arguments(
            stage_after(LaunchStage::Locating { arguments }, events.take(later - 1)),
            events[later - 1],
        );
    }
}

/// The arguments of the launcher reach the entry point unchanged: whatever
/// the driver reports, as long as the launch has not ended it carries the
/// arguments that it began with, and where it has come to the runtime, the
/// call is that of the tool's entry point with just these arguments.
pub proof fn lemma_arguments_are_forwarded_unchanged(
    arguments: Seq<Seq<char>>,
    events: Seq<LaunchEventView>,
)
    requires
        arguments.len() <= usize::MAX,
    ensures
        stage_fits(stage_after(LaunchStage::Locating { arguments }, events)),
        arguments_at(stage_after(LaunchStage::Locating { arguments }, events)) is Some
            ==> arguments_at(stage_after(LaunchStage::Locating { arguments }, events)) == Some(
            arguments,
        ),
        stage_after(LaunchStage::Locating { arguments }, events) matches LaunchStage::Embedding {
            call,
            ..
        } ==> call == entry_point(arguments),
    decreases events.len(),
{
    if events.len() > 0 {
        lemma_arguments_are_forwarded_unchanged(arguments, events.drop_last());
        lemma_step_keeps_order_and_arguments(
            stage_after(LaunchStage::Locating { arguments }, events.drop_last()),
            events.last(),
        );
    }
}

/// Nothing is installed before the latest version is known, and what is
/// installed is that version: a launch that is installing has been told the
/// package root first and the answer to the version query second, and what
/// it installs below that root is that answer without the white space around
/// it, which is a semantic version.
pub proof fn lemma_install_follows_version_query(
    arguments: Seq<Seq<char>>,
    events: Seq<LaunchEventView>,
)
    requires
        stage_after(LaunchStage::Locating { arguments }, events) is Installing,
    ensures
        events.len() >= 2,
        events[0] is PackageRoot,
        events[1] is RemoteBody,
        events[0]->PackageRoot_root == Some(
            stage_after(LaunchStage::Locating { arguments }, events)->Installing_root,
        ),
        stage_after(LaunchStage::Locating { arguments }, events)->version == trimmed(
            events[1]->body,
        ),
        is_version(trimmed(events[1]->body)),
{
    lemma_early_stages(arguments, events);
}

/// Nothing is asked of the network, the disk or the runtime before the
/// environment is prepared: a launch that has left its first stage and has
/// not failed was told the package root first.
pub proof fn lemma_launch_begins_with_the_environment(
    arguments: Seq<Seq<char>>,
    events: Seq<LaunchEventView>,
)
    requires
        !(stage_after(LaunchStage::Locating { arguments }, events) is Locating),
        !(stage_after(LaunchStage::Locating { arguments }, events) is Failed),
    ensures
        events.len() > 0,
        events[0] is PackageRoot,
        events[0]->root is Some,
    decreases events.len(),
{
    if events.len() > 1 {
        let before = stage_after(LaunchStage::Locating { arguments }, events.drop_last());
        assert(events.drop_last()[0] == events[0]);
        if !(before is Locating) && !(before is Failed) {
            lemma_launch_begins_with_the_environment(arguments, events.drop_last());
        } else if before is Locating {
            lemma_early_stages(arguments, events.drop_last());
        }
    } else if events.len() == 1 {
        assert(events.drop_last().len() == 0);
        assert(events.last() == events[0]);
    }
}

/// An answer to the version query that is no semantic version ends the
/// launch, whatever the driver reports after it: nothing is installed, and
/// the text gets into no path and no URL.
pub proof fn lemma_bad_remote_version_ends_the_launch(
    arguments: Seq<Seq<char>>,
    events: Seq<LaunchEventView>,
    n: int,
)
    requires
        2 <= n <= events.len(),
        events[0] is PackageRoot,
        events[0]->root is Some,
        events[1] is RemoteBody,
        !is_version(trimmed(events[1]->body)),
    ensures
        stage_after(LaunchStage::Locating { arguments }, events.take(n)) == LaunchStage::Failed(
            LaunchFailure::RemoteVersion,
        ),
    decreases n,
{
    let start = LaunchStage::Locating { arguments };
    if n == 2 {
        lemma_stage_after_one_more(start, events, 0);
        lemma_stage_after_one_more(start, events, 1);
        assert(events.take(0) =~= Seq::empty());
        assert(stage_after(start, events.take(0)) == start);
    } else {
        lemma_bad_remote_version_ends_the_launch(arguments, events, n - 1);
        lemma_stage_after_one_more(start, events, n - 1);
    }
}

/// What a launch has been told by the time it is in one of its first three
/// stages.
proof fn lemma_early_stages(arguments: Seq<Seq<char>>, events: Seq<LaunchEventView>)
    ensures
        ({
            let stage = stage_after(LaunchStage::Locating { arguments }, events);
            &&& stage is Locating ==> events.len() == 0
            &&& stage is Querying ==> events.len() == 1 && events[0] == (
            LaunchEventView::PackageRoot { root: Some(stage->Querying_root) })
            &&& stage is Installing ==> events.len() >= 2 && events[0] == (
            LaunchEventView::PackageRoot { root: Some(stage->Installing_root) }) && events[1]
                is RemoteBody && stage->version == trimmed(events[1]->body) && is_version(
                stage->version,
            )
        }),
    decreases events.len(),
{
    if events.len() > 0 {
        lemma_early_stages(arguments, events.drop_last());
        if events.len() >= 2 {
            assert(events.drop_last()[0] == events[0]);
        }
        if events.len() >= 3 {
            assert(events.drop_last()[1] == events[1]);
        }
    }
}

/// Where a launch stands, with what it carries along.
enum Stage {
    Locating { arguments: Vec<String> },
    Querying { root: String, arguments: Vec<String> },
    Installing { installer: Installer, arguments: Vec<String> },
    Resolving { root: String, arguments: Vec<String> },
    Embedding { home: String, embedder: Embedder },
    Finished,
    Failed(LaunchFailure),
}

impl View for Stage {
    type V = LaunchStage;

    closed spec fn view(&self) -> LaunchStage {
        match *self {
            Stage::Locating { arguments } => LaunchStage::Locating {
                arguments: texts_of(arguments@),
            },
            Stage::Querying { root, arguments } => LaunchStage::Querying {
                root: root@,
                arguments: texts_of(arguments@),
            },
            Stage::Installing { installer, arguments } => LaunchStage::Installing {
                root: installer@.root,
                version: installer@.version,
                install: installer@.phase,
                arguments: texts_of(arguments@),
            },
            Stage::Resolving { root, arguments } => LaunchStage::Resolving {
                root: root@,
                arguments: texts_of(arguments@),
            },
            Stage::Embedding { home, embedder } => LaunchStage::Embedding {
                home: home@,
                call: embedder.call(),
                embed: embedder.current(),
            },
            Stage::Finished => LaunchStage::Finished,
            Stage::Failed(failure) => LaunchStage::Failed(failure),
        }
    }
}

/// A launch, as far as it has come.
pub struct Launcher {
    stage: Stage,
}

impl View for Launcher {
    type V = LaunchStage;

    closed spec fn view(&self) -> LaunchStage {
        self.stage@
    }
}

impl Launcher {
    /// A launch is never left in a stage that it cannot be in.
    #[verifier::type_invariant]
    spec fn fits(self) -> bool {
        stage_fits(self.stage@)
    }

    /// A launch that has done nothing yet. `arguments` are the arguments of
    /// the launcher behind the program name; they go to the entry point of
    /// the tool as they are.
    pub fn new(arguments: Vec<String>) -> (launcher: Launcher)
        ensures
            launcher@ == (LaunchStage::Locating { arguments: texts_of(arguments@) }),
    {
        assert(arguments@.len() == arguments.len());
        Launcher { stage: Stage::Locating { arguments } }
    }

    /// What the driver is to do now.
    pub fn action(&self) -> (action: LaunchAction)
        ensures
            action@ == action_at(self@),
    {
        match &self.stage {
            Stage::Locating { .. } => LaunchAction::PrepareEnvironment {
                clear: String::from_str("JAVA_TOOL_OPTIONS"),
                overriding: String::from_str("ARTHAS_LIB_DIR"),
            },
            Stage::Querying { .. } => LaunchAction::QueryVersion {
                url: String::from_str("https://arthas.aliyun.com/api/latest_version"),
            },
            Stage::Installing { installer, .. } => LaunchAction::Install(installer.action()),
            Stage::Resolving { root, .. } => LaunchAction::ListEntries { root: root.clone() },
            Stage::Embedding { home, embedder } => LaunchAction::Embed {
                home: home.clone(),
                action: embedder.action(),
            },
            Stage::Finished => LaunchAction::Finish,
            Stage::Failed(failure) => LaunchAction::Abort { failure: *failure },
        }
    }

    /// Takes in what the driver reports of the step it was asked for.
    pub fn advance(self, event: LaunchEvent) -> (launcher: Launcher)
        ensures
            launcher@ == next_stage(self@, event@),
    {
        proof {
            use_type_invariant(&self);
        }
        let stage = match self.stage {
            Stage::Finished => Stage::Finished,
            Stage::Failed(failure) => Stage::Failed(failure),
            Stage::Locating { arguments } => match event {
                LaunchEvent::PackageRoot { root: Some(root) } => Stage::Querying {
                    root,
                    arguments,
                },
                LaunchEvent::PackageRoot { root: None } => Stage::Failed(
                    LaunchFailure::NoPackageRoot,
                ),
                _ => Stage::Failed(LaunchFailure::UnexpectedEvent),
            },
            Stage::Querying { root, arguments } => match event {
                LaunchEvent::RemoteBody { body } => {
                    let version = get_remote_version(body.as_str());
                    let installer = Installer::new(root, version);
                    match installer.phase() {
                        InstallPhase::Failed(_) => Stage::Failed(LaunchFailure::RemoteVersion),
                        _ => Stage::Installing { installer, arguments },
                    }
                },
                LaunchEvent::StepFailed => Stage::Failed(LaunchFailure::RemoteQuery),
                _ => Stage::Failed(LaunchFailure::UnexpectedEvent),
            },
            Stage::Installing { installer, arguments } => match event {
                LaunchEvent::Install(event) => {
                    let installer = installer.advance(event);
                    match installer.phase() {
                        InstallPhase::Installed => Stage::Resolving {
                            root: String::from_str(installer.root()),
                            arguments,
                        },
                        InstallPhase::Failed(failure) => Stage::Failed(
                            LaunchFailure::Install(failure),
                        ),
                        _ => Stage::Installing { installer, arguments },
                    }
                },
                _ => Stage::Failed(LaunchFailure::UnexpectedEvent),
            },
            Stage::Resolving { root, arguments } => match event {
                LaunchEvent::Listing { entries } => match get_local_version(&entries) {
                    Ok(local) => Stage::Embedding {
                        home: target_path(root.as_str(), local.as_str()),
                        embedder: Embedder::new(
                            String::from_str("com/taobao/arthas/boot/Bootstrap"),
                            String::from_str("main"),
                            String::from_str("([Ljava/lang/String;)V"),
                            arguments,
                        ),
                    },
                    Err(error) => Stage::Failed(LaunchFailure::Resolve(error)),
                },
                LaunchEvent::RootMissing => Stage::Failed(
                    LaunchFailure::Resolve(ResolveError::NoVersions),
                ),
                LaunchEvent::StepFailed => Stage::Failed(LaunchFailure::Listing),
                _ => Stage::Failed(LaunchFailure::UnexpectedEvent),
            },
            Stage::Embedding { home, embedder } => match event {
                LaunchEvent::Embed(event) => {
                    let embedder = embedder.advance(event);
                    match embedder.phase() {
                        EmbedPhase::Invoked => Stage::Finished,
                        EmbedPhase::Failed(failure) => Stage::Failed(LaunchFailure::Embed(failure)),
                        _ => Stage::Embedding { home, embedder },
                    }
                },
                _ => Stage::Failed(LaunchFailure::UnexpectedEvent),
            },
        };
        Launcher { stage }
    }
}

} // verus!
