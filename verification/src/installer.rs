//! The install of one version: nothing where its target is in place, else
//! staging, download, extraction beside the target and one rename into
//! place. What is to be installed has to be a semantic version; nothing is
//! asked of the disk or the network for a text that is none.

use crate::descriptor::{package_url, package_url_of};
use crate::layout::{install_target_of, target_path, version_dir_of, version_path};
use crate::version::{is_semantic_version, is_version};
use vstd::prelude::*;

verus! {

/// What went wrong in an install. Any of them ends the launch.
#[derive(Clone, Copy, PartialEq, Eq, Structural, Debug)]
pub enum InstallFailure {
    /// What was to be installed is no semantic version.
    NotAVersion,
    /// The staging area could not be made.
    Staging,
    /// The archive could not be fetched.
    Network,
    /// The directory of the version could not be made.
    Filesystem,
    /// The archive could not be unpacked.
    Archive,
    /// What was unpacked could not be moved to the install target.
    Publish,
    /// The driver reported something that the step it was asked for cannot
    /// end in.
    UnexpectedEvent,
}

/// Where an install stands.
#[derive(Clone, Copy, PartialEq, Eq, Structural, Debug)]
pub enum InstallPhase {
    /// It is not known yet whether the install target exists.
    Probing,
    /// The target is missing; a staging area is to be made.
    Staging,
    /// The archive is to be fetched into the staging area.
    Fetching,
    /// The directory of the version is to be made.
    Preparing,
    /// The archive is to be unpacked into a directory beside the target.
    Extracting,
    /// What was unpacked is to be moved to the target.
    Publishing,
    /// The target is in place; the staging area is to be removed.
    Clearing,
    /// The install has failed; the staging area is to be removed.
    Abandoning(InstallFailure),
    /// The target is in place and nothing is left of the staging area.
    Installed,
    /// The install has failed for good.
    Failed(InstallFailure),
}

/// What the driver reports of the step it was asked for.
#[derive(Clone, Copy, PartialEq, Eq, Structural, Debug)]
pub enum InstallEvent {
    /// The install target exists.
    TargetPresent,
    /// The install target does not exist.
    TargetAbsent,
    /// The step was carried out.
    StepDone,
    /// The step failed.
    StepFailed,
}

/// What the driver is asked to do next.
#[derive(PartialEq, Eq, Debug)]
pub enum InstallAction {
    /// Find out whether the directory `target` exists.
    ProbeTarget { target: String },
    /// Make a fresh temporary directory, the staging area.
    CreateStaging,
    /// Fetch `url` into the file `file_name` of the staging area, following
    /// redirects as far as `redirect_decision` allows.
    Download { url: String, file_name: String },
    /// Make the directory `path` and its ancestors, where they are missing.
    CreateDirs { path: String },
    /// Unpack the file `file_name` of the staging area into a fresh
    /// directory beside `beside`, under a name that nothing else has,
    /// leaving out the archive's one top-level directory if `strip_toplevel`.
    Extract { file_name: String, beside: String, strip_toplevel: bool },
    /// Move the directory that the archive was unpacked into to `target`,
    /// in one rename.
    Publish { target: String },
    /// Remove the staging area with what it holds, and the directory that
    /// the archive was unpacked into if it was not moved.
    RemoveStaging,
    /// Nothing is left to do: the version is installed in `target`.
    Finish { target: String },
    /// Give the launch up.
    Abort { failure: InstallFailure },
}

/// An `InstallAction` as a mathematical value.
pub enum InstallActionView {
    ProbeTarget { target: Seq<char> },
    CreateStaging,
    Download { url: Seq<char>, file_name: Seq<char> },
    CreateDirs { path: Seq<char> },
    Extract { file_name: Seq<char>, beside: Seq<char>, strip_toplevel: bool },
    Publish { target: Seq<char> },
    RemoveStaging,
    Finish { target: Seq<char> },
    Abort { failure: InstallFailure },
}

impl View for InstallAction {
    type V = InstallActionView;

    open spec fn view(&self) -> InstallActionView {
        match *self {
            InstallAction::ProbeTarget { target } => InstallActionView::ProbeTarget {
                target: target@,
            },
            InstallAction::CreateStaging => InstallActionView::CreateStaging,
            InstallAction::Download { url, file_name } => InstallActionView::Download {
                url: url@,
                file_name: file_name@,
            },
            InstallAction::CreateDirs { path } => InstallActionView::CreateDirs { path: path@ },
            InstallAction::Extract { file_name, beside, strip_toplevel } => {
                InstallActionView::Extract {
                    file_name: file_name@,
                    beside: beside@,
                    strip_toplevel,
                }
            },
            InstallAction::Publish { target } => InstallActionView::Publish { target: target@ },
            InstallAction::RemoveStaging => InstallActionView::RemoveStaging,
            InstallAction::Finish { target } => InstallActionView::Finish { target: target@ },
            InstallAction::Abort { failure } => InstallActionView::Abort { failure },
        }
    }
}

/// The name of the archive inside the staging area.
pub open spec fn archive_name() -> Seq<char> {
    "arthas.zip"@
}

/// The phase that an install of `version` begins in: it looks for the
/// target if `version` is a semantic version, and has failed before it
/// began if it is none.
pub open spec fn first_phase(version: Seq<char>) -> InstallPhase {
    if is_version(version) {
        InstallPhase::Probing
    } else {
        InstallPhase::Failed(InstallFailure::NotAVersion)
    }
}

/// Where a step leads: to `done` if it was carried out, to `failed` if it
/// failed, and to `odd` if the report does not fit a step.
pub open spec fn step_to(
    event: InstallEvent,
    done: InstallPhase,
    failed: InstallPhase,
    odd: InstallPhase,
) -> InstallPhase {
    match event {
        InstallEvent::StepDone => done,
        InstallEvent::StepFailed => failed,
        _ => odd,
    }
}

/// The phase that follows `phase` when the driver reports `event`.
///
/// An install that has ended, well or badly, stays as it is. A failed step
/// ends the install with the failure that belongs to the step, and so does a
/// report that does not fit the step; but once there is a staging area, the
/// install does not end before it has asked for its removal. The removal
/// ends the install as it stood, however the removal itself went: a target
/// that is in place stays installed.
pub open spec fn next_phase(phase: InstallPhase, event: InstallEvent) -> InstallPhase {
    match phase {
        InstallPhase::Installed => phase,
        InstallPhase::Failed(_) => phase,
        InstallPhase::Probing => match event {
            InstallEvent::TargetPresent => InstallPhase::Installed,
            InstallEvent::TargetAbsent => InstallPhase::Staging,
            _ => InstallPhase::Failed(InstallFailure::UnexpectedEvent),
        },
        InstallPhase::Staging => step_to(
            event,
            InstallPhase::Fetching,
            InstallPhase::Failed(InstallFailure::Staging),
            InstallPhase::Failed(InstallFailure::UnexpectedEvent),
        ),
        InstallPhase::Fetching => step_to(
            event,
            InstallPhase::Preparing,
            InstallPhase::Abandoning(InstallFailure::Network),
            InstallPhase::Abandoning(InstallFailure::UnexpectedEvent),
        ),
        InstallPhase::Preparing => step_to(
            event,
            InstallPhase::Extracting,
            InstallPhase::Abandoning(InstallFailure::Filesystem),
            InstallPhase::Abandoning(InstallFailure::UnexpectedEvent),
        ),
        InstallPhase::Extracting => step_to(
            event,
            InstallPhase::Publishing,
            InstallPhase::Abandoning(InstallFailure::Archive),
            InstallPhase::Abandoning(InstallFailure::UnexpectedEvent),
        ),
        InstallPhase::Publishing => step_to(
            event,
            InstallPhase::Clearing,
            InstallPhase::Abandoning(InstallFailure::Publish),
            InstallPhase::Abandoning(InstallFailure::UnexpectedEvent),
        ),
        InstallPhase::Clearing => InstallPhase::Installed,
        InstallPhase::Abandoning(failure) => InstallPhase::Failed(failure),
    }
}

/// What an install of `version` below `root` asks of the driver in `phase`.
pub open spec fn action_in(phase: InstallPhase, root: Seq<char>, version: Seq<char>)
    -> InstallActionView {
    match phase {
        InstallPhase::Probing => InstallActionView::ProbeTarget {
            target: install_target_of(root, version),
        },
        InstallPhase::Staging => InstallActionView::CreateStaging,
        InstallPhase::Fetching => InstallActionView::Download {
            url: package_url_of(version),
            file_name: archive_name(),
        },
        InstallPhase::Preparing => InstallActionView::CreateDirs {
            path: version_dir_of(root, version),
        },
        InstallPhase::Extracting => InstallActionView::Extract {
            file_name: archive_name(),
            beside: install_target_of(root, version),
            strip_toplevel: true,
        },
        InstallPhase::Publishing => InstallActionView::Publish {
            target: install_target_of(root, version),
        },
        InstallPhase::Clearing => InstallActionView::RemoveStaging,
        InstallPhase::Abandoning(_) => InstallActionView::RemoveStaging,
        InstallPhase::Installed => InstallActionView::Finish {
            target: install_target_of(root, version),
        },
        InstallPhase::Failed(failure) => InstallActionView::Abort { failure },
    }
}

/// An install as a mathematical value: what is installed, where, and how
/// far the install has come.
pub struct InstallView {
    pub root: Seq<char>,
    pub version: Seq<char>,
    pub phase: InstallPhase,
}

/// The install of one version below one package root, as far as it has come.
pub struct Installer {
    pub(crate) root: String,
    pub(crate) version: String,
    pub(crate) phase: InstallPhase,
}

impl View for Installer {
    type V = InstallView;

    closed spec fn view(&self) -> InstallView {
        InstallView { root: self.root@, version: self.version@, phase: self.phase }
    }
}

impl Installer {
    /// An install that has not failed is that of a semantic version.
    #[verifier::type_invariant]
    pub(crate) closed spec fn fits(self) -> bool {
        self.phase is Failed || is_version(self.version@)
    }

    /// An install of `version` below `root` that has not looked at the disk
    /// yet. It has failed at once if `version` is no semantic version: such a
    /// text gets into no path and no URL.
    pub fn new(root: String, version: String) -> (installer: Installer)
        ensures
            installer@ == (InstallView {
                root: root@,
                version: version@,
                phase: first_phase(version@),
            }),
    {
        let phase = if is_semantic_version(version.as_str()) {
            InstallPhase::Probing
        } else {
            InstallPhase::Failed(InstallFailure::NotAVersion)
        };
        Installer { root, version, phase }
    }

    /// The phase that this install is in.
    pub fn phase(&self) -> (phase: InstallPhase)
        ensures
            phase == self@.phase,
            !(phase is Failed) ==> is_version(self@.version),
    {
        proof {
            use_type_invariant(self);
        }
        self.phase
    }

    /// The package root that this install works below.
    pub fn root(&self) -> (root: &str)
        ensures
            root@ == self@.root,
    {
        self.root.as_str()
    }

    /// What this install installs.
    pub fn version(&self) -> (version: &str)
        ensures
            version@ == self@.version,
    {
        self.version.as_str()
    }

    /// What the driver is to do now.
    pub fn action(&self) -> (action: InstallAction)
        ensures
            action@ == action_in(self@.phase, self@.root, self@.version),
    {
        proof {
            use_type_invariant(self);
        }
        match self.phase {
            InstallPhase::Probing => InstallAction::ProbeTarget {
                target: target_path(self.root.as_str(), self.version.as_str()),
            },
            InstallPhase::Staging => InstallAction::CreateStaging,
            InstallPhase::Fetching => InstallAction::Download {
                url: package_url(self.version.as_str()),
                file_name: String::from_str("arthas.zip"),
            },
            InstallPhase::Preparing => InstallAction::CreateDirs {
                path: version_path(self.root.as_str(), self.version.as_str()),
            },
            InstallPhase::Extracting => InstallAction::Extract {
                file_name: String::from_str("arthas.zip"),
                beside: target_path(self.root.as_str(), self.version.as_str()),
                strip_toplevel: true,
            },
            InstallPhase::Publishing => InstallAction::Publish {
                target: target_path(self.root.as_str(), self.version.as_str()),
            },
            InstallPhase::Clearing => InstallAction::RemoveStaging,
            InstallPhase::Abandoning(_) => InstallAction::RemoveStaging,
            InstallPhase::Installed => InstallAction::Finish {
                target: target_path(self.root.as_str(), self.version.as_str()),
            },
            InstallPhase::Failed(failure) => InstallAction::Abort { failure },
        }
    }

    /// Takes in what the driver reports of the step it was asked for.
    pub fn advance(self, event: InstallEvent) -> (installer: Installer)
        ensures
            installer@ == (InstallView { phase: next_phase(self@.phase, event), ..self@ }),
    {
        proof {
            use_type_invariant(&self);
        }
        let phase = match self.phase {
            InstallPhase::Installed => InstallPhase::Installed,
            InstallPhase::Failed(failure) => InstallPhase::Failed(failure),
            InstallPhase::Probing => match event {
                InstallEvent::TargetPresent => InstallPhase::Installed,
                InstallEvent::TargetAbsent => InstallPhase::Staging,
                _ => InstallPhase::Failed(InstallFailure::UnexpectedEvent),
            },
            InstallPhase::Staging => step(
                event,
                InstallPhase::Fetching,
                InstallPhase::Failed(InstallFailure::Staging),
                InstallPhase::Failed(InstallFailure::UnexpectedEvent),
            ),
            InstallPhase::Fetching => step(
                event,
                InstallPhase::Preparing,
                InstallPhase::Abandoning(InstallFailure::Network),
                InstallPhase::Abandoning(InstallFailure::UnexpectedEvent),
            ),
            InstallPhase::Preparing => step(
                event,
                InstallPhase::Extracting,
                InstallPhase::Abandoning(InstallFailure::Filesystem),
                InstallPhase::Abandoning(InstallFailure::UnexpectedEvent),
            ),
            InstallPhase::Extracting => step(
                event,
                InstallPhase::Publishing,
                InstallPhase::Abandoning(InstallFailure::Archive),
                InstallPhase::Abandoning(InstallFailure::UnexpectedEvent),
            ),
            InstallPhase::Publishing => step(
                event,
                InstallPhase::Clearing,
                InstallPhase::Abandoning(InstallFailure::Publish),
                InstallPhase::Abandoning(InstallFailure::UnexpectedEvent),
            ),
            InstallPhase::Clearing => InstallPhase::Installed,
            InstallPhase::Abandoning(failure) => InstallPhase::Failed(failure),
        };
        Installer { root: self.root, version: self.version, phase }
    }
}

/// Where a step leads, by what the driver reports of it.
fn step(
    event: InstallEvent,
    done: InstallPhase,
    failed: InstallPhase,
    odd: InstallPhase,
) -> (phase: InstallPhase)
    ensures
        phase == step_to(event, done, failed, odd),
{
    match event {
        InstallEvent::StepDone => done,
        InstallEvent::StepFailed => failed,
        _ => odd,
    }
}

/// One turn of the install: takes in what the driver reports of the last
/// step and says what it is to do next. The first action of an install is
/// that of `Installer::new`; after `Finish` or `Abort` nothing changes any
/// more.
pub fn update_if_necessary(installer: Installer, event: InstallEvent) -> (next: (
    Installer,
    InstallAction,
))
    ensures
        next.0@ == (InstallView { phase: next_phase(installer@.phase, event), ..installer@ }),
        next.1@ == action_in(next.0@.phase, installer@.root, installer@.version),
{
    let installer = installer.advance(event);
    let action = installer.action();
    (installer, action)
}

/// The phase that an install is in after the driver has reported `events`,
/// one after the other, starting in `start`.
pub open spec fn phase_after(start: InstallPhase, events: Seq<InstallEvent>) -> InstallPhase
    decreases events.len(),
{
    if events.len() == 0 {
        start
    } else {
        next_phase(phase_after(start, events.drop_last()), events.last())
    }
}

/// An install in this phase has ended, well or badly.
pub open spec fn has_ended(phase: InstallPhase) -> bool {
    phase is Installed || phase is Failed
}

/// There is a staging area while an install is in this phase.
pub open spec fn holds_staging(phase: InstallPhase) -> bool {
    phase is Fetching || phase is Preparing || phase is Extracting || phase is Publishing
        || phase is Clearing || phase is Abandoning
}

/// This action makes a path or a URL of what is installed.
pub open spec fn carries_version(action: InstallActionView) -> bool {
    !(action is CreateStaging || action is RemoveStaging || action is Abort)
}

/// Whatever the driver reports of an install that has ended, it stays as it
/// has ended: nothing is tried again, and nothing is undone.
pub proof fn lemma_ended_install_stays(phase: InstallPhase, events: Seq<InstallEvent>)
    requires
        has_ended(phase),
    ensures
        phase_after(phase, events) == phase,
    decreases events.len(),
{
    if events.len() > 0 {
        lemma_ended_install_stays(phase, events.drop_last());
    }
}

/// A text that is no semantic version is installed nowhere: whatever the
/// driver reports, the install of it asks for nothing but to give up, so
/// the text gets into no path and no URL, no request is sent and nothing is
/// made on disk.
pub proof fn lemma_what_is_no_version_is_not_installed(
    root: Seq<char>,
    version: Seq<char>,
    events: Seq<InstallEvent>,
)
    requires
        !is_version(version),
    ensures
        action_in(phase_after(first_phase(version), events), root, version) == (
        InstallActionView::Abort { failure: InstallFailure::NotAVersion }),
{
    lemma_ended_install_stays(first_phase(version), events);
}

/// Every path and every URL that an install asks the driver to use is made
/// of a semantic version.
pub proof fn lemma_actions_carry_versions_only(
    root: Seq<char>,
    version: Seq<char>,
    events: Seq<InstallEvent>,
)
    requires
        carries_version(action_in(phase_after(first_phase(version), events), root, version)),
    ensures
        is_version(version),
{
    if !is_version(version) {
        lemma_what_is_no_version_is_not_installed(root, version, events);
    }
}

/// Once there is a staging area, an install does not end before it has
/// asked for its removal, whether it ends well or badly; and the archive is
/// moved to the target only after it was unpacked in full.
pub proof fn lemma_staging_is_removed_before_the_end(phase: InstallPhase, event: InstallEvent)
    ensures
        holds_staging(next_phase(phase, event)) ==> holds_staging(phase) || (phase is Staging
            && event is StepDone),
        holds_staging(phase) && has_ended(next_phase(phase, event)) ==> action_in(
            phase,
            Seq::empty(),
            Seq::empty(),
        ) is RemoveStaging,
        holds_staging(phase) && !has_ended(next_phase(phase, event)) ==> holds_staging(
            next_phase(phase, event),
        ),
        next_phase(phase, event) is Publishing ==> phase is Extracting && event is StepDone,
        next_phase(phase, event) is Installed ==> phase is Installed || phase is Clearing || (
        phase is Probing && event is TargetPresent),
{
}

/// The phase after the first `n + 1` events is the phase after the first `n`
/// of them, followed by the next event.
proof fn lemma_phase_after_one_more(start: InstallPhase, events: Seq<InstallEvent>, n: int)
    requires
        0 <= n < events.len(),
    ensures
        phase_after(start, events.take(n + 1)) == next_phase(
            phase_after(start, events.take(n)),
            events[n],
        ),
{
    assert(events.take(n + 1).drop_last() =~= events.take(n));
}

/// Where the install target is found in place, the install is over at once
/// and the network is never touched: whatever the driver reports after that,
/// it is asked to probe the target at first and to finish from then on, and
/// never to download.
pub proof fn lemma_present_target_needs_no_network(
    root: Seq<char>,
    version: Seq<char>,
    events: Seq<InstallEvent>,
    n: int,
)
    requires
        0 <= n <= events.len(),
        events.len() > 0,
        events[0] == InstallEvent::TargetPresent,
    ensures
        n == 0 ==> phase_after(InstallPhase::Probing, events.take(n)) == InstallPhase::Probing,
        n > 0 ==> phase_after(InstallPhase::Probing, events.take(n)) == InstallPhase::Installed,
        !(action_in(phase_after(InstallPhase::Probing, events.take(n)), root, version) is Download),
    decreases n,
{
    if n > 0 {
        lemma_present_target_needs_no_network(root, version, events, n - 1);
        lemma_phase_after_one_more(InstallPhase::Probing, events, n - 1);
    }
}

/// A download is asked for only after the install target was found missing.
pub proof fn lemma_download_follows_absent_target(events: Seq<InstallEvent>)
    requires
        phase_after(InstallPhase::Probing, events) == InstallPhase::Fetching,
    ensures
        events.len() >= 2,
        events[0] == InstallEvent::TargetAbsent,
{
    lemma_fetching_comes_second(events);
}

/// What an install has been told by the time it is in one of its first
/// three phases, and that a first report other than of a missing target ends
/// it.
proof fn lemma_fetching_comes_second(events: Seq<InstallEvent>)
    ensures
        events.len() == 0 ==> phase_after(InstallPhase::Probing, events) == InstallPhase::Probing,
        events.len() == 1 ==> phase_after(InstallPhase::Probing, events) == next_phase(
            InstallPhase::Probing,
            events[0],
        ),
        events.len() >= 1 && events[0] != InstallEvent::TargetAbsent ==> has_ended(
            phase_after(InstallPhase::Probing, events),
        ),
        phase_after(InstallPhase::Probing, events) is Probing ==> events.len() == 0,
        phase_after(InstallPhase::Probing, events) is Staging ==> events.len() == 1,
        phase_after(InstallPhase::Probing, events) is Fetching ==> events.len() == 2,
    decreases events.len(),
{
    if events.len() > 0 {
        lemma_fetching_comes_second(events.drop_last());
        if events.len() == 1 {
            assert(events.last() == events[0]);
        } else {
            assert(events.drop_last()[0] == events[0]);
        }
    }
}

/// What installs leave behind, as far as a later install can tell: the
/// directories that exist, how often an archive was fetched, whether a
/// staging area is left, and whether an unpacked archive is left beside a
/// target.
#[verifier::ext_equal]
pub struct World {
    pub directories: Set<Seq<char>>,
    pub downloads: nat,
    pub staging: bool,
    pub unpacked: bool,
}

/// What becomes of `world` when a driver carries `action` out and nothing
/// fails, and what the driver then reports.
pub open spec fn carried_out(world: World, action: InstallActionView) -> (World, InstallEvent) {
    match action {
        InstallActionView::ProbeTarget { target } => (
            world,
            if world.directories.contains(target) {
                InstallEvent::TargetPresent
            } else {
                InstallEvent::TargetAbsent
            },
        ),
        InstallActionView::CreateStaging => (
            World { staging: true, ..world },
            InstallEvent::StepDone,
        ),
        InstallActionView::Download { .. } => (
            World { downloads: world.downloads + 1, ..world },
            InstallEvent::StepDone,
        ),
        InstallActionView::CreateDirs { path } => (
            World { directories: world.directories.insert(path), ..world },
            InstallEvent::StepDone,
        ),
        InstallActionView::Extract { .. } => (
            World { unpacked: true, ..world },
            InstallEvent::StepDone,
        ),
        InstallActionView::Publish { target } => (
            World { directories: world.directories.insert(target), unpacked: false, ..world },
            InstallEvent::StepDone,
        ),
        InstallActionView::RemoveStaging => (
            World { staging: false, unpacked: false, ..world },
            InstallEvent::StepDone,
        ),
        _ => (world, InstallEvent::StepDone),
    }
}

/// What becomes of `world` when an install of `version` below `root` that
/// is in `phase` is carried on for `steps` steps at most, or to its end.
pub open spec fn carried_on(
    phase: InstallPhase,
    world: World,
    root: Seq<char>,
    version: Seq<char>,
    steps: nat,
) -> World
    decreases steps,
{
    if steps == 0 || has_ended(phase) {
        world
    } else {
        let (next, event) = carried_out(world, action_in(phase, root, version));
        carried_on(next_phase(phase, event), next, root, version, (steps - 1) as nat)
    }
}

/// What becomes of `world` when `version` is installed below `root` and
/// nothing fails. An install has seven steps at most.
pub open spec fn after_install(world: World, root: Seq<char>, version: Seq<char>) -> World {
    carried_on(first_phase(version), world, root, version, 7)
}

/// An install of a semantic version where nothing fails leaves the install
/// target in place. It changes nothing if the target was there; if it was
/// missing, it fetches once, makes the directory of the version and the
/// target, and leaves neither a staging area nor an unpacked archive behind.
/// An install of what is no version changes nothing.
pub proof fn lemma_install_makes_the_target(world: World, root: Seq<char>, version: Seq<char>)
    ensures
        !is_version(version) ==> after_install(world, root, version) == world,
        is_version(version) ==> after_install(world, root, version).directories.contains(
            install_target_of(root, version),
        ),
        world.directories.contains(install_target_of(root, version)) ==> after_install(
            world,
            root,
            version,
        ) == world,
        is_version(version) && !world.directories.contains(install_target_of(root, version))
            ==> after_install(world, root, version) == (World {
            directories: world.directories.insert(version_dir_of(root, version)).insert(
                install_target_of(root, version),
            ),
            downloads: world.downloads + 1,
            staging: false,
            unpacked: false,
        }),
{
    reveal_with_fuel(carried_on, 8);
}

/// Installing is idempotent: a second install of the same version, behind a
/// first one in which nothing failed, finds the target in place, fetches
/// nothing and leaves everything as it is.
pub proof fn lemma_second_install_changes_nothing(world: World, root: Seq<char>, version: Seq<char>)
    ensures
        after_install(after_install(world, root, version), root, version) == after_install(
            world,
            root,
            version,
        ),
        after_install(after_install(world, root, version), root, version).downloads
            == after_install(world, root, version).downloads,
{
    lemma_install_makes_the_target(world, root, version);
    lemma_install_makes_the_target(after_install(world, root, version), root, version);
}

} // verus!
