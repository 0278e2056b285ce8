use arthas_launcher::installer::{
    update_if_necessary, InstallAction, InstallEvent, InstallFailure, InstallPhase, Installer,
};
use std::collections::BTreeSet;

fn installer(root: &str, version: &str) -> Installer {
    Installer::new(root.to_string(), version.to_string())
}

/// An install of 3.7.2 below /lib after `done` steps that were carried out
/// behind the report that the target is missing.
fn after_steps(done: usize) -> Installer {
    let mut state = installer("/lib", "3.7.2").advance(InstallEvent::TargetAbsent);
    for _ in 0..done {
        state = state.advance(InstallEvent::StepDone);
    }
    state
}

/// A disk and a network that only remember what was done to them.
struct World {
    directories: BTreeSet<String>,
    downloads: Vec<String>,
    staged: bool,
    unpacked: bool,
    fail_on: Option<InstallPhase>,
    asked: Vec<&'static str>,
}

impl World {
    fn new() -> World {
        World {
            directories: BTreeSet::new(),
            downloads: Vec::new(),
            staged: false,
            unpacked: false,
            fail_on: None,
            asked: Vec::new(),
        }
    }

    fn perform(&mut self, phase: InstallPhase, action: &InstallAction) -> InstallEvent {
        if self.fail_on == Some(phase) {
            self.asked.push("failed");
            return InstallEvent::StepFailed;
        }
        match action {
            InstallAction::ProbeTarget { target } => {
                self.asked.push("probe");
                if self.directories.contains(target) {
                    InstallEvent::TargetPresent
                } else {
                    InstallEvent::TargetAbsent
                }
            }
            InstallAction::CreateStaging => {
                self.asked.push("stage");
                self.staged = true;
                InstallEvent::StepDone
            }
            InstallAction::Download { url, .. } => {
                self.asked.push("download");
                assert!(self.staged);
                self.downloads.push(url.clone());
                InstallEvent::StepDone
            }
            InstallAction::CreateDirs { path } => {
                self.asked.push("directories");
                self.directories.insert(path.clone());
                InstallEvent::StepDone
            }
            InstallAction::Extract { beside, .. } => {
                self.asked.push("extract");
                assert!(self.staged && !self.downloads.is_empty());
                assert!(!self.directories.contains(beside));
                self.unpacked = true;
                InstallEvent::StepDone
            }
            InstallAction::Publish { target } => {
                self.asked.push("publish");
                assert!(self.unpacked);
                self.unpacked = false;
                self.directories.insert(target.clone());
                InstallEvent::StepDone
            }
            InstallAction::RemoveStaging => {
                self.asked.push("remove");
                self.staged = false;
                self.unpacked = false;
                InstallEvent::StepDone
            }
            InstallAction::Finish { .. } | InstallAction::Abort { .. } => {
                panic!("an install that has ended asks for nothing")
            }
        }
    }

    /// Runs one install to its end and returns the last action.
    fn ensure_installed(&mut self, root: &str, version: &str) -> InstallAction {
        let mut state = installer(root, version);
        let mut action = state.action();
        loop {
            match action {
                InstallAction::Finish { .. } | InstallAction::Abort { .. } => return action,
                _ => {
                    let event = self.perform(state.phase(), &action);
                    let next = update_if_necessary(state, event);
                    state = next.0;
                    action = next.1;
                }
            }
        }
    }
}

#[test]
fn an_install_begins_with_a_look_at_the_target() {
    let state = installer("/lib", "3.7.2");
    assert_eq!(state.phase(), InstallPhase::Probing);
    assert_eq!(state.root(), "/lib");
    assert_eq!(state.version(), "3.7.2");
    assert_eq!(
        state.action(),
        InstallAction::ProbeTarget { target: "/lib/3.7.2/arthas".to_string() }
    );
}

#[test]
fn what_is_no_version_is_not_installed() {
    for bad in ["", "latest", "../x", "/etc", "3.7", "3.7.2/../..", " 3.7.2", "3.7.2\n"] {
        let state = installer("/lib", bad);
        assert_eq!(state.phase(), InstallPhase::Failed(InstallFailure::NotAVersion), "{bad:?}");
        assert_eq!(
            state.action(),
            InstallAction::Abort { failure: InstallFailure::NotAVersion }
        );
        let (state, action) = update_if_necessary(state, InstallEvent::TargetAbsent);
        assert_eq!(state.phase(), InstallPhase::Failed(InstallFailure::NotAVersion));
        assert_eq!(action, InstallAction::Abort { failure: InstallFailure::NotAVersion });
        let (_, action) = update_if_necessary(state, InstallEvent::StepDone);
        assert_eq!(action, InstallAction::Abort { failure: InstallFailure::NotAVersion });
    }
}

#[test]
fn what_is_no_version_touches_neither_disk_nor_network() {
    for bad in ["../x", "/etc", ""] {
        let mut world = World::new();
        let last = world.ensure_installed("/lib", bad);
        assert_eq!(last, InstallAction::Abort { failure: InstallFailure::NotAVersion });
        assert!(world.asked.is_empty());
        assert!(world.directories.is_empty());
        assert!(world.downloads.is_empty());
    }
}

#[test]
fn a_present_target_ends_the_install_at_once() {
    let (state, action) =
        update_if_necessary(installer("/lib", "3.7.2"), InstallEvent::TargetPresent);
    assert_eq!(state.phase(), InstallPhase::Installed);
    assert_eq!(action, InstallAction::Finish { target: "/lib/3.7.2/arthas".to_string() });
}

#[test]
fn a_missing_target_is_installed_step_by_step() {
    let (state, action) =
        update_if_necessary(installer("/lib", "3.7.2"), InstallEvent::TargetAbsent);
    assert_eq!(state.phase(), InstallPhase::Staging);
    assert_eq!(action, InstallAction::CreateStaging);

    let (state, action) = update_if_necessary(state, InstallEvent::StepDone);
    assert_eq!(state.phase(), InstallPhase::Fetching);
    assert_eq!(
        action,
        InstallAction::Download {
            url: "https://arthas.aliyun.com/download/3.7.2?mirror=aliyun".to_string(),
            file_name: "arthas.zip".to_string(),
        }
    );

    let (state, action) = update_if_necessary(state, InstallEvent::StepDone);
    assert_eq!(state.phase(), InstallPhase::Preparing);
    assert_eq!(action, InstallAction::CreateDirs { path: "/lib/3.7.2".to_string() });

    let (state, action) = update_if_necessary(state, InstallEvent::StepDone);
    assert_eq!(state.phase(), InstallPhase::Extracting);
    assert_eq!(
        action,
        InstallAction::Extract {
            file_name: "arthas.zip".to_string(),
            beside: "/lib/3.7.2/arthas".to_string(),
            strip_toplevel: true,
        }
    );

    let (state, action) = update_if_necessary(state, InstallEvent::StepDone);
    assert_eq!(state.phase(), InstallPhase::Publishing);
    assert_eq!(action, InstallAction::Publish { target: "/lib/3.7.2/arthas".to_string() });

    let (state, action) = update_if_necessary(state, InstallEvent::StepDone);
    assert_eq!(state.phase(), InstallPhase::Clearing);
    assert_eq!(action, InstallAction::RemoveStaging);

    let (state, action) = update_if_necessary(state, InstallEvent::StepDone);
    assert_eq!(state.phase(), InstallPhase::Installed);
    assert_eq!(action, InstallAction::Finish { target: "/lib/3.7.2/arthas".to_string() });
    assert_eq!(state.root(), "/lib");
    assert_eq!(state.version(), "3.7.2");
}

#[test]
fn a_failed_staging_ends_the_install_at_once() {
    let (state, action) = update_if_necessary(after_steps(0), InstallEvent::StepFailed);
    assert_eq!(state.phase(), InstallPhase::Failed(InstallFailure::Staging));
    assert_eq!(action, InstallAction::Abort { failure: InstallFailure::Staging });
}

#[test]
fn each_install_step_fails_with_its_own_failure() {
    let cases = [
        (1, InstallPhase::Fetching, InstallFailure::Network),
        (2, InstallPhase::Preparing, InstallFailure::Filesystem),
        (3, InstallPhase::Extracting, InstallFailure::Archive),
        (4, InstallPhase::Publishing, InstallFailure::Publish),
    ];
    for (done, phase, failure) in cases {
        let state = after_steps(done);
        assert_eq!(state.phase(), phase);
        let (state, action) = update_if_necessary(state, InstallEvent::StepFailed);
        assert_eq!(state.phase(), InstallPhase::Abandoning(failure));
        assert_eq!(action, InstallAction::RemoveStaging);
        for report in [InstallEvent::StepDone, InstallEvent::StepFailed] {
            let abandoned = after_steps(done).advance(InstallEvent::StepFailed);
            let (state, action) = update_if_necessary(abandoned, report);
            assert_eq!(state.phase(), InstallPhase::Failed(failure));
            assert_eq!(action, InstallAction::Abort { failure });
        }
        drop(state);
    }
}

#[test]
fn a_failed_removal_does_not_undo_the_install() {
    let state = after_steps(5);
    assert_eq!(state.phase(), InstallPhase::Clearing);
    let (state, action) = update_if_necessary(state, InstallEvent::StepFailed);
    assert_eq!(state.phase(), InstallPhase::Installed);
    assert_eq!(action, InstallAction::Finish { target: "/lib/3.7.2/arthas".to_string() });
}

#[test]
fn a_report_that_does_not_fit_the_step_ends_the_install() {
    let unexpected = InstallFailure::UnexpectedEvent;
    for event in [InstallEvent::StepDone, InstallEvent::StepFailed] {
        assert_eq!(
            installer("/lib", "3.7.2").advance(event).phase(),
            InstallPhase::Failed(unexpected)
        );
    }
    for event in [InstallEvent::TargetPresent, InstallEvent::TargetAbsent] {
        assert_eq!(after_steps(0).advance(event).phase(), InstallPhase::Failed(unexpected));
        for done in 1..=4 {
            assert_eq!(
                after_steps(done).advance(event).phase(),
                InstallPhase::Abandoning(unexpected)
            );
        }
    }
}

#[test]
fn an_install_that_has_ended_stays_as_it_is() {
    let events = [
        InstallEvent::TargetPresent,
        InstallEvent::TargetAbsent,
        InstallEvent::StepDone,
        InstallEvent::StepFailed,
    ];
    for event in events {
        let installed = after_steps(6);
        assert_eq!(installed.phase(), InstallPhase::Installed);
        assert_eq!(installed.advance(event).phase(), InstallPhase::Installed);

        let failed =
            after_steps(1).advance(InstallEvent::StepFailed).advance(InstallEvent::StepDone);
        assert_eq!(failed.phase(), InstallPhase::Failed(InstallFailure::Network));
        assert_eq!(failed.advance(event).phase(), InstallPhase::Failed(InstallFailure::Network));

        let refused = installer("/lib", "latest");
        assert_eq!(
            refused.advance(event).phase(),
            InstallPhase::Failed(InstallFailure::NotAVersion)
        );
    }
}

#[test]
fn a_fresh_install_downloads_once_and_makes_the_target() {
    let mut world = World::new();
    let last = world.ensure_installed("/lib", "3.7.2");
    assert_eq!(last, InstallAction::Finish { target: "/lib/3.7.2/arthas".to_string() });
    assert_eq!(
        world.downloads,
        vec!["https://arthas.aliyun.com/download/3.7.2?mirror=aliyun".to_string()]
    );
    assert!(world.directories.contains("/lib/3.7.2/arthas"));
    assert!(world.directories.contains("/lib/3.7.2"));
    assert_eq!(
        world.asked,
        vec!["probe", "stage", "download", "directories", "extract", "publish", "remove"]
    );
}

#[test]
fn a_finished_install_leaves_no_staging_area() {
    let mut world = World::new();
    world.ensure_installed("/lib", "3.7.2");
    assert!(!world.staged);
    assert!(!world.unpacked);
}

#[test]
fn a_second_install_of_the_same_version_touches_no_network() {
    let mut world = World::new();
    world.ensure_installed("/lib", "3.7.2");
    assert_eq!(world.downloads.len(), 1);
    let last = world.ensure_installed("/lib", "3.7.2");
    assert_eq!(last, InstallAction::Finish { target: "/lib/3.7.2/arthas".to_string() });
    assert_eq!(world.downloads.len(), 1);
}

#[test]
fn another_version_is_fetched_beside_the_first() {
    let mut world = World::new();
    world.ensure_installed("/lib", "3.7.2");
    world.ensure_installed("/lib", "4.0.0");
    assert_eq!(
        world.downloads,
        vec![
            "https://arthas.aliyun.com/download/3.7.2?mirror=aliyun".to_string(),
            "https://arthas.aliyun.com/download/4.0.0?mirror=aliyun".to_string(),
        ]
    );
    assert!(world.directories.contains("/lib/3.7.2/arthas"));
    assert!(world.directories.contains("/lib/4.0.0/arthas"));
}

#[test]
fn a_failed_download_leaves_neither_target_nor_staging_area() {
    let mut world = World::new();
    world.fail_on = Some(InstallPhase::Fetching);
    let last = world.ensure_installed("/lib", "3.7.2");
    assert_eq!(last, InstallAction::Abort { failure: InstallFailure::Network });
    assert!(world.directories.is_empty());
    assert!(world.downloads.is_empty());
    assert!(!world.staged);
    assert_eq!(world.asked, vec!["probe", "stage", "failed", "remove"]);
}

#[test]
fn a_failed_extraction_leaves_no_target() {
    let mut world = World::new();
    world.fail_on = Some(InstallPhase::Extracting);
    let last = world.ensure_installed("/lib", "3.7.2");
    assert_eq!(last, InstallAction::Abort { failure: InstallFailure::Archive });
    assert!(world.directories.contains("/lib/3.7.2"));
    assert!(!world.directories.contains("/lib/3.7.2/arthas"));
    assert!(!world.staged);
    assert!(!world.unpacked);
}

#[test]
fn an_install_behind_a_failed_one_starts_afresh() {
    let mut world = World::new();
    world.fail_on = Some(InstallPhase::Publishing);
    let last = world.ensure_installed("/lib", "3.7.2");
    assert_eq!(last, InstallAction::Abort { failure: InstallFailure::Publish });
    assert!(!world.directories.contains("/lib/3.7.2/arthas"));
    world.fail_on = None;
    let last = world.ensure_installed("/lib", "3.7.2");
    assert_eq!(last, InstallAction::Finish { target: "/lib/3.7.2/arthas".to_string() });
    assert_eq!(world.downloads.len(), 2);
}
