//! Launchers, observed and published over a home directory that is held in memory.
use std::cell::RefCell;

use glaeda::artifact::Sha256Digest;
use glaeda::file_evidence::{DirectoryReadings, FileStat, OpenRefusal, OpenedEntry};
use glaeda::local_install_generation_store::{
    store_error, LocalInstallGenerationStoreError, LocalInstallGenerationStoreErrorKind,
};
use glaeda::local_install_launcher::{
    begin_publication, candidates, decide_locked, io_error, observe_entry,
    observe_local_install_launchers, path_rank, publish_local_install_launcher, reject_protected,
    CandidateReadings, EntryReadings, EntryStat, LauncherAction, LauncherIoFailure, LauncherRun, LocalInstallLauncherAuthority, LocalInstallLauncherContext,
    LocalInstallLauncherError, LocalInstallLauncherErrorKind,
    LocalInstallLauncherObservationReceipt, LocalInstallLauncherPublishDisposition,
    LocalInstallLauncherPublishReceipt, LocalInstallLauncherTarget, StageReading, LAUNCHER_NAME,
    STAGED_LAUNCHER_NAME,
};
use glaeda::local_install_plan::{
    LauncherDirectoryDisposition, LauncherEntryDisposition, LauncherLocationClass,
    LauncherLocationObservation, LauncherSwitchPlan, LocalInstallGenerationIdentity,
    LocalInstallPlatform,
};

const OWNER: (u32, u32) = (501, 20);

const HOME: &str = "/srv/home";

fn stat(mode: u32, owner: u32) -> FileStat {
    FileStat {
        device: 1,
        inode: 5,
        owner,
        group: OWNER.1,
        mode,
        links: 1,
        size: 0,
        modified_seconds: 0,
        modified_nanoseconds: 0,
        changed_seconds: 0,
        changed_nanoseconds: 0,
    }
}

/// What stands at the launcher's name.
#[derive(Clone)]
enum Entry {
    Absent,
    File,
    Link(Vec<u8>),
}

/// A home directory with one approved launcher directory.
struct World {
    targets: RefCell<Vec<LocalInstallGenerationIdentity>>,
    store_refused: Option<LocalInstallGenerationStoreErrorKind>,
    entry: RefCell<Entry>,
    stage: StageReading,
    local: OpenedEntry,
    bin: OpenedEntry,
    held: bool,
    raced: bool,
}

fn identity(number: u64, marker: char) -> LocalInstallGenerationIdentity {
    LocalInstallGenerationIdentity {
        number,
        digest: Sha256Digest::parse(&format!("sha256:{}", marker.to_string().repeat(64)))
            .expect("digest"),
    }
}

fn path_of(identity: &LocalInstallGenerationIdentity) -> Vec<u8> {
    format!("/srv/data/generations/g{}/glaeda", identity.number).into_bytes()
}

impl World {
    fn new() -> Self {
        World {
            targets: RefCell::new(Vec::new()),
            store_refused: None,
            entry: RefCell::new(Entry::Absent),
            stage: StageReading::Absent,
            local: OpenedEntry::Opened(Some(stat(0o040700, OWNER.0))),
            bin: OpenedEntry::Opened(Some(stat(0o040700, OWNER.0))),
            held: false,
            raced: false,
        }
    }

    fn context(&self, path: &str) -> LocalInstallLauncherContext {
        LocalInstallLauncherContext::new(LocalInstallPlatform::Linux, HOME, path, OWNER)
            .expect("context")
    }

    fn targets(
        &self,
    ) -> Result<Vec<LocalInstallLauncherTarget>, LocalInstallGenerationStoreError> {
        if let Some(kind) = self.store_refused {
            return Err(store_error(kind, "refused"));
        }
        Ok(self
            .targets
            .borrow()
            .iter()
            .map(|identity| LocalInstallLauncherTarget {
                identity: identity.clone(),
                path: path_of(identity),
            })
            .collect())
    }

    fn read_entry(&self) -> EntryReadings {
        let (found, link) = match &*self.entry.borrow() {
            Entry::Absent => (EntryStat::Missing, None),
            Entry::File => (EntryStat::Found(stat(0o100755, OWNER.0)), None),
            Entry::Link(target) => (
                EntryStat::Found(stat(0o120777, OWNER.0)),
                Some(target.clone()),
            ),
        };
        EntryReadings {
            stat: found,
            link,
            resolved: Ok(()),
            stat_again: found,
        }
    }

    fn directory(&self, path: &str) -> DirectoryReadings {
        let opened = match path {
            "/srv/home/.local/bin" => vec![
                OpenedEntry::Opened(Some(stat(0o040755, 0))),
                OpenedEntry::Opened(Some(stat(0o040700, OWNER.0))),
                self.local,
                self.bin,
            ],
            "/srv/home/bin" => vec![
                OpenedEntry::Opened(Some(stat(0o040755, 0))),
                OpenedEntry::Opened(Some(stat(0o040700, OWNER.0))),
                OpenedEntry::Refused(OpenRefusal::Missing),
            ],
            _ => vec![
                OpenedEntry::Opened(Some(stat(0o040755, 0))),
                OpenedEntry::Opened(Some(stat(0o040755, 0))),
                OpenedEntry::Opened(Some(stat(0o040755, 0))),
            ],
        };
        let directory = match opened[opened.len() - 1] {
            OpenedEntry::Opened(found) => found,
            OpenedEntry::Refused(_) => None,
        };
        DirectoryReadings {
            root_opened: true,
            opened,
            directory,
        }
    }

    fn observe(
        &self,
        context: &LocalInstallLauncherContext,
    ) -> Result<LocalInstallLauncherObservationReceipt, LocalInstallLauncherError> {
        let readings = candidates(context)
            .iter()
            .map(|candidate| CandidateReadings {
                directory: self.directory(&candidate.path),
                entry: if candidate.class == LauncherLocationClass::HomeLocalBin {
                    self.read_entry()
                } else {
                    World::new().read_entry()
                },
            })
            .collect();
        observe_local_install_launchers(context, &self.targets(), &readings)
    }

    fn publish(
        &self,
        context: &LocalInstallLauncherContext,
        plan: &LauncherSwitchPlan,
    ) -> Result<LocalInstallLauncherPublishReceipt, LocalInstallLauncherError> {
        let before = self.read_entry();
        let locked = self.read_entry();
        let creatable = matches!(*self.entry.borrow(), Entry::Absent)
            && self.stage == StageReading::Absent
            && !self.held;
        if creatable && self.raced {
            *self.entry.borrow_mut() = Entry::File;
        }
        let target = self
            .targets
            .borrow()
            .iter()
            .find(|identity| **identity == plan.target_generation)
            .map(path_of);
        if let (true, false, Some(target)) = (creatable, self.raced, target) {
            *self.entry.borrow_mut() = Entry::Link(target);
        }
        publish_local_install_launcher(
            context,
            plan,
            &LauncherRun {
                targets: self.targets(),
                directory: self.directory("/srv/home/.local/bin"),
                before,
                lock_failure: if self.held {
                    Some(LauncherIoFailure::LockHeld)
                } else {
                    None
                },
                locked,
                stage: self.stage,
                create_failure: if self.raced {
                    Some(LauncherIoFailure::LauncherExists)
                } else {
                    None
                },
                synchronize_failed: false,
                published: self.read_entry(),
            },
        )
    }

    /// A publication that is interrupted once its launcher was created and
    /// synchronized: its receipt is lost.
    fn publish_until_synchronized(
        &self,
        context: &LocalInstallLauncherContext,
        plan: &LauncherSwitchPlan,
    ) -> Result<(), LocalInstallLauncherError> {
        let targets = self.targets().expect("targets");
        let publication = begin_publication(context, &targets, plan)?;
        let before = observe_entry(context, &targets, &self.read_entry())?;
        reject_protected(&before)?;
        let locked = observe_entry(context, &targets, &self.read_entry())?;
        match decide_locked(&before, &locked, self.stage, plan)? {
            LauncherAction::Create => {
                *self.entry.borrow_mut() = Entry::Link(targets[publication.target].path.clone());
            }
            LauncherAction::Replay => {}
        }
        Ok(())
    }
}

fn plan(identity: &LocalInstallGenerationIdentity) -> LauncherSwitchPlan {
    LauncherSwitchPlan {
        target_generation: identity.clone(),
        location: LauncherLocationClass::HomeLocalBin,
    }
}

fn home(receipt: &LocalInstallLauncherObservationReceipt) -> &LauncherLocationObservation {
    receipt
        .locations()
        .iter()
        .find(|value| value.location == LauncherLocationClass::HomeLocalBin)
        .expect("home-local-bin observation")
}

const LAUNCHER_PATH: &str = "/srv/home/.local/bin";

#[test]
fn first_exact_path_rank_wins_and_arbitrary_path_is_ignored() {
    let world = World::new();
    let context = world.context("/srv/arbitrary:/srv/home/.local/bin:/srv/home/.local/bin");
    let receipt = world.observe(&context).expect("observe");
    assert_eq!(home(&receipt).path_rank, Some(1));
    assert_eq!(home(&receipt).entry, LauncherEntryDisposition::Absent);
    assert_eq!(receipt.locations().len(), 3);
    assert_eq!(
        receipt.authority(),
        LocalInstallLauncherAuthority::ApprovedCurrentUserLauncherOnly
    );
}

#[test]
fn absent_publish_and_exact_replay_converge() {
    let world = World::new();
    let generation = identity(1, 'a');
    world.targets.borrow_mut().push(generation.clone());
    let context = world.context(LAUNCHER_PATH);
    assert_eq!(
        world
            .publish(&context, &plan(&generation))
            .expect("publish")
            .disposition(),
        LocalInstallLauncherPublishDisposition::Published
    );
    let replayed = world.publish(&context, &plan(&generation)).expect("replay");
    assert_eq!(
        replayed.disposition(),
        LocalInstallLauncherPublishDisposition::Replayed
    );
    assert_eq!(replayed.generation(), &generation);
    assert_eq!(replayed.location(), LauncherLocationClass::HomeLocalBin);
    assert_eq!(
        replayed.observation().entry,
        LauncherEntryDisposition::Owned {
            generation_digest: generation.digest,
        }
    );
}

#[test]
fn stale_owned_launcher_is_never_replaced_by_basename() {
    let world = World::new();
    let first = identity(1, 'a');
    world.targets.borrow_mut().push(first.clone());
    let context = world.context(LAUNCHER_PATH);
    world
        .publish(&context, &plan(&first))
        .expect("publish first launcher");
    let second = identity(2, 'b');
    world.targets.borrow_mut().push(second.clone());
    assert_eq!(
        world
            .publish(&context, &plan(&second))
            .expect_err("stale launcher blocked")
            .kind(),
        LocalInstallLauncherErrorKind::Conflict
    );
    assert!(matches!(
        &*world.entry.borrow(),
        Entry::Link(target) if *target == path_of(&first)
    ));
}

#[test]
fn foreign_entry_is_protected_before_publication() {
    let world = World::new();
    let generation = identity(1, 'a');
    world.targets.borrow_mut().push(generation.clone());
    *world.entry.borrow_mut() = Entry::File;
    let context = world.context(LAUNCHER_PATH);
    assert_eq!(
        world
            .publish(&context, &plan(&generation))
            .expect_err("foreign blocked")
            .kind(),
        LocalInstallLauncherErrorKind::ForeignEntry
    );
    assert!(matches!(*world.entry.borrow(), Entry::File));
}

#[test]
fn symlinked_approved_directory_is_unsafe() {
    let mut world = World::new();
    let generation = identity(1, 'a');
    world.targets.borrow_mut().push(generation.clone());
    world.bin = OpenedEntry::Refused(OpenRefusal::SymbolicLink);
    let context = world.context(LAUNCHER_PATH);
    let receipt = world.observe(&context).expect("observe");
    assert_eq!(
        home(&receipt).directory,
        LauncherDirectoryDisposition::Unsafe
    );
    assert_eq!(
        world
            .publish(&context, &plan(&generation))
            .expect_err("unsafe blocked")
            .kind(),
        LocalInstallLauncherErrorKind::UnsafeDirectory
    );
}

#[test]
fn writable_home_ancestor_is_unsafe() {
    let mut world = World::new();
    let generation = identity(1, 'a');
    world.targets.borrow_mut().push(generation.clone());
    world.local = OpenedEntry::Opened(Some(stat(0o040770, OWNER.0)));
    let context = world.context(LAUNCHER_PATH);
    let receipt = world.observe(&context).expect("observe");
    assert_eq!(
        home(&receipt).directory,
        LauncherDirectoryDisposition::Unsafe
    );
    assert_eq!(
        world
            .publish(&context, &plan(&generation))
            .expect_err("unsafe ancestor blocked")
            .kind(),
        LocalInstallLauncherErrorKind::UnsafeDirectory
    );
}

#[test]
fn unaccepted_generation_never_mutates_launcher() {
    let world = World::new();
    let generation = identity(1, 'a');
    let context = world.context(LAUNCHER_PATH);
    assert_eq!(
        world
            .publish(&context, &plan(&generation))
            .expect_err("missing generation")
            .kind(),
        LocalInstallLauncherErrorKind::MissingAcceptedGeneration
    );
    assert!(matches!(*world.entry.borrow(), Entry::Absent));
}

#[test]
fn competing_launcher_writer_fails_fast_without_staging() {
    let mut world = World::new();
    let generation = identity(1, 'a');
    world.targets.borrow_mut().push(generation.clone());
    world.held = true;
    let context = world.context(LAUNCHER_PATH);
    assert_eq!(
        world
            .publish(&context, &plan(&generation))
            .expect_err("competing writer blocked")
            .kind(),
        LocalInstallLauncherErrorKind::Busy
    );
    assert!(matches!(*world.entry.borrow(), Entry::Absent));
}

#[test]
fn receipt_crash_converges_by_exact_replay_without_a_stage() {
    let world = World::new();
    let generation = identity(1, 'a');
    world.targets.borrow_mut().push(generation.clone());
    let context = world.context(LAUNCHER_PATH);
    world
        .publish_until_synchronized(&context, &plan(&generation))
        .expect("interrupted after the launcher was synchronized");
    assert!(matches!(
        &*world.entry.borrow(),
        Entry::Link(target) if *target == path_of(&generation)
    ));
    assert_eq!(
        world
            .publish(&context, &plan(&generation))
            .expect("replay after lost receipt")
            .disposition(),
        LocalInstallLauncherPublishDisposition::Replayed
    );
    assert_eq!(world.stage, StageReading::Absent);
    assert!(matches!(
        &*world.entry.borrow(),
        Entry::Link(target) if *target == path_of(&generation)
    ));
}

#[test]
fn final_create_race_never_replaces_foreign_launcher() {
    let mut world = World::new();
    let generation = identity(1, 'a');
    world.targets.borrow_mut().push(generation.clone());
    world.raced = true;
    let context = world.context(LAUNCHER_PATH);
    assert_eq!(
        world
            .publish(&context, &plan(&generation))
            .expect_err("foreign final-race winner blocked")
            .kind(),
        LocalInstallLauncherErrorKind::Conflict
    );
    assert!(matches!(*world.entry.borrow(), Entry::File));
}

#[test]
fn foreign_stage_is_not_deleted_by_basename() {
    for stage in [StageReading::Present, StageReading::Unreadable] {
        let mut world = World::new();
        let generation = identity(1, 'a');
        world.targets.borrow_mut().push(generation.clone());
        world.stage = stage;
        let context = world.context(LAUNCHER_PATH);
        assert_eq!(
            world
                .publish(&context, &plan(&generation))
                .expect_err("foreign stage blocked")
                .kind(),
            LocalInstallLauncherErrorKind::RecoveryRequired
        );
        assert!(matches!(*world.entry.borrow(), Entry::Absent));
    }
    assert_eq!(LAUNCHER_NAME, "glaeda");
    assert!(STAGED_LAUNCHER_NAME != LAUNCHER_NAME);
}

#[test]
fn apparently_owned_stage_is_retained_for_explicit_recovery() {
    let mut world = World::new();
    let generation = identity(1, 'a');
    world.targets.borrow_mut().push(generation.clone());
    let context = world.context(LAUNCHER_PATH);
    world
        .publish(&context, &plan(&generation))
        .expect("owned launcher");
    world.stage = StageReading::Present;
    assert_eq!(
        world
            .publish(&context, &plan(&generation))
            .expect_err("stage requires recovery")
            .kind(),
        LocalInstallLauncherErrorKind::RecoveryRequired
    );
    assert!(matches!(world.stage, StageReading::Present));
}

#[test]
fn store_ancestor_rebind_cannot_publish_lexical_target() {
    let mut world = World::new();
    let generation = identity(1, 'a');
    world.targets.borrow_mut().push(generation.clone());
    let context = world.context(LAUNCHER_PATH);
    world
        .publish(&context, &plan(&generation))
        .expect("publish before rebind");
    world.store_refused = Some(LocalInstallGenerationStoreErrorKind::UnsafeFilesystem);
    assert_eq!(
        world
            .observe(&context)
            .expect_err("rebound launcher is never reported owned")
            .kind(),
        LocalInstallLauncherErrorKind::GenerationStoreUnavailable
    );
    assert_eq!(
        world
            .publish(&context, &plan(&generation))
            .expect_err("rebound absolute target blocked")
            .kind(),
        LocalInstallLauncherErrorKind::GenerationStoreUnavailable
    );
}

#[test]
fn public_output_and_debug_never_contain_private_paths() {
    let world = World::new();
    let generation = identity(1, 'a');
    world.targets.borrow_mut().push(generation.clone());
    let context = world.context(LAUNCHER_PATH);
    let publish = world.publish(&context, &plan(&generation)).expect("publish");
    let observe = world.observe(&context).expect("observe");
    for value in [
        format!("{publish:?}"),
        format!("{observe:?}"),
        context.redacted().to_owned(),
    ] {
        assert!(!value.contains("/srv"));
        assert!(!value.contains("candidate-a"));
    }
}

#[test]
fn store_refusals_keep_their_meaning() {
    for (kind, expected) in [
        (
            LocalInstallGenerationStoreErrorKind::Busy,
            LocalInstallLauncherErrorKind::Busy,
        ),
        (
            LocalInstallGenerationStoreErrorKind::Conflict,
            LocalInstallLauncherErrorKind::Conflict,
        ),
        (
            LocalInstallGenerationStoreErrorKind::RecoveryRequired,
            LocalInstallLauncherErrorKind::RecoveryRequired,
        ),
        (
            LocalInstallGenerationStoreErrorKind::Io,
            LocalInstallLauncherErrorKind::GenerationStoreUnavailable,
        ),
    ] {
        let mut world = World::new();
        world.store_refused = Some(kind);
        assert_eq!(
            world
                .observe(&world.context(LAUNCHER_PATH))
                .expect_err("refused store")
                .kind(),
            expected
        );
    }
}

#[test]
fn locations_outside_path_and_elevated_ones_are_not_published_into() {
    let world = World::new();
    let generation = identity(1, 'a');
    world.targets.borrow_mut().push(generation.clone());
    assert_eq!(
        world
            .publish(&world.context("/usr/bin"), &plan(&generation))
            .expect_err("not in PATH")
            .kind(),
        LocalInstallLauncherErrorKind::LocationNotInPath
    );
    let homebrew = LauncherSwitchPlan {
        target_generation: generation.clone(),
        location: LauncherLocationClass::HomebrewBin,
    };
    assert_eq!(
        world
            .publish(&world.context(LAUNCHER_PATH), &homebrew)
            .expect_err("not on this platform")
            .kind(),
        LocalInstallLauncherErrorKind::InvalidContext
    );
    let receipt = world
        .observe(&world.context("/usr/local/bin:/srv/home/bin"))
        .expect("observe");
    assert_eq!(
        receipt.locations()[2].directory,
        LauncherDirectoryDisposition::NeedsElevation
    );
    assert_eq!(
        receipt.locations()[1].directory,
        LauncherDirectoryDisposition::Unavailable
    );
    let mut gone = World::new();
    gone.targets.borrow_mut().push(generation.clone());
    gone.bin = OpenedEntry::Refused(OpenRefusal::Missing);
    assert_eq!(
        gone.publish(&gone.context(LAUNCHER_PATH), &plan(&generation))
            .expect_err("missing directory")
            .kind(),
        LocalInstallLauncherErrorKind::LocationUnavailable
    );
    let mut unreadable = World::new();
    unreadable.targets.borrow_mut().push(generation.clone());
    unreadable.bin = OpenedEntry::Refused(OpenRefusal::Other);
    assert_eq!(
        unreadable
            .publish(&unreadable.context(LAUNCHER_PATH), &plan(&generation))
            .expect_err("unreadable directory")
            .kind(),
        LocalInstallLauncherErrorKind::Io
    );
}

#[test]
fn ranks_are_bounded_and_homes_are_canonical() {
    let long = format!("{}/srv/home/bin", "/x:".repeat(65_536));
    assert_eq!(
        path_rank(&long, "/srv/home/bin")
            .expect_err("far rank")
            .kind(),
        LocalInstallLauncherErrorKind::InvalidContext
    );
    assert_eq!(
        path_rank("/a:/srv/home/bin/", "/srv/home/bin").expect("trailing slash"),
        Some(1)
    );
    assert_eq!(path_rank("/a::b", "/srv/home/bin").expect("absent"), None);
    assert_eq!(
        LocalInstallLauncherContext::new(LocalInstallPlatform::Linux, "/srv/../home", "", OWNER)
            .err()
            .expect("noncanonical home")
            .kind(),
        LocalInstallLauncherErrorKind::InvalidContext
    );
    assert_eq!(
        io_error(LauncherIoFailure::UnsupportedPlatform).kind(),
        LocalInstallLauncherErrorKind::UnsupportedPlatform
    );
    assert_eq!(
        reject_protected(&LauncherEntryDisposition::Unknown)
            .expect_err("unknown entry")
            .kind(),
        LocalInstallLauncherErrorKind::UnknownEntry
    );
}
