//! Preflight of the source checkout.
use glaeda::artifact::{CommitId, GitTreeId, Sha256Digest};
use glaeda::file_evidence::{FileStat, OpenRefusal};
use glaeda::local_install_plan::{LocalInstallSourceIdentity, LocalInstallToolchainIdentity};
use glaeda::local_install_source_preflight::{
    lock_snapshot, map_directory_open, map_lock_open, materialization_id,
    observe_local_install_source_preflight, valid_checkout_path, validate_checkout_root,
    validate_lockfile, LocalInstallSourceBlockingCode, LocalInstallSourceProjectDisposition,
    LockReadings, LockSnapshot, LockSnapshotError, ProjectCheckoutObservation,
    ProjectCheckoutObservationErrorKind, SourceReadings,
};

const COMMIT: &str = "1111111111111111111111111111111111111111";
const TREE: &str = "2222222222222222222222222222222222222222";
const LOCK_BYTES: &[u8] = b"version = 4\n";

fn stat(mode: u32, size: i64) -> FileStat {
    FileStat {
        device: 3,
        inode: 4,
        owner: 501,
        group: 20,
        mode,
        links: 1,
        size,
        modified_seconds: 1,
        modified_nanoseconds: 0,
        changed_seconds: 1,
        changed_nanoseconds: 0,
    }
}

fn root() -> FileStat {
    stat(0o040755, 0)
}

fn snapshot(bytes: &[u8]) -> LockSnapshot {
    let lock = stat(0o100644, bytes.len() as i64);
    lock_snapshot(
        &LockReadings {
            root_before: root(),
            lock_before: lock,
            bytes,
            lock_after: lock,
            root_after: root(),
        },
        501,
        20,
    )
    .expect("lock snapshot")
}

fn expected(lock_bytes: &[u8]) -> LocalInstallSourceIdentity {
    LocalInstallSourceIdentity::new(
        CommitId::parse(COMMIT).expect("commit"),
        GitTreeId::parse(TREE).expect("tree"),
        Sha256Digest::of_bytes(lock_bytes),
        LocalInstallToolchainIdentity::parse("rust-1.97.1-aarch64-apple-darwin")
            .expect("toolchain"),
    )
    .expect("source")
}

fn checkout() -> ProjectCheckoutObservation {
    ProjectCheckoutObservation {
        materialization_id: materialization_id(&root()),
        source_ambiguous: false,
        primary_project: Some("github.com/teamleaderleo/smolrunner".to_owned()),
        commit: CommitId::parse(COMMIT).expect("commit"),
        tree: GitTreeId::parse(TREE).expect("tree"),
        tracked_changes_present: false,
        untracked_entry_count: 0,
    }
}

#[test]
fn exact_clean_detached_checkout_is_ready_and_path_private() {
    let receipt = observe_local_install_source_preflight(
        &expected(LOCK_BYTES),
        &SourceReadings::Read(snapshot(LOCK_BYTES), checkout(), snapshot(LOCK_BYTES)),
    );

    assert!(receipt.ready());
    assert!(receipt.observation_stable());
    assert!(receipt.commit_match());
    assert!(receipt.tree_match());
    assert!(receipt.lockfile_digest_match());
    assert!(receipt.checkout_clean());
    assert_eq!(
        receipt.observed_project(),
        LocalInstallSourceProjectDisposition::ExactSmolrunner
    );
    assert!(receipt.blocking_codes().is_empty());
    let public = format!("{receipt:?}");
    assert!(!public.contains("/private/path"));
    assert!(!public.contains("501"));
}

#[test]
fn stable_mismatches_are_distinct_without_private_git_evidence() {
    let mut observed = checkout();
    observed.source_ambiguous = true;
    observed.primary_project = Some("github.com/example/fork".to_owned());
    observed.commit = CommitId::parse(&"3".repeat(40)).expect("commit");
    observed.tree = GitTreeId::parse(&"4".repeat(40)).expect("tree");
    observed.untracked_entry_count = 1;
    let receipt = observe_local_install_source_preflight(
        &expected(b"different expected lock"),
        &SourceReadings::Read(snapshot(LOCK_BYTES), observed, snapshot(LOCK_BYTES)),
    );

    assert!(!receipt.ready());
    assert!(receipt.observation_stable());
    assert_eq!(
        receipt.observed_project(),
        LocalInstallSourceProjectDisposition::Ambiguous
    );
    assert_eq!(
        receipt.blocking_codes(),
        [
            LocalInstallSourceBlockingCode::WrongProject,
            LocalInstallSourceBlockingCode::CommitMismatch,
            LocalInstallSourceBlockingCode::TreeMismatch,
            LocalInstallSourceBlockingCode::LockfileMismatch,
            LocalInstallSourceBlockingCode::CheckoutDirty,
        ]
    );
    let public = format!("{receipt:?}");
    assert!(!public.contains("secret.txt"));
    assert!(!public.contains("example/fork"));
}

#[test]
fn lockfile_replacement_during_git_observation_is_source_changed() {
    let receipt = observe_local_install_source_preflight(
        &expected(LOCK_BYTES),
        &SourceReadings::Read(
            snapshot(LOCK_BYTES),
            checkout(),
            snapshot(b"replacement Cargo lock\n"),
        ),
    );

    assert!(!receipt.ready());
    assert!(!receipt.observation_stable());
    assert_eq!(
        receipt.blocking_codes(),
        [LocalInstallSourceBlockingCode::SourceChanged]
    );
}

#[test]
fn missing_or_symlinked_lockfile_is_unsafe_without_git_commands() {
    for refusal in [OpenRefusal::Missing, OpenRefusal::SymbolicLink] {
        let receipt = observe_local_install_source_preflight(
            &expected(LOCK_BYTES),
            &SourceReadings::LockRefused(map_lock_open(refusal)),
        );
        assert_eq!(
            receipt.blocking_codes(),
            [LocalInstallSourceBlockingCode::UnsafeSource]
        );
    }
}

#[test]
fn aliased_checkout_root_is_unsafe_without_git_commands() {
    let receipt = observe_local_install_source_preflight(
        &expected(LOCK_BYTES),
        &SourceReadings::LockRefused(map_directory_open(OpenRefusal::SymbolicLink)),
    );
    assert_eq!(
        receipt.blocking_codes(),
        [LocalInstallSourceBlockingCode::UnsafeSource]
    );
}

#[test]
fn refused_checkouts_name_their_root_cause() {
    for (kind, code) in [
        (
            ProjectCheckoutObservationErrorKind::SourceChanged,
            LocalInstallSourceBlockingCode::SourceChanged,
        ),
        (
            ProjectCheckoutObservationErrorKind::BareRepository,
            LocalInstallSourceBlockingCode::UnsafeSource,
        ),
        (
            ProjectCheckoutObservationErrorKind::Unavailable,
            LocalInstallSourceBlockingCode::UnknownSource,
        ),
    ] {
        let receipt = observe_local_install_source_preflight(
            &expected(LOCK_BYTES),
            &SourceReadings::CheckoutRefused(snapshot(LOCK_BYTES), kind),
        );
        assert_eq!(receipt.blocking_codes(), [code]);
    }
    let receipt = observe_local_install_source_preflight(
        &expected(LOCK_BYTES),
        &SourceReadings::LockRefusedAgain(
            snapshot(LOCK_BYTES),
            checkout(),
            LockSnapshotError::Unsafe,
        ),
    );
    assert_eq!(
        receipt.blocking_codes(),
        [LocalInstallSourceBlockingCode::SourceChanged]
    );
}

#[test]
fn lockfiles_and_roots_belong_to_the_caller() {
    assert!(validate_checkout_root(&root(), 501, 20).is_ok());
    assert_eq!(
        validate_checkout_root(&stat(0o040775, 0), 501, 20),
        Err(LockSnapshotError::Unsafe)
    );
    assert_eq!(
        validate_checkout_root(&root(), 0, 20),
        Err(LockSnapshotError::Unsafe)
    );
    assert!(validate_lockfile(&stat(0o100644, 10), 501, 20).is_ok());
    assert_eq!(
        validate_lockfile(&stat(0o120777, 10), 501, 20),
        Err(LockSnapshotError::Unsafe)
    );
    let lock = stat(0o100644, 3);
    let changed = lock_snapshot(
        &LockReadings {
            root_before: root(),
            lock_before: lock,
            bytes: b"abc",
            lock_after: stat(0o100644, 4),
            root_after: root(),
        },
        501,
        20,
    );
    assert!(matches!(changed, Err(LockSnapshotError::Changed)));
    assert_eq!(map_lock_open(OpenRefusal::Other), LockSnapshotError::Unknown);
    assert!(valid_checkout_path("/srv/checkout"));
    assert!(!valid_checkout_path("srv/checkout"));
}
