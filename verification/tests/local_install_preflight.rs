//! Composition of the self-build preflights.
use glaeda::artifact::{CommitId, GitTreeId, Sha256Digest};
use glaeda::file_evidence::FileStat;
use glaeda::local_install_build_command::{
    LocalInstallBuildCommandPolicy, LocalInstallDirectoryBlockingCode,
    LocalInstallDirectoryPreflightReceipt, LocalInstallDirectoryRepairCode,
    LocalInstallToolchainPreflightReceipt,
};
use glaeda::local_install_cargo_config_preflight::{
    LocalInstallBuildRootDisposition, LocalInstallCargoConfigBlockingCode,
    LocalInstallCargoConfigDisposition, LocalInstallCargoConfigPreflightReceipt,
    LocalInstallCargoConfigRepairCode, LocalInstallCargoHomeConfigDisposition,
};
use glaeda::local_install_plan::{
    LocalInstallBuildPlan, LocalInstallSourceIdentity, LocalInstallToolchainIdentity,
};
use glaeda::local_install_preflight::{
    compose_local_install_preflight, LocalInstallPreflightBlockingCode,
    LocalInstallPreflightDisposition, LocalInstallPreflightReceipt,
    LocalInstallPreflightRepairCode,
};
use glaeda::local_install_source_preflight::{
    lock_snapshot, materialization_id, observe_local_install_source_preflight,
    LocalInstallSourcePreflightReceipt, LockReadings, LockSnapshotError,
    ProjectCheckoutObservation, SourceReadings,
};

const COMMIT: &str = "1111111111111111111111111111111111111111";
const TREE: &str = "2222222222222222222222222222222222222222";
const LOCK_BYTES: &[u8] = b"version = 4\n";

fn toolchain_identity() -> LocalInstallToolchainIdentity {
    LocalInstallToolchainIdentity::parse("rust-1.97.1-aarch64-apple-darwin").expect("toolchain")
}

fn plan() -> LocalInstallBuildPlan {
    LocalInstallBuildPlan {
        target_generation: 1,
        expected_predecessor: None,
        source: LocalInstallSourceIdentity::new(
            CommitId::parse(COMMIT).expect("commit"),
            GitTreeId::parse(TREE).expect("tree"),
            Sha256Digest::of_bytes(LOCK_BYTES),
            toolchain_identity(),
        )
        .expect("source"),
    }
}

fn stat(mode: u32, size: i64) -> FileStat {
    FileStat {
        device: 3,
        inode: 4,
        owner: 501,
        group: 20,
        mode,
        links: 1,
        size,
        modified_seconds: 1,
        modified_nanoseconds: 0,
        changed_seconds: 1,
        changed_nanoseconds: 0,
    }
}

fn source() -> LocalInstallSourcePreflightReceipt {
    let root = stat(0o040755, 0);
    let file = stat(0o100644, LOCK_BYTES.len() as i64);
    let snapshot = || {
        lock_snapshot(
            &LockReadings {
                root_before: root,
                lock_before: file,
                bytes: LOCK_BYTES,
                lock_after: file,
                root_after: root,
            },
            501,
            20,
        )
        .expect("lock")
    };
    observe_local_install_source_preflight(
        &plan().source,
        &SourceReadings::Read(
            snapshot(),
            ProjectCheckoutObservation {
                materialization_id: materialization_id(&root),
                source_ambiguous: false,
                primary_project: Some("github.com/teamleaderleo/smolrunner".to_owned()),
                commit: CommitId::parse(COMMIT).expect("commit"),
                tree: GitTreeId::parse(TREE).expect("tree"),
                tracked_changes_present: false,
                untracked_entry_count: 0,
            },
            snapshot(),
        ),
    )
}

struct Evidence {
    policy: LocalInstallBuildCommandPolicy,
    source: LocalInstallSourcePreflightReceipt,
    config: LocalInstallCargoConfigPreflightReceipt,
    toolchain: LocalInstallToolchainPreflightReceipt,
    directories: LocalInstallDirectoryPreflightReceipt,
}

fn ready() -> Evidence {
    Evidence {
        policy: LocalInstallBuildCommandPolicy {
            schema_version: 1,
            identity: Sha256Digest::of_bytes(b"command"),
            source_digest: plan().source.digest().clone(),
            target_generation: 1,
            expected_predecessor: None,
            cargo_config_policy: "isolated_cwd_and_cargo_home_config_free_v1".to_owned(),
        },
        source: source(),
        config: LocalInstallCargoConfigPreflightReceipt {
            schema_version: 1,
            build_root: LocalInstallBuildRootDisposition::Ready,
            lineage_config: LocalInstallCargoConfigDisposition::Absent,
            cargo_home_config: LocalInstallCargoHomeConfigDisposition::Absent,
            ready: true,
            blocking_codes: Vec::new(),
            repair_codes: Vec::new(),
        },
        toolchain: LocalInstallToolchainPreflightReceipt {
            schema_version: 1,
            expected_toolchain: toolchain_identity(),
            ready: true,
        },
        directories: LocalInstallDirectoryPreflightReceipt {
            schema_version: 1,
            ready: true,
            repairable: false,
            blocking_codes: Vec::new(),
            repair_codes: Vec::new(),
        },
    }
}

fn compose(evidence: &Evidence) -> LocalInstallPreflightReceipt {
    compose_local_install_preflight(
        &plan(),
        &evidence.policy,
        &evidence.source,
        &evidence.config,
        &evidence.toolchain,
        &evidence.directories,
    )
}

fn blocks(evidence: &Evidence) -> Vec<LocalInstallPreflightBlockingCode> {
    let receipt = compose(evidence);
    assert_eq!(
        receipt.disposition(),
        LocalInstallPreflightDisposition::Blocked
    );
    assert!(receipt.repair_codes().is_empty());
    receipt.blocking_codes().to_vec()
}

#[test]
fn ready_evidence_composes_to_a_bound_ready_receipt() {
    let receipt = compose(&ready());
    assert_eq!(receipt.schema_version(), 1);
    assert_eq!(receipt.source_digest(), plan().source.digest());
    assert_eq!(receipt.target_generation(), 1);
    assert!(receipt.expected_predecessor().is_none());
    assert!(receipt.source_ready());
    assert!(receipt.config_ready());
    assert!(receipt.toolchain_ready());
    assert!(receipt.directories_ready());
    assert_eq!(
        receipt.disposition(),
        LocalInstallPreflightDisposition::Ready
    );
    assert!(receipt.blocking_codes().is_empty());
    assert!(receipt.repair_codes().is_empty());
}

#[test]
fn a_missing_build_root_is_created_first() {
    let mut evidence = ready();
    evidence.config.ready = false;
    evidence.config.build_root = LocalInstallBuildRootDisposition::Missing;
    evidence.config.blocking_codes = vec![LocalInstallCargoConfigBlockingCode::BuildRootMissing];
    evidence.config.repair_codes =
        vec![LocalInstallCargoConfigRepairCode::CreateIsolatedBuildRoot];
    evidence.directories.ready = false;
    evidence.directories.blocking_codes =
        vec![LocalInstallDirectoryBlockingCode::BuildRootMissing];
    let receipt = compose(&evidence);
    assert_eq!(
        receipt.disposition(),
        LocalInstallPreflightDisposition::Repairable
    );
    assert_eq!(
        receipt.repair_codes(),
        [LocalInstallPreflightRepairCode::CreateBuildRoot]
    );
    assert!(receipt.blocking_codes().is_empty());
}

#[test]
fn missing_directories_are_repaired_in_one_order() {
    let mut evidence = ready();
    evidence.config.ready = false;
    evidence.config.blocking_codes = vec![LocalInstallCargoConfigBlockingCode::CargoHomeMissing];
    evidence.config.repair_codes =
        vec![LocalInstallCargoConfigRepairCode::CreateIsolatedCargoHome];
    evidence.directories.ready = false;
    evidence.directories.repairable = true;
    evidence.directories.repair_codes = vec![
        LocalInstallDirectoryRepairCode::CreateTarget,
        LocalInstallDirectoryRepairCode::CreateCargoHome,
        LocalInstallDirectoryRepairCode::CreateWork,
        LocalInstallDirectoryRepairCode::CreateHome,
    ];
    assert_eq!(
        compose(&evidence).repair_codes(),
        [
            LocalInstallPreflightRepairCode::CreateWork,
            LocalInstallPreflightRepairCode::CreateHome,
            LocalInstallPreflightRepairCode::CreateCargoHome,
            LocalInstallPreflightRepairCode::CreateTarget,
        ]
    );

    evidence.directories.repair_codes = vec![LocalInstallDirectoryRepairCode::CreateWork];
    assert_eq!(
        blocks(&evidence),
        [LocalInstallPreflightBlockingCode::InconsistentRepairEvidence]
    );
}

#[test]
fn evidence_of_another_build_blocks() {
    let mut evidence = ready();
    evidence.policy.source_digest = Sha256Digest::of_bytes(b"other");
    evidence.policy.target_generation = 2;
    evidence.policy.cargo_config_policy = "ambient".to_owned();
    evidence.toolchain.expected_toolchain =
        LocalInstallToolchainIdentity::parse("rust-1.97.1-x86_64-unknown-linux-gnu")
            .expect("toolchain");
    assert_eq!(
        blocks(&evidence),
        [
            LocalInstallPreflightBlockingCode::CommandSourceDigestMismatch,
            LocalInstallPreflightBlockingCode::CommandGenerationMismatch,
            LocalInstallPreflightBlockingCode::ToolchainIdentityMismatch,
            LocalInstallPreflightBlockingCode::CargoConfigPolicyMismatch,
        ]
    );
}

#[test]
fn unknown_schemas_block() {
    let mut evidence = ready();
    evidence.policy.schema_version = 2;
    evidence.config.schema_version = 2;
    evidence.toolchain.schema_version = 2;
    evidence.directories.schema_version = 2;
    assert_eq!(
        blocks(&evidence),
        [
            LocalInstallPreflightBlockingCode::ConfigSchemaUnsupported,
            LocalInstallPreflightBlockingCode::ToolchainSchemaUnsupported,
            LocalInstallPreflightBlockingCode::DirectorySchemaUnsupported,
            LocalInstallPreflightBlockingCode::CommandSchemaUnsupported,
        ]
    );
}

#[test]
fn unready_evidence_blocks() {
    let mut evidence = ready();
    evidence.source = observe_local_install_source_preflight(
        &plan().source,
        &SourceReadings::LockRefused(LockSnapshotError::Changed),
    );
    evidence.config.ready = false;
    evidence.config.blocking_codes = vec![LocalInstallCargoConfigBlockingCode::LineageConfigPresent];
    evidence.toolchain.ready = false;
    evidence.directories.ready = false;
    evidence.directories.blocking_codes =
        vec![LocalInstallDirectoryBlockingCode::DirectoryUnsafe];
    assert_eq!(
        blocks(&evidence),
        [
            LocalInstallPreflightBlockingCode::SourceBlocked,
            LocalInstallPreflightBlockingCode::ConfigBlocked,
            LocalInstallPreflightBlockingCode::ToolchainBlocked,
            LocalInstallPreflightBlockingCode::DirectoryBlocked,
        ]
    );
}
