//! Local self-builds, on scripted readings.
use glaeda::artifact::{CommitId, GitTreeId, Sha256Digest};
use glaeda::file_evidence::{FileStat, OpenRefusal, OpenedEntry};
use glaeda::local_install_build_command::{
    LocalInstallDirectoryBlockingCode, LocalInstallDirectoryPreflightReceipt,
    LocalInstallDirectoryRepairCode, LocalInstallToolchainPreflightReceipt,
};
use glaeda::local_install_build_execution::{
    artifact_file_name, artifact_snapshot, canonical_binary_version, execute_local_install_build,
    invalid_command, reviewed_executable_magic, runner_context, version_command, ArtifactDigest,
    ArtifactObservationError, ArtifactReadings, ArtifactSnapshot, BuildPreflights,
    LocalInstallBuildExecutionCode, LocalInstallBuildExecutionErrorKind,
    LocalInstallBuildExecutionOutcome, LocalInstallBuildExecutionReceipt,
};
use glaeda::local_install_cargo_config_preflight::{
    LocalInstallBuildRootDisposition, LocalInstallCargoConfigDisposition,
    LocalInstallCargoConfigPreflightReceipt, LocalInstallCargoHomeConfigDisposition,
};
use glaeda::local_install_plan::{
    complete_local_install_build, LocalInstallBuildPlan, LocalInstallIdentityGeneration,
    LocalInstallPlatform, LocalInstallSourceIdentity, LocalInstallToolchainIdentity,
};
use glaeda::local_install_source_preflight::{
    lock_snapshot, materialization_id, observe_local_install_source_preflight,
    LocalInstallSourcePreflightReceipt, LockReadings, LockSnapshot, LockSnapshotError,
    ProjectCheckoutObservation, SourceReadings,
};
use glaeda::process::{CommandFailure, CommandSpec, ExecutionRecord};

const COMMIT: &str = "1111111111111111111111111111111111111111";
const TREE: &str = "2222222222222222222222222222222222222222";
const LOCK_BYTES: &[u8] = b"# exact Cargo lock\nversion = 4\n";
const PRIVATE_SENTINEL: &str = "PRIVATE-COMPILER-OUTPUT-MUST-NOT-ESCAPE";
const BINARY: &[u8] = b"\x7fELFfake-glaeda-binary";
const ARTIFACT: &str = "/srv/build/target/release/glaeda";

fn stat(mode: u32, size: i64) -> FileStat {
    FileStat {
        device: 3,
        inode: 4,
        owner: 501,
        group: 20,
        mode,
        links: 1,
        size,
        modified_seconds: 1,
        modified_nanoseconds: 0,
        changed_seconds: 1,
        changed_nanoseconds: 0,
    }
}

fn plan() -> LocalInstallBuildPlan {
    LocalInstallBuildPlan {
        target_generation: 1,
        expected_predecessor: None,
        source: LocalInstallSourceIdentity::new(
            CommitId::parse(COMMIT).expect("commit"),
            GitTreeId::parse(TREE).expect("tree"),
            Sha256Digest::of_bytes(LOCK_BYTES),
            LocalInstallToolchainIdentity::parse("rust-1.97.1-x86_64-unknown-linux-gnu")
                .expect("toolchain"),
        )
        .expect("source identity"),
    }
}

fn lock() -> LockSnapshot {
    let root = stat(0o040755, 0);
    let file = stat(0o100644, LOCK_BYTES.len() as i64);
    lock_snapshot(
        &LockReadings {
            root_before: root,
            lock_before: file,
            bytes: LOCK_BYTES,
            lock_after: file,
            root_after: root,
        },
        501,
        20,
    )
    .expect("lock")
}

fn source() -> LocalInstallSourcePreflightReceipt {
    observe_local_install_source_preflight(
        &plan().source,
        &SourceReadings::Read(
            lock(),
            ProjectCheckoutObservation {
                materialization_id: materialization_id(&stat(0o040755, 0)),
                source_ambiguous: false,
                primary_project: Some("github.com/teamleaderleo/smolrunner".to_owned()),
                commit: CommitId::parse(COMMIT).expect("commit"),
                tree: GitTreeId::parse(TREE).expect("tree"),
                tracked_changes_present: false,
                untracked_entry_count: 0,
            },
            lock(),
        ),
    )
}

fn preflights() -> BuildPreflights {
    BuildPreflights {
        identity_generation: LocalInstallIdentityGeneration::GlaedaV2,
        command_identity: Sha256Digest::of_bytes(b"command"),
        directory_preflight: LocalInstallDirectoryPreflightReceipt {
            schema_version: 1,
            ready: true,
            repairable: false,
            blocking_codes: Vec::new(),
            repair_codes: Vec::new(),
        },
        cargo_config_preflight: LocalInstallCargoConfigPreflightReceipt {
            schema_version: 1,
            build_root: LocalInstallBuildRootDisposition::Ready,
            lineage_config: LocalInstallCargoConfigDisposition::Absent,
            cargo_home_config: LocalInstallCargoHomeConfigDisposition::Absent,
            ready: true,
            blocking_codes: Vec::new(),
            repair_codes: Vec::new(),
        },
        toolchain_preflight: LocalInstallToolchainPreflightReceipt {
            schema_version: 1,
            expected_toolchain: LocalInstallToolchainIdentity::parse(
                "rust-1.97.1-x86_64-unknown-linux-gnu",
            )
            .expect("toolchain"),
            ready: true,
        },
        source_before: source(),
    }
}

fn build_command() -> CommandSpec {
    CommandSpec::new("/srv/tools/cargo")
        .argument("build")
        .argument("--offline")
        .environment("CARGO_HOME", "/srv/build/cargo-home")
}

fn record(spec: &CommandSpec, status: i32, stdout: &str, stderr: &str) -> ExecutionRecord {
    ExecutionRecord {
        argv: spec.displayed_argv(),
        environment_keys: spec
            .environment
            .iter()
            .map(|variable| variable.name.clone())
            .collect(),
        status: Some(status),
        success: status == 0,
        stdout: stdout.to_owned(),
        stderr: stderr.to_owned(),
    }
}

fn digest(bytes: &[u8]) -> Result<Sha256Digest, ArtifactObservationError> {
    ArtifactDigest::new(Some(LocalInstallPlatform::Linux))
        .update(bytes)?
        .finish(bytes.len() as u64)
}

fn readings(bytes: &[u8]) -> ArtifactReadings {
    let file = stat(0o100755, bytes.len() as i64);
    ArtifactReadings {
        build_root: OpenedEntry::Opened(Some(stat(0o040700, 0))),
        target: OpenedEntry::Opened(Some(stat(0o040755, 0))),
        release: OpenedEntry::Opened(Some(stat(0o040755, 0))),
        file: OpenedEntry::Opened(Some(file)),
        digest: digest(bytes),
        file_after: Some(file),
    }
}

fn snapshot(bytes: &[u8]) -> Result<ArtifactSnapshot, ArtifactObservationError> {
    artifact_snapshot(readings(bytes), 501, 20)
}

fn execute_with(
    preflights: BuildPreflights,
    build: Result<ExecutionRecord, CommandFailure>,
    source_after: LocalInstallSourcePreflightReceipt,
    version: Result<ExecutionRecord, CommandFailure>,
    artifact_again: Result<ArtifactSnapshot, ArtifactObservationError>,
) -> LocalInstallBuildExecutionReceipt {
    execute_local_install_build(
        &plan(),
        preflights,
        &build_command(),
        &build,
        source_after,
        snapshot(BINARY),
        &version_command(ARTIFACT),
        &version,
        artifact_again,
    )
}

fn version_record() -> Result<ExecutionRecord, CommandFailure> {
    Ok(record(&version_command(ARTIFACT), 0, "glaeda 0.1.0\n", ""))
}

fn execute(build: Result<ExecutionRecord, CommandFailure>) -> LocalInstallBuildExecutionReceipt {
    execute_with(
        preflights(),
        build,
        source(),
        version_record(),
        snapshot(BINARY),
    )
}

/// The receipt as a JSON document of everything that it shows.
fn serialized(receipt: &LocalInstallBuildExecutionReceipt) -> String {
    let shown = [
        ("schema_version", receipt.schema_version().to_string()),
        ("outcome", format!("{:?}", receipt.outcome())),
        ("codes", format!("{:?}", receipt.codes())),
        ("evidence", format!("{:?}", receipt.evidence())),
        (
            "directory_preflight",
            format!("{:?}", receipt.directory_preflight()),
        ),
        (
            "cargo_config_preflight",
            format!("{:?}", receipt.cargo_config_preflight()),
        ),
        (
            "toolchain_preflight",
            format!("{:?}", receipt.toolchain_preflight()),
        ),
        ("source_before", format!("{:?}", receipt.source_before())),
        ("source_after", format!("{:?}", receipt.source_after())),
    ];
    let mut document = serde_json::Map::new();
    for (name, value) in shown {
        document.insert(name.to_owned(), serde_json::Value::String(value));
    }
    serde_json::to_string(&serde_json::Value::Object(document)).expect("receipt JSON")
}

#[test]
fn exact_build_emits_bound_artifact_evidence_without_private_material() {
    let receipt = execute(Ok(record(&build_command(), 0, "", "")));

    assert_eq!(
        receipt.outcome(),
        LocalInstallBuildExecutionOutcome::Succeeded,
        "{receipt:?}"
    );
    assert!(receipt.codes().is_empty());
    let evidence = receipt.evidence().expect("built evidence");
    assert_eq!(evidence.binary_version, "glaeda 0.1.0");
    assert_eq!(evidence.binary_digest, Sha256Digest::of_bytes(BINARY));
    for public in [serialized(&receipt), format!("{receipt:?}")] {
        assert!(!public.contains("/srv"));
        assert!(!public.contains("Cargo.toml"));
    }

    let generation =
        complete_local_install_build(&plan(), evidence.clone()).expect("completed plan");
    assert_eq!(generation.identity.number, 1);
}

#[test]
fn compiler_failure_is_bounded_and_never_serializes_raw_output() {
    let receipt = execute(Ok(record(&build_command(), 101, "", PRIVATE_SENTINEL)));

    assert_eq!(
        receipt.outcome(),
        LocalInstallBuildExecutionOutcome::Failed,
        "{receipt:?}"
    );
    assert_eq!(
        receipt.codes(),
        [LocalInstallBuildExecutionCode::BuildFailed]
    );
    assert!(receipt.evidence().is_none());
    let public = serialized(&receipt);
    assert!(public.contains("BuildFailed"));
    assert!(!public.contains(PRIVATE_SENTINEL));
    assert!(!format!("{receipt:?}").contains(PRIVATE_SENTINEL));

    let quiet = execute(Ok(record(&build_command(), 101, "", "")));
    assert_eq!(quiet, receipt);
}

#[test]
fn timeout_output_limit_and_offline_dependency_miss_remain_distinct() {
    for (build, expected) in [
        (
            Err(CommandFailure::TimedOut),
            LocalInstallBuildExecutionCode::BuildTimeout,
        ),
        (
            Err(CommandFailure::OutputLimit),
            LocalInstallBuildExecutionCode::BuildOutputLimit,
        ),
        (
            Ok(record(
                &build_command(),
                101,
                "",
                "error: no matching package named `missing` found\nlocation searched: crates.io index\n",
            )),
            LocalInstallBuildExecutionCode::DependencyMaterialMissing,
        ),
        (
            Err(CommandFailure::NotFound),
            LocalInstallBuildExecutionCode::BuildUnavailable,
        ),
    ] {
        let receipt = execute(build);
        assert_eq!(receipt.outcome(), LocalInstallBuildExecutionOutcome::Failed);
        assert_eq!(receipt.codes(), [expected]);
        assert!(receipt.evidence().is_none());
    }
}

#[test]
fn source_change_during_build_refuses_artifact_acceptance() {
    let changed = observe_local_install_source_preflight(
        &plan().source,
        &SourceReadings::LockRefused(LockSnapshotError::Changed),
    );
    let receipt = execute_with(
        preflights(),
        Ok(record(&build_command(), 0, "", "")),
        changed,
        version_record(),
        snapshot(BINARY),
    );

    assert_eq!(receipt.outcome(), LocalInstallBuildExecutionOutcome::Failed);
    assert_eq!(
        receipt.codes(),
        [LocalInstallBuildExecutionCode::SourceChanged]
    );
    assert!(receipt.source_after().is_some());
    assert!(receipt.evidence().is_none());
}

#[test]
fn artifact_replacement_during_version_probe_is_changed() {
    let receipt = execute_with(
        preflights(),
        Ok(record(&build_command(), 0, "", "")),
        source(),
        version_record(),
        snapshot(b"\x7fELFother-glaeda-binary"),
    );

    assert_eq!(receipt.outcome(), LocalInstallBuildExecutionOutcome::Failed);
    assert_eq!(
        receipt.codes(),
        [LocalInstallBuildExecutionCode::ArtifactChanged]
    );
    assert!(receipt.evidence().is_none());
}

#[test]
fn invalid_directory_preflight_refuses_before_build_execution() {
    let mut refused = preflights();
    refused.directory_preflight.ready = false;
    refused.directory_preflight.repairable = true;
    refused.directory_preflight.blocking_codes =
        vec![LocalInstallDirectoryBlockingCode::DirectoryMissing];
    refused.directory_preflight.repair_codes = vec![LocalInstallDirectoryRepairCode::CreateWork];
    let receipt = execute_with(
        refused,
        Ok(record(&build_command(), 0, "", "")),
        source(),
        version_record(),
        snapshot(BINARY),
    );

    assert_eq!(
        receipt.outcome(),
        LocalInstallBuildExecutionOutcome::Refused
    );
    assert!(receipt
        .codes()
        .contains(&LocalInstallBuildExecutionCode::DirectoryNotReady));
    assert!(receipt.source_after().is_none());
}

#[test]
fn artifact_snapshot_rejects_scripts_and_symlinks() {
    assert_eq!(
        snapshot(b"#!/bin/sh\nexit 0\n").expect_err("script rejected"),
        ArtifactObservationError::Unsafe
    );
    let mut linked = readings(BINARY);
    linked.file = OpenedEntry::Refused(OpenRefusal::SymbolicLink);
    assert_eq!(
        artifact_snapshot(linked, 501, 20).expect_err("symlink rejected"),
        ArtifactObservationError::Unsafe
    );
    let mut missing = readings(BINARY);
    missing.release = OpenedEntry::Refused(OpenRefusal::Missing);
    assert_eq!(
        artifact_snapshot(missing, 501, 20).expect_err("missing"),
        ArtifactObservationError::Missing
    );
    let mut changed = readings(BINARY);
    changed.file_after = Some(stat(0o100755, 1));
    assert_eq!(
        artifact_snapshot(changed, 501, 20).expect_err("changed"),
        ArtifactObservationError::Unknown
    );
}

#[test]
fn versions_are_one_exact_line() {
    let spec = version_command(ARTIFACT);
    assert_eq!(spec.displayed_argv(), vec![ARTIFACT, "--version"]);
    let version = |stdout: &str, stderr: &str| {
        canonical_binary_version(
            LocalInstallIdentityGeneration::GlaedaV2,
            &record(&spec, 0, stdout, stderr),
            &spec,
        )
    };
    assert_eq!(version("glaeda 0.1.0\n", ""), Some("glaeda 0.1.0".to_owned()));
    for refused in ["glaeda 0.1.0\nmore\n", "other 0.1.0\n", "\n", "glaeda \n"] {
        assert_eq!(version(refused, ""), None, "{refused:?}");
    }
    assert_eq!(version("glaeda 0.1.0\n", "warning"), None);
}

#[test]
fn artifacts_stand_directly_in_the_release_directory() {
    assert_eq!(
        artifact_file_name("/srv/build", ARTIFACT).expect("name"),
        "glaeda"
    );
    for refused in [
        "/srv/other/target/release/glaeda",
        "/srv/build/target/glaeda",
        "/srv/build/target/release/deps/glaeda",
    ] {
        assert!(artifact_file_name("/srv/build", refused).is_err(), "{refused}");
    }
}

#[test]
fn executables_are_told_by_their_magic() {
    let linux = Some(LocalInstallPlatform::Linux);
    let macos = Some(LocalInstallPlatform::Macos);
    assert!(reviewed_executable_magic(linux, b"\x7fELF"));
    assert!(!reviewed_executable_magic(macos, b"\x7fELF"));
    assert!(reviewed_executable_magic(macos, &[0xcf, 0xfa, 0xed, 0xfe]));
    assert!(!reviewed_executable_magic(linux, b"#!/b"));
    assert_eq!(
        ArtifactDigest::new(linux)
            .update(b"\x7fEL")
            .err()
            .expect("short piece"),
        ArtifactObservationError::Unsafe
    );
}

#[test]
fn runners_are_not_root() {
    assert!(runner_context("/srv/build", 501, 20).is_ok());
    assert_eq!(
        runner_context("/srv/build", 0, 20)
            .err()
            .expect("root runner")
            .kind,
        LocalInstallBuildExecutionErrorKind::InvalidRunnerIdentity
    );
    assert_eq!(
        invalid_command().kind,
        LocalInstallBuildExecutionErrorKind::InvalidCommand
    );
}
