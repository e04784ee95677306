//! The generation store, driven step by step over a store that is held in memory.
use std::cell::Cell;
use std::collections::BTreeMap;

use glaeda::artifact::{CommitId, GitTreeId, Sha256Digest};
use glaeda::file_evidence::{DirectoryReadings, FileStat, OpenRefusal, OpenedEntry};
use glaeda::local_install_generation_store::{
    generation_directory_name, generation_text, identity_from_generation_directory_name,
    inspect_directory, operation_id_from_directory_name, store_error,
    LocalInstallGenerationPublishDisposition, LocalInstallGenerationPublishReceipt,
    LocalInstallGenerationPublishRequest, LocalInstallGenerationRecoveryDisposition,
    LocalInstallGenerationRecoveryReceipt, LocalInstallGenerationStoreAuthority,
    LocalInstallGenerationStoreError, LocalInstallGenerationStoreErrorKind,
    LocalInstallGenerationStoreSnapshot, LocalInstallStoreLocationClass,
    LocalInstallStoreOperationId, BINARY_FILE, GENERATIONS_DIRECTORY,
    LOCAL_INSTALL_GENERATION_STORE_SCHEMA_VERSION, MAX_GENERATION_ENTRIES,
    MAX_LOCAL_INSTALL_BINARY_BYTES, MAX_STAGED_ENTRIES, PRIVATE_BINARY_MODE, PRIVATE_FILE_MODE,
    STAGED_DIRECTORY, STORE_IDENTITY_FILE,
};
use glaeda::local_install_plan::{
    complete_local_install_build, BuiltLocalBinaryEvidence, InstalledLocalBinaryGeneration,
    LocalInstallBuildPlan, LocalInstallGenerationIdentity, LocalInstallIdentityGeneration,
    LocalInstallSourceIdentity, LocalInstallToolchainIdentity,
};
use glaeda::local_install_store_documents::{
    decode_current_bytes, decode_generation_document, encode_current, encode_generation_document,
    encode_store_identity, ArtifactWire, CurrentDocument, GenerationDocument, GenerationWire,
    IdentityWire, OperationWire, SourceWire, StoreIdentityDocument,
};
use glaeda::local_install_store_files::{
    enumerate_names, hash_private_file, open_absolute_directory, open_existing_file,
    read_bounded_file, review_candidate, review_copy, BoundedFileReadings, CreationReading,
    EntriesReading, FileDigest, HashReadings, NameClass,
};
use glaeda::local_install_store_observation::{
    load_current, BinaryObservation, CurrentObservation, DirectoryObservation, DocumentObservation,
    StoreObservation,
};
use glaeda::local_install_store_publication::{
    load_clean_state, publication_step, PublicationPhase, PublicationStep,
};
use glaeda::local_install_store_recovery::{
    recovery_receipt, recovery_step, RecoveryPhase, RecoveryStep, StoreAction,
};
use glaeda::local_install_store_root::{
    acquire_lock, choose_root, exactly_private, initialization_stage_name, inspect_root_entries,
    launcher_targets, open_existing_store_root, plan_stage_cleanup, review_root_publication,
    review_stage_attempts, select_location, verify_boundaries, BoundaryReadings,
    ExistingRootReadings, IdentityReadings, ResolvedTargetReadings, RetainedReadings, RootChoice,
    RootReview, StageCleanup, StoreLockReading, StoreLockReadings, StorePlatform, TargetReadings,
    TargetsReadings,
};

const OWNER: (u32, u32) = (501, 20);

fn stat(mode: u32, inode: u64, size: i64) -> FileStat {
    FileStat {
        device: 7,
        inode,
        owner: OWNER.0,
        group: OWNER.1,
        mode,
        links: 1,
        size,
        modified_seconds: 1,
        modified_nanoseconds: 2,
        changed_seconds: 3,
        changed_nanoseconds: 4,
    }
}

fn file_stat(mode: u32, size: usize) -> FileStat {
    stat(0o100000 | mode, 11, size as i64)
}

fn directory_stat() -> FileStat {
    stat(0o040700, 12, 0)
}

fn identity_of(value: &serde_json::Value) -> Option<IdentityWire> {
    Some(IdentityWire {
        number: value.get("number")?.as_u64()?,
        digest: value.get("digest")?.as_str()?.to_owned(),
    })
}

fn text_of(value: &serde_json::Value, name: &str) -> Option<String> {
    Some(value.get(name)?.as_str()?.to_owned())
}

fn header_of(bytes: &[u8], known: &[&str]) -> Option<(serde_json::Value, u8)> {
    let value: serde_json::Value = serde_json::from_slice(bytes).ok()?;
    for name in value.as_object()?.keys() {
        if !known.contains(&name.as_str()) {
            return None;
        }
    }
    if value.get("store_generation")?.as_str()? != "glaeda_current_v1" {
        return None;
    }
    let version = u8::try_from(value.get("store_schema_version")?.as_u64()?).ok()?;
    Some((value, version))
}

fn parsed_current(bytes: &[u8]) -> Option<CurrentDocument> {
    let known = [
        "store_schema_version",
        "store_generation",
        "accepted",
        "retained",
        "retiring",
        "last_operation",
    ];
    let (value, version) = header_of(bytes, &known)?;
    let identity = |name: &str| match value.get(name) {
        None => Some(None),
        Some(found) => identity_of(found).map(Some),
    };
    Some(CurrentDocument {
        store_schema_version: version,
        accepted: identity("accepted")?,
        retained: identity("retained")?,
        retiring: identity("retiring")?,
        last_operation: match value.get("last_operation") {
            None => None,
            Some(found) => Some(OperationWire {
                id: text_of(found, "id")?,
                request_digest: text_of(found, "request_digest")?,
            }),
        },
    })
}

fn parsed_generation(bytes: &[u8]) -> Option<GenerationDocument> {
    let known = [
        "store_schema_version",
        "store_generation",
        "operation_id",
        "request_digest",
        "generation",
        "artifact",
    ];
    let (value, version) = header_of(bytes, &known)?;
    let generation = value.get("generation")?;
    let source = generation.get("source")?;
    let artifact = value.get("artifact")?;
    Some(GenerationDocument {
        store_schema_version: version,
        operation_id: text_of(&value, "operation_id")?,
        request_digest: text_of(&value, "request_digest")?,
        generation: GenerationWire {
            identity: identity_of(generation.get("identity")?)?,
            predecessor: match generation.get("predecessor") {
                None => None,
                Some(found) => Some(identity_of(found)?),
            },
            source: SourceWire {
                identity_generation: match text_of(source, "identity_generation")?.as_str() {
                    "smolrunner_v1" => LocalInstallIdentityGeneration::SmolrunnerV1,
                    "glaeda_v2" => LocalInstallIdentityGeneration::GlaedaV2,
                    _ => return None,
                },
                commit: text_of(source, "commit")?,
                tree: text_of(source, "tree")?,
                cargo_lock_digest: text_of(source, "cargo_lock_digest")?,
                toolchain: text_of(source, "toolchain")?,
                digest: text_of(source, "digest")?,
            },
            binary_digest: text_of(generation, "binary_digest")?,
            binary_version: text_of(generation, "binary_version")?,
        },
        artifact: ArtifactWire {
            file_type: text_of(artifact, "file_type")?,
            owner: text_of(artifact, "owner")?,
            mode: text_of(artifact, "mode")?,
            links: u8::try_from(artifact.get("links")?.as_u64()?).ok()?,
            bytes: artifact.get("bytes")?.as_u64()?,
        },
    })
}

#[derive(Clone, Default)]
struct Directory {
    document: Option<Vec<u8>>,
    binary: Option<Vec<u8>>,
    binary_mode: Option<u32>,
    foreign: bool,
}

/// A store that is held in memory.
#[derive(Clone, Default)]
struct MemoryStore {
    current: Option<Vec<u8>>,
    current_next: Option<Vec<u8>>,
    generations: BTreeMap<String, Directory>,
    staged: BTreeMap<String, Directory>,
}

fn names_of(names: &[&str]) -> EntriesReading {
    let mut all = vec![Some(b".".to_vec()), Some(b"..".to_vec())];
    for name in names.iter().rev() {
        all.push(Some(name.as_bytes().to_vec()));
    }
    EntriesReading {
        enumerated: true,
        names: all,
    }
}

fn read_file(
    content: &Option<Vec<u8>>,
    limit: u64,
    subject: &str,
) -> Result<Vec<u8>, LocalInstallGenerationStoreError> {
    let opened = match content {
        Some(bytes) => OpenedEntry::Opened(Some(file_stat(PRIVATE_FILE_MODE, bytes.len()))),
        None => OpenedEntry::Refused(OpenRefusal::Missing),
    };
    let found = open_existing_file(opened, OWNER, PRIVATE_FILE_MODE, subject)?;
    read_bounded_file(
        BoundedFileReadings {
            before: Some(found),
            retained: true,
            bytes: content.clone(),
            after: Some(found),
        },
        OWNER,
        PRIVATE_FILE_MODE,
        limit,
        subject,
    )
}

fn observe_directory(name: &str, directory: &Directory) -> DirectoryObservation {
    let mut entries = Vec::new();
    if directory.document.is_some() {
        entries.push("generation.json");
    }
    if directory.binary.is_some() {
        entries.push("glaeda");
    }
    if directory.foreign {
        entries.push("foreign");
    }
    let binary = match &directory.binary {
        None => open_existing_file(
            OpenedEntry::Refused(OpenRefusal::Missing),
            OWNER,
            PRIVATE_BINARY_MODE,
            "stored Glaeda binary",
        )
        .map(|_| unreachable!()),
        Some(bytes) => {
            let found = file_stat(
                directory.binary_mode.unwrap_or(PRIVATE_BINARY_MODE),
                bytes.len(),
            );
            Ok(BinaryObservation {
                stat: found,
                digest: hash_private_file(
                    Some(found),
                    HashReadings {
                        retained: true,
                        rewound: true,
                        content: FileDigest::new().update(bytes),
                        after: Some(found),
                    },
                    OWNER,
                    PRIVATE_BINARY_MODE,
                    bytes.len() as u64,
                    "stored Glaeda binary",
                ),
            })
        }
    };
    DirectoryObservation {
        name: name.to_owned(),
        opened: inspect_directory(
            &directory_stat(),
            Some(OWNER),
            true,
            "local-install generation directory",
        ),
        entries: enumerate_names(
            &names_of(&entries),
            2,
            NameClass::GenerationEntries,
            "local-install generation directory",
        ),
        document: read_file(&directory.document, 16_384, "local generation document").map(
            |bytes| DocumentObservation {
                parsed: parsed_generation(&bytes),
                bytes,
            },
        ),
        binary,
        files_unchanged: Ok(()),
        still_named: Ok(()),
    }
}

fn observe_document(
    content: &Option<Vec<u8>>,
) -> Result<Option<CurrentObservation>, LocalInstallGenerationStoreError> {
    if content.is_none() {
        return Ok(None);
    }
    let bytes = read_file(content, 4_096, "current-generation document")?;
    Ok(Some(CurrentObservation {
        parsed: parsed_current(&bytes),
        bytes,
    }))
}

fn interrupted() -> LocalInstallGenerationStoreError {
    store_error(
        LocalInstallGenerationStoreErrorKind::InjectedFailure,
        "interrupted",
    )
}

impl MemoryStore {
    fn observe(&self) -> StoreObservation {
        let staged: Vec<&str> = self.staged.keys().map(String::as_str).collect();
        let generations: Vec<&str> = self.generations.keys().map(String::as_str).collect();
        StoreObservation {
            owner: OWNER,
            staged_names: enumerate_names(
                &names_of(&staged),
                MAX_STAGED_ENTRIES,
                NameClass::Staged,
                "local-install staged directory",
            ),
            generation_names: enumerate_names(
                &names_of(&generations),
                MAX_GENERATION_ENTRIES,
                NameClass::Generations,
                "local-install generations directory",
            ),
            current_next_present: Ok(self.current_next.is_some()),
            current: observe_document(&self.current),
            current_next: observe_document(&self.current_next),
            generations: self
                .generations
                .iter()
                .map(|(name, directory)| observe_directory(name, directory))
                .collect(),
            staged: self
                .staged
                .iter()
                .map(|(name, directory)| observe_directory(name, directory))
                .collect(),
        }
    }

    fn perform(&mut self, action: &StoreAction, candidate: &[u8]) {
        match action {
            StoreAction::RemoveCurrentNext => self.current_next = None,
            StoreAction::StageCurrentNext { bytes } => {
                assert!(self.current_next.is_none());
                self.current_next = Some(bytes.clone());
            }
            StoreAction::SwitchCurrentNext => {
                self.current = Some(self.current_next.take().expect("staged current"));
            }
            StoreAction::StageCandidate {
                stage_name,
                document,
            } => {
                let replaced = self.staged.insert(
                    stage_name.clone(),
                    Directory {
                        document: Some(document.clone()),
                        binary: Some(candidate.to_vec()),
                        ..Directory::default()
                    },
                );
                assert!(replaced.is_none());
            }
            StoreAction::PublishStaged {
                stage_name,
                generation_name,
            } => {
                let directory = self.staged.remove(stage_name).expect("staged operation");
                let replaced = self.generations.insert(generation_name.clone(), directory);
                assert!(replaced.is_none());
            }
            StoreAction::RemoveStaged { stage_name } => {
                self.staged.remove(stage_name).expect("staged operation");
            }
            StoreAction::RetireGeneration {
                generation_name,
                retirement_name,
            } => {
                let directory = self
                    .generations
                    .remove(generation_name)
                    .expect("superseded generation");
                let replaced = self.staged.insert(retirement_name.clone(), directory);
                assert!(replaced.is_none());
            }
            StoreAction::RemoveRetiredBinary { retirement_name } => {
                let directory = self.staged.get_mut(retirement_name).expect("retirement");
                assert!(directory.binary.take().is_some());
            }
            StoreAction::RemoveRetiredDocument { retirement_name } => {
                let directory = self.staged.get_mut(retirement_name).expect("retirement");
                assert!(directory.binary.is_none());
                assert!(directory.document.take().is_some());
            }
            StoreAction::RemoveRetiredDirectory { retirement_name } => {
                let directory = self.staged.remove(retirement_name).expect("retirement");
                assert!(directory.binary.is_none() && directory.document.is_none());
            }
        }
    }

    fn load(
        &self,
    ) -> Result<LocalInstallGenerationStoreSnapshot, LocalInstallGenerationStoreError> {
        load_clean_state(&self.observe())
    }

    fn recover(
        &mut self,
    ) -> Result<LocalInstallGenerationRecoveryReceipt, LocalInstallGenerationStoreError> {
        let mut phase = RecoveryPhase::Inspect;
        loop {
            match recovery_step(phase, &self.observe())? {
                RecoveryStep::Perform { action, next } => {
                    self.perform(&action, &[]);
                    phase = next;
                }
                RecoveryStep::Finished { disposition } => {
                    return recovery_receipt(disposition, &self.observe());
                }
            }
        }
    }

    /// Publishes a candidate, stopping behind the first action that `stops`
    /// names.
    fn publish_until(
        &mut self,
        request: &LocalInstallGenerationPublishRequest,
        path: &str,
        binary: &[u8],
        stops: impl Fn(&StoreAction) -> bool,
    ) -> Result<LocalInstallGenerationPublishReceipt, LocalInstallGenerationStoreError> {
        let mut phase = PublicationPhase::Recover {
            phase: RecoveryPhase::Inspect,
        };
        loop {
            let step = publication_step(
                phase,
                &self.observe(),
                request,
                LocalInstallStoreLocationClass::LinuxHomeDefault,
            )?;
            match step {
                PublicationStep::Perform { action, next } => {
                    self.perform(&action, binary);
                    if stops(&action) {
                        return Err(interrupted());
                    }
                    phase = next;
                }
                PublicationStep::ReviewCandidate => {
                    let size = review_candidate(
                        path,
                        OpenedEntry::Opened(Some(file_stat(0o500, binary.len()))),
                        OWNER,
                        Ok(Sha256Digest::of_bytes(binary)),
                        &request.candidate().binary_digest,
                    )?;
                    phase = PublicationPhase::Stage { binary_bytes: size };
                }
                PublicationStep::Finished { receipt } => return Ok(receipt),
            }
        }
    }

    fn publish(
        &mut self,
        request: &LocalInstallGenerationPublishRequest,
        binary: &[u8],
    ) -> Result<LocalInstallGenerationPublishReceipt, LocalInstallGenerationStoreError> {
        self.publish_until(request, "/candidate", binary, |_| false)
    }
}

fn source(marker: char) -> LocalInstallSourceIdentity {
    LocalInstallSourceIdentity::new(
        CommitId::parse(&marker.to_string().repeat(40)).expect("commit"),
        GitTreeId::parse(&((marker as u8 + 1) as char).to_string().repeat(40)).expect("tree"),
        Sha256Digest::parse(&format!("sha256:{}", marker.to_string().repeat(64)))
            .expect("lock digest"),
        LocalInstallToolchainIdentity::parse("rust-1.97.1-x86_64-unknown-linux-gnu")
            .expect("toolchain"),
    )
    .expect("source")
}

fn candidate(
    predecessor: Option<LocalInstallGenerationIdentity>,
    marker: char,
    bytes: &[u8],
) -> InstalledLocalBinaryGeneration {
    let source = source(marker);
    let plan = LocalInstallBuildPlan {
        target_generation: predecessor.as_ref().map_or(1, |value| value.number + 1),
        expected_predecessor: predecessor.clone(),
        source: source.clone(),
    };
    complete_local_install_build(
        &plan,
        BuiltLocalBinaryEvidence::new(
            source.digest().clone(),
            predecessor,
            Sha256Digest::of_bytes(bytes),
            &format!("glaeda 0.1.{marker}"),
        )
        .expect("evidence"),
    )
    .expect("candidate")
}

fn operation(marker: char) -> LocalInstallStoreOperationId {
    LocalInstallStoreOperationId::parse(&format!("sha256:{}", marker.to_string().repeat(64)))
        .expect("operation")
}

fn request(
    operation_marker: char,
    predecessor: Option<LocalInstallGenerationIdentity>,
    candidate: InstalledLocalBinaryGeneration,
) -> LocalInstallGenerationPublishRequest {
    LocalInstallGenerationPublishRequest::new(operation(operation_marker), predecessor, candidate)
        .expect("request")
}

#[test]
fn publishes_replays_and_refuses_changed_operation_or_stale_predecessor() {
    let mut store = MemoryStore::default();
    let empty = store.load().expect("load empty");
    assert!(empty.state().accepted.is_none());

    let bytes = b"#!/bin/false\nfirst verified glaeda binary\n";
    let first = candidate(None, 'a', bytes);
    let first_request = request('1', None, first.clone());
    let published = store.publish(&first_request, bytes).expect("publish first");
    assert_eq!(
        published.disposition(),
        LocalInstallGenerationPublishDisposition::Published
    );
    assert_eq!(published.state().state().accepted.as_ref(), Some(&first));

    let replayed = store.publish(&first_request, bytes).expect("replay first");
    assert_eq!(
        replayed.disposition(),
        LocalInstallGenerationPublishDisposition::Replayed
    );

    let second_bytes = b"#!/bin/false\nsecond verified glaeda binary\n";
    let second = candidate(Some(first.identity.clone()), 'b', second_bytes);
    let changed_operation = request('1', Some(first.identity.clone()), second);
    assert_eq!(
        store
            .publish(&changed_operation, second_bytes)
            .expect_err("changed operation conflicts")
            .kind(),
        LocalInstallGenerationStoreErrorKind::Conflict
    );

    let stale = request('2', None, first);
    assert_eq!(
        store
            .publish(&stale, bytes)
            .expect_err("stale predecessor conflicts")
            .kind(),
        LocalInstallGenerationStoreErrorKind::Conflict
    );
}

#[test]
fn operation_identity_cannot_be_reused_from_the_retained_generation() {
    let mut store = MemoryStore::default();
    let first_bytes = b"#!/bin/false\nfirst operation\n";
    let first = candidate(None, 'a', first_bytes);
    store
        .publish(&request('1', None, first.clone()), first_bytes)
        .expect("publish first");

    let second_bytes = b"#!/bin/false\nsecond operation\n";
    let second = candidate(Some(first.identity.clone()), 'b', second_bytes);
    store
        .publish(
            &request('2', Some(first.identity.clone()), second.clone()),
            second_bytes,
        )
        .expect("publish second");

    let third_bytes = b"#!/bin/false\nthird operation\n";
    let third = candidate(Some(second.identity.clone()), 'c', third_bytes);
    assert_eq!(
        store
            .publish(&request('1', Some(second.identity), third), third_bytes)
            .expect_err("retained operation identity is globally reserved")
            .kind(),
        LocalInstallGenerationStoreErrorKind::Conflict
    );
}

#[test]
fn retains_exactly_one_predecessor_and_removes_only_proven_older_generation() {
    let mut store = MemoryStore::default();
    let mut predecessor = None;
    let mut generations = Vec::new();
    for (index, marker) in ['a', 'b', 'c'].into_iter().enumerate() {
        let bytes = format!("#!/bin/false\nverified generation {marker}\n");
        let next = candidate(predecessor.clone(), marker, bytes.as_bytes());
        let next_request = request(
            char::from_digit((index + 1) as u32, 10).expect("operation marker"),
            predecessor.clone(),
            next.clone(),
        );
        store
            .publish(&next_request, bytes.as_bytes())
            .expect("publish successor");
        predecessor = Some(next.identity.clone());
        generations.push(next);
    }
    let loaded = store.load().expect("load retained state");
    assert_eq!(loaded.state().accepted.as_ref(), Some(&generations[2]));
    assert_eq!(loaded.state().retained, vec![generations[1].clone()]);
    assert_eq!(store.generations.len(), 2);
    assert!(!store
        .generations
        .contains_key(&generation_directory_name(&generations[0].identity).expect("name")));
}

fn lock_readings(lock: StoreLockReading) -> StoreLockReadings {
    StoreLockReadings {
        retained: Some(file_stat(PRIVATE_FILE_MODE, 0)),
        reopened: OpenedEntry::Opened(Some(file_stat(PRIVATE_FILE_MODE, 0))),
        lock,
    }
}

#[test]
fn nonblocking_lock_and_recovery_debt_prevent_half_state_reads() {
    assert_eq!(
        acquire_lock(&lock_readings(StoreLockReading::Held), OWNER)
            .expect_err("reader is nonblocking")
            .kind(),
        LocalInstallGenerationStoreErrorKind::Busy
    );
    acquire_lock(&lock_readings(StoreLockReading::Acquired), OWNER).expect("released lock");
    assert_eq!(
        acquire_lock(&lock_readings(StoreLockReading::Failed), OWNER)
            .expect_err("failed lock")
            .kind(),
        LocalInstallGenerationStoreErrorKind::Io
    );
    let mut replaced = lock_readings(StoreLockReading::Acquired);
    replaced.reopened = OpenedEntry::Opened(Some(stat(0o100600, 99, 0)));
    assert_eq!(
        acquire_lock(&replaced, OWNER)
            .expect_err("replaced lock")
            .kind(),
        LocalInstallGenerationStoreErrorKind::UnsafeFilesystem
    );

    let mut store = MemoryStore::default();
    store
        .staged
        .insert(operation('1').directory_name(), Directory::default());
    assert_eq!(
        store.load().expect_err("debt is not a half state").kind(),
        LocalInstallGenerationStoreErrorKind::RecoveryRequired
    );
    assert_eq!(
        store
            .recover()
            .expect_err("incomplete debt is preserved")
            .kind(),
        LocalInstallGenerationStoreErrorKind::RecoveryRequired
    );
}

fn retained(found: FileStat) -> RetainedReadings {
    RetainedReadings {
        reopened: OpenedEntry::Opened(Some(found)),
        retained: Some(found),
    }
}

fn identity_readings() -> IdentityReadings {
    let root = directory_stat();
    let bytes = encode_store_identity(
        LocalInstallStoreLocationClass::LinuxHomeDefault,
        root.device,
        root.inode,
    )
    .expect("identity");
    let found = file_stat(PRIVATE_FILE_MODE, bytes.len());
    IdentityReadings {
        file: BoundedFileReadings {
            before: Some(found),
            retained: true,
            bytes: Some(bytes),
            after: Some(found),
        },
        parsed: Some(StoreIdentityDocument {
            store_schema_version: 1,
            location: LocalInstallStoreLocationClass::LinuxHomeDefault,
            root_device: root.device,
            root_inode: root.inode,
        }),
        root: Some(root),
    }
}

fn boundaries() -> BoundaryReadings {
    BoundaryReadings {
        root: retained(directory_stat()),
        identity_file: retained(file_stat(PRIVATE_FILE_MODE, 100)),
        identity: identity_readings(),
        generations: retained(stat(0o040700, 13, 0)),
        staged: retained(stat(0o040700, 14, 0)),
        entries: names_of(&[
            "store.identity.json",
            "lock",
            "current",
            "generations",
            "staged",
        ]),
    }
}

fn boundary_error(readings: BoundaryReadings) -> LocalInstallGenerationStoreErrorKind {
    verify_boundaries(
        readings,
        OWNER,
        LocalInstallStoreLocationClass::LinuxHomeDefault,
    )
    .expect_err("unsafe boundary")
    .kind()
}

#[test]
fn every_public_operation_rejects_unsafe_boundaries_after_lock_acquisition() {
    verify_boundaries(
        boundaries(),
        OWNER,
        LocalInstallStoreLocationClass::LinuxHomeDefault,
    )
    .expect("safe boundaries");

    let mut open = boundaries();
    open.generations = retained(stat(0o040755, 13, 0));
    assert_eq!(
        boundary_error(open),
        LocalInstallGenerationStoreErrorKind::UnsafeFilesystem
    );

    let mut rebound = boundaries();
    rebound.staged.reopened = OpenedEntry::Opened(Some(stat(0o040700, 98, 0)));
    assert_eq!(
        boundary_error(rebound),
        LocalInstallGenerationStoreErrorKind::UnsafeFilesystem
    );

    let mut moved = boundaries();
    moved.identity.root = Some(stat(0o040700, 97, 0));
    assert_eq!(
        boundary_error(moved),
        LocalInstallGenerationStoreErrorKind::CorruptState
    );
}

#[test]
fn restart_recovery_is_bounded_at_every_publication_boundary() {
    let bytes = b"#!/bin/false\nfault boundary\n";
    let first = candidate(None, 'a', bytes);
    let first_request = request('1', None, first.clone());
    let stage = operation('1').directory_name();

    // A directory without its document is never adopted nor removed.
    for binary in [None, Some(bytes.to_vec())] {
        let mut store = MemoryStore::default();
        store.staged.insert(
            stage.clone(),
            Directory {
                binary,
                ..Directory::default()
            },
        );
        let before = store.clone();
        assert_eq!(
            store
                .recover()
                .expect_err("incomplete stage must be preserved")
                .kind(),
            LocalInstallGenerationStoreErrorKind::RecoveryRequired
        );
        assert!(store.staged.contains_key(&stage));
        assert_eq!(store.staged.len(), before.staged.len());
        assert!(load_current(&store.observe())
            .expect("load protected predecessor")
            .accepted_identity
            .is_none());
    }

    let boundaries: [fn(&StoreAction) -> bool; 4] = [
        |action| matches!(action, StoreAction::StageCandidate { .. }),
        |action| matches!(action, StoreAction::PublishStaged { .. }),
        |action| matches!(action, StoreAction::StageCurrentNext { .. }),
        |action| matches!(action, StoreAction::SwitchCurrentNext),
    ];
    for boundary in boundaries {
        let mut store = MemoryStore::default();
        assert_eq!(
            store
                .publish_until(&first_request, "/candidate", bytes, boundary)
                .expect_err("fault must interrupt publication")
                .kind(),
            LocalInstallGenerationStoreErrorKind::InjectedFailure
        );
        let recovered = store.recover().expect("complete exact evidence recovers");
        assert_eq!(recovered.state().state().accepted.as_ref(), Some(&first));
        assert_eq!(
            store.load().expect("clean recovered state").state(),
            recovered.state().state()
        );
    }
}

#[test]
fn predecessor_retirement_recovers_after_each_destructive_boundary() {
    let boundaries: [fn(&StoreAction) -> bool; 3] = [
        |action| matches!(action, StoreAction::RetireGeneration { .. }),
        |action| matches!(action, StoreAction::RemoveRetiredBinary { .. }),
        |action| matches!(action, StoreAction::RemoveRetiredDocument { .. }),
    ];
    for boundary in boundaries {
        let mut store = MemoryStore::default();
        let mut predecessor = None;
        let mut generations = Vec::new();
        for (sequence, marker) in ['a', 'b'].into_iter().enumerate() {
            let bytes = format!("#!/bin/false\nseed {marker}\n");
            let next = candidate(predecessor.clone(), marker, bytes.as_bytes());
            let publish = request(
                char::from_digit((sequence + 1) as u32, 10).expect("operation"),
                predecessor.clone(),
                next.clone(),
            );
            store
                .publish(&publish, bytes.as_bytes())
                .expect("publish seed");
            predecessor = Some(next.identity.clone());
            generations.push(next);
        }
        let bytes = b"#!/bin/false\nthird successor\n";
        let third = candidate(predecessor.clone(), 'c', bytes);
        let publish = request('3', predecessor, third.clone());
        assert_eq!(
            store
                .publish_until(&publish, "/candidate", bytes, boundary)
                .expect_err("interrupt retirement")
                .kind(),
            LocalInstallGenerationStoreErrorKind::InjectedFailure
        );
        let recovered = store.recover().expect("finish exact retirement debt");
        assert_eq!(
            recovered.disposition(),
            LocalInstallGenerationRecoveryDisposition::RemovedCleanupDebt
        );
        assert_eq!(recovered.state().state().accepted.as_ref(), Some(&third));
        assert_eq!(
            recovered.state().state().retained,
            vec![generations[1].clone()]
        );
        assert!(store.staged.is_empty());
        assert_eq!(store.generations.len(), 2);
    }
}

#[test]
fn rejects_source_aliases_and_stored_artifact_tampering() {
    let bytes = b"#!/bin/false\nverified binary\n";
    let first = candidate(None, 'a', bytes);
    let first_request = request('1', None, first.clone());
    let mut linked = file_stat(0o500, bytes.len());
    linked.links = 2;
    for opened in [
        OpenedEntry::Opened(Some(linked)),
        OpenedEntry::Refused(OpenRefusal::SymbolicLink),
    ] {
        assert_eq!(
            review_candidate(
                "/candidate",
                opened,
                OWNER,
                Ok(Sha256Digest::of_bytes(bytes)),
                &first.binary_digest,
            )
            .expect_err("aliased source refused")
            .kind(),
            LocalInstallGenerationStoreErrorKind::UnsafeFilesystem
        );
    }

    let mut store = MemoryStore::default();
    store
        .publish(&first_request, bytes)
        .expect("publish safe source");
    let name = generation_directory_name(&first.identity).expect("generation name");
    store
        .generations
        .get_mut(&name)
        .expect("generation")
        .binary_mode = Some(0o700);
    assert_eq!(
        store.load().expect_err("tampered mode refused").kind(),
        LocalInstallGenerationStoreErrorKind::UnsafeFilesystem
    );
    let directory = store.generations.get_mut(&name).expect("generation");
    directory.binary_mode = None;
    directory.binary = Some(b"#!/bin/false\nverified BINARY\n".to_vec());
    assert_eq!(
        store.load().expect_err("tampered bytes refused").kind(),
        LocalInstallGenerationStoreErrorKind::CorruptState
    );
}

#[test]
fn documents_are_strict_canonical_and_public_receipts_are_path_free() {
    let mut store = MemoryStore::default();
    let bytes = b"#!/bin/false\ncanonical binary\n";
    let first_request = request('1', None, candidate(None, 'a', bytes));
    let receipt = store
        .publish_until(
            &first_request,
            "/home/private-user/candidate",
            bytes,
            |_| false,
        )
        .expect("publish canonical");
    let public = format!("{receipt:?}");
    for private in [
        "private-user",
        "/home/",
        "/Users/",
        "XDG_DATA_HOME",
        "HOME=",
        "uid",
        "inode",
    ] {
        assert!(
            !public.contains(private),
            "leaked private marker: {private}"
        );
    }

    let original = store.current.clone().expect("current");
    let mut value: serde_json::Value = serde_json::from_slice(&original).expect("current json");
    value
        .as_object_mut()
        .expect("current object")
        .insert("unknown".to_owned(), serde_json::Value::Bool(true));
    store.current = Some(serde_json::to_vec(&value).expect("changed current"));
    assert_eq!(
        store
            .load()
            .expect_err("unknown current field refused")
            .kind(),
        LocalInstallGenerationStoreErrorKind::CorruptState
    );
}

#[test]
fn request_constructor_rejects_legacy_and_noncanonical_successors() {
    let current = candidate(None, 'a', b"first");
    let mut wrong_number = current.clone();
    wrong_number.identity.number = 2;
    assert_eq!(
        LocalInstallGenerationPublishRequest::new(operation('1'), None, wrong_number)
            .expect_err("wrong successor number")
            .kind(),
        LocalInstallGenerationStoreErrorKind::InvalidRequest
    );

    let legacy_source = LocalInstallSourceIdentity::with_identity_generation(
        LocalInstallIdentityGeneration::SmolrunnerV1,
        CommitId::parse(&"a".repeat(40)).expect("commit"),
        GitTreeId::parse(&"b".repeat(40)).expect("tree"),
        Sha256Digest::parse(&format!("sha256:{}", "c".repeat(64))).expect("lock"),
        LocalInstallToolchainIdentity::parse("rust-1.97.1-x86_64-unknown-linux-gnu")
            .expect("toolchain"),
    )
    .expect("legacy source");
    let legacy_plan = LocalInstallBuildPlan {
        target_generation: 1,
        expected_predecessor: None,
        source: legacy_source.clone(),
    };
    let legacy = complete_local_install_build(
        &legacy_plan,
        BuiltLocalBinaryEvidence::new(
            legacy_source.digest().clone(),
            None,
            Sha256Digest::of_bytes(b"legacy"),
            "smolrunner 0.1.0",
        )
        .expect("legacy evidence"),
    )
    .expect("legacy candidate");
    assert_eq!(
        LocalInstallGenerationPublishRequest::new(operation('2'), None, legacy)
            .expect_err("legacy publication refused")
            .kind(),
        LocalInstallGenerationStoreErrorKind::InvalidRequest
    );
}

#[test]
fn operation_and_directory_names_are_strictly_canonical() {
    assert!(LocalInstallStoreOperationId::parse("sha256:ABC").is_err());
    assert!(operation_id_from_directory_name("op-ABC").is_err());
    assert!(identity_from_generation_directory_name(&format!("g01-{}", "a".repeat(64))).is_err());
    assert!(identity_from_generation_directory_name(&format!("g1-{}", "A".repeat(64))).is_err());
}

#[test]
fn current_next_recovery_finishes_only_the_exact_successor() {
    let mut store = MemoryStore::default();
    let bytes = b"#!/bin/false\ncurrent next\n";
    let first = candidate(None, 'a', bytes);
    let first_request = request('1', None, first.clone());
    assert_eq!(
        store
            .publish_until(&first_request, "/candidate", bytes, |action| matches!(
                action,
                StoreAction::StageCurrentNext { .. }
            ))
            .expect_err("interrupt before current rename")
            .kind(),
        LocalInstallGenerationStoreErrorKind::InjectedFailure
    );
    assert!(store.current_next.is_some());
    let recovered = store.recover().expect("recover exact current successor");
    assert_eq!(
        recovered.disposition(),
        LocalInstallGenerationRecoveryDisposition::CompletedCurrentSwitch
    );
    assert_eq!(recovered.state().state().accepted.as_ref(), Some(&first));
    assert!(store.current_next.is_none());
}

#[test]
fn same_predecessor_has_one_winner_and_one_stale_conflict() {
    let mut store = MemoryStore::default();
    let bytes_a = b"#!/bin/false\nconcurrent a\n";
    let bytes_b = b"#!/bin/false\nconcurrent b\n";
    store
        .publish(&request('1', None, candidate(None, 'a', bytes_a)), bytes_a)
        .expect("one winner");
    assert_eq!(
        store
            .publish(&request('2', None, candidate(None, 'b', bytes_b)), bytes_b)
            .expect_err("the losing writer is stale after contention")
            .kind(),
        LocalInstallGenerationStoreErrorKind::Conflict
    );
}

#[test]
fn exact_generation_documents_round_trip_without_private_state() {
    let bytes = b"binary bytes";
    let generation = candidate(None, 'a', bytes);
    let request = request('1', None, generation.clone());
    let encoded = encode_generation_document(&request, bytes.len() as u64).expect("encode");
    let decoded =
        decode_generation_document(&encoded, &parsed_generation(&encoded)).expect("decode");
    assert_eq!(decoded.generation, generation);
    assert_eq!(decoded.operation.id, operation('1'));
    let text = std::str::from_utf8(&encoded).expect("UTF-8");
    for private in [
        "/home/",
        "/Users/",
        "HOME=",
        "XDG_DATA_HOME",
        "inode",
        "uid",
    ] {
        assert!(!text.contains(private), "leaked private marker: {private}");
    }
}

#[test]
fn fixed_layout_has_no_legacy_namespace_or_caller_controlled_basename() {
    let linux = select_location(StorePlatform::Linux, &None, &Some("/home/a".to_owned()))
        .expect("Linux location");
    let macos = select_location(StorePlatform::Macos, &None, &Some("/Users/a".to_owned()))
        .expect("macOS location");
    let count = linux.components.len();
    assert_eq!(linux.components[count - 2], "glaeda");
    assert_eq!(linux.components[count - 1], "local-install");
    assert_eq!(macos.components[2], "Glaeda");
    assert_eq!(macos.components[3], "local-install");
    assert_eq!(STORE_IDENTITY_FILE, "store.identity.json");
    assert_eq!(BINARY_FILE, "glaeda");
    for fixed in [
        linux.components[count - 2].as_str(),
        linux.components[count - 1].as_str(),
        macos.components[2].as_str(),
        STORE_IDENTITY_FILE,
        GENERATIONS_DIRECTORY,
        STAGED_DIRECTORY,
        BINARY_FILE,
    ] {
        assert!(!fixed.contains('/'));
        assert!(!fixed.contains("smolrunner"));
    }
}

#[test]
fn explicit_current_document_rejects_noncanonical_whitespace() {
    let wire = CurrentDocument {
        store_schema_version: LOCAL_INSTALL_GENERATION_STORE_SCHEMA_VERSION,
        accepted: None,
        retained: None,
        retiring: None,
        last_operation: None,
    };
    let bytes = encode_current(&wire).expect("canonical current");
    assert!(decode_current_bytes(&bytes, &parsed_current(&bytes)).is_ok());
    let mut spaced = bytes;
    spaced.push(b'\n');
    assert_eq!(
        decode_current_bytes(&spaced, &parsed_current(&spaced))
            .expect_err("noncanonical whitespace")
            .kind(),
        LocalInstallGenerationStoreErrorKind::CorruptState
    );
}

#[test]
fn source_digest_mismatch_fails_before_staging() {
    let mut store = MemoryStore::default();
    let declared = b"#!/bin/false\ndeclared\n";
    let actual = b"#!/bin/false\nactual\n";
    let first_request = request('1', None, candidate(None, 'a', declared));
    assert_eq!(
        store
            .publish(&first_request, actual)
            .expect_err("digest mismatch")
            .kind(),
        LocalInstallGenerationStoreErrorKind::Conflict
    );
    assert!(store.staged.is_empty());
    assert!(store.generations.is_empty());
}

#[test]
fn generation_directory_rejects_extra_entries_before_cleanup() {
    let mut store = MemoryStore::default();
    let bytes = b"#!/bin/false\nextra entry\n";
    let first = candidate(None, 'a', bytes);
    store
        .publish(&request('1', None, first.clone()), bytes)
        .expect("publish first");
    let name = generation_directory_name(&first.identity).expect("generation name");
    store.generations.get_mut(&name).expect("generation").foreign = true;
    assert_eq!(
        store.load().expect_err("foreign entry refused").kind(),
        LocalInstallGenerationStoreErrorKind::CorruptState
    );
}

#[test]
fn store_root_rejects_foreign_entries_without_repair() {
    let mut foreign = boundaries();
    foreign.entries = names_of(&[
        "store.identity.json",
        "lock",
        "generations",
        "staged",
        "foreign",
    ]);
    assert_eq!(
        boundary_error(foreign),
        LocalInstallGenerationStoreErrorKind::CorruptState
    );
    let mut incomplete = boundaries();
    incomplete.entries = names_of(&["store.identity.json", "lock", "generations"]);
    assert_eq!(
        boundary_error(incomplete),
        LocalInstallGenerationStoreErrorKind::UnsafeFilesystem
    );
}

fn existing_root(identity_file: OpenedEntry, entries: EntriesReading) -> ExistingRootReadings {
    ExistingRootReadings {
        root: Some(directory_stat()),
        identity_file,
        identity: identity_readings(),
        entries,
    }
}

#[test]
fn preexisting_unmarked_foreign_root_is_never_changed() {
    assert_eq!(
        open_existing_store_root(
            existing_root(
                OpenedEntry::Refused(OpenRefusal::Missing),
                names_of(&["foreign"])
            ),
            OWNER,
            LocalInstallStoreLocationClass::LinuxHomeDefault,
        )
        .expect_err("unmarked foreign root must not be adopted")
        .kind(),
        LocalInstallGenerationStoreErrorKind::UnsafeFilesystem
    );
}

#[test]
fn preexisting_empty_unmarked_root_is_never_adopted() {
    assert_eq!(
        open_existing_store_root(
            existing_root(OpenedEntry::Refused(OpenRefusal::Missing), names_of(&[])),
            OWNER,
            LocalInstallStoreLocationClass::LinuxHomeDefault,
        )
        .expect_err("empty unmarked root must not be adopted")
        .kind(),
        LocalInstallGenerationStoreErrorKind::UnsafeFilesystem
    );
    open_existing_store_root(
        existing_root(
            OpenedEntry::Opened(Some(file_stat(PRIVATE_FILE_MODE, 10))),
            names_of(&["store.identity.json"]),
        ),
        OWNER,
        LocalInstallStoreLocationClass::LinuxHomeDefault,
    )
    .expect("marked root");
}

#[test]
fn staged_operation_name_is_bound_to_document_operation() {
    let mut store = MemoryStore::default();
    let bytes = b"#!/bin/false\nstage bind\n";
    let first_request = request('1', None, candidate(None, 'a', bytes));
    store
        .publish_until(&first_request, "/candidate", bytes, |action| {
            matches!(action, StoreAction::StageCandidate { .. })
        })
        .expect_err("leave complete stage");
    let stage = store
        .staged
        .remove(&operation('1').directory_name())
        .expect("stage");
    store.staged.insert(operation('2').directory_name(), stage);
    assert_eq!(
        store.recover().expect_err("operation rebind refused").kind(),
        LocalInstallGenerationStoreErrorKind::Conflict
    );
}

#[test]
fn multiple_staged_operations_are_ambiguous_and_never_mutated() {
    let mut store = MemoryStore::default();
    for marker in ['1', '2'] {
        store
            .staged
            .insert(operation(marker).directory_name(), Directory::default());
    }
    assert_eq!(
        store
            .recover()
            .expect_err("multiple stages are ambiguous")
            .kind(),
        LocalInstallGenerationStoreErrorKind::RecoveryRequired
    );
    assert_eq!(store.staged.len(), 2);
    assert!(load_current(&store.observe())
        .expect("current remains empty")
        .accepted_identity
        .is_none());
}

#[test]
fn public_location_class_and_authority_are_bounded() {
    let snapshot = MemoryStore::default().load().expect("empty snapshot");
    assert_eq!(
        snapshot.authority(),
        LocalInstallGenerationStoreAuthority::PrivateGenerationSnapshotOnly
    );
    assert!(snapshot.state().accepted.is_none());
    assert!(snapshot.state().retained.is_empty());
    assert!(snapshot.last_operation().is_none());
}

#[test]
fn recovery_rejects_an_orphan_that_is_not_the_exact_successor() {
    let mut store = MemoryStore::default();
    let bytes = b"#!/bin/false\norphan\n";
    let first = candidate(None, 'a', bytes);
    store
        .publish_until(
            &request('1', None, first.clone()),
            "/candidate",
            bytes,
            |action| matches!(action, StoreAction::PublishStaged { .. }),
        )
        .expect_err("leave orphan generation");
    let name = generation_directory_name(&first.identity).expect("generation name");
    let rebound = format!("g2-{}", &first.identity.digest.as_str()["sha256:".len()..]);
    let orphan = store.generations.remove(&name).expect("orphan");
    store.generations.insert(rebound, orphan);
    assert!(matches!(
        store.recover().expect_err("rebound orphan refused").kind(),
        LocalInstallGenerationStoreErrorKind::Conflict
            | LocalInstallGenerationStoreErrorKind::CorruptState
    ));
}

#[test]
fn binary_size_is_bounded_in_persisted_evidence() {
    let request = request('1', None, candidate(None, 'a', b"binary"));
    let encoded = encode_generation_document(&request, MAX_LOCAL_INSTALL_BINARY_BYTES + 1)
        .expect("encode oversized evidence");
    assert_eq!(
        decode_generation_document(&encoded, &parsed_generation(&encoded))
            .expect_err("oversized evidence refused")
            .kind(),
        LocalInstallGenerationStoreErrorKind::CorruptState
    );
}

#[test]
fn operation_identity_never_accepts_abbreviation_or_uppercase() {
    for invalid in [
        "sha256:a",
        &format!("sha256:{}", "A".repeat(64)),
        &format!("sha1:{}", "a".repeat(40)),
        &"a".repeat(64),
    ] {
        assert!(LocalInstallStoreOperationId::parse(invalid).is_err());
    }
}

#[test]
fn empty_recovery_is_clean_and_idempotent() {
    let mut store = MemoryStore::default();
    for _ in 0..2 {
        let recovered = store.recover().expect("recover empty");
        assert_eq!(
            recovered.disposition(),
            LocalInstallGenerationRecoveryDisposition::Clean
        );
        assert!(recovered.state().state().accepted.is_none());
    }
}

#[test]
fn exact_replay_survives_reopen() {
    let mut store = MemoryStore::default();
    let bytes = b"#!/bin/false\nreopen replay\n";
    let first_request = request('1', None, candidate(None, 'a', bytes));
    store
        .publish(&first_request, bytes)
        .expect("publish first");
    let mut reopened = store.clone();
    assert_eq!(
        reopened
            .publish(&first_request, bytes)
            .expect("replay after reopen")
            .disposition(),
        LocalInstallGenerationPublishDisposition::Replayed
    );
}

#[test]
fn source_requires_absolute_path() {
    let mut store = MemoryStore::default();
    let bytes = b"binary";
    let first_request = request('1', None, candidate(None, 'a', bytes));
    assert_eq!(
        store
            .publish_until(&first_request, "relative-glaeda", bytes, |_| false)
            .expect_err("relative source refused")
            .kind(),
        LocalInstallGenerationStoreErrorKind::InvalidRequest
    );
}

#[test]
fn locations_follow_the_platform() {
    let home = Some("/home/a".to_owned());
    let xdg = select_location(StorePlatform::Linux, &Some("/data/".to_owned()), &home)
        .expect("XDG location");
    assert_eq!(xdg.class, LocalInstallStoreLocationClass::LinuxXdgDataHome);
    assert_eq!(xdg.root_path, "/data/glaeda/local-install");
    assert!(exactly_private(&xdg, 0));
    let default = select_location(StorePlatform::Linux, &Some(String::new()), &home)
        .expect("default location");
    assert_eq!(
        default.class,
        LocalInstallStoreLocationClass::LinuxHomeDefault
    );
    assert_eq!(default.root_path, "/home/a/.local/share/glaeda/local-install");
    assert!(!exactly_private(&default, 1));
    assert!(exactly_private(&default, 2));
    let macos = select_location(StorePlatform::Macos, &None, &home).expect("macOS location");
    assert_eq!(
        macos.root_path,
        "/home/a/Library/Application Support/Glaeda/local-install"
    );
    assert_eq!(
        select_location(StorePlatform::Linux, &None, &None)
            .expect_err("homeless")
            .kind(),
        LocalInstallGenerationStoreErrorKind::InvalidLocation
    );
    assert_eq!(
        select_location(StorePlatform::Other, &None, &home)
            .expect_err("platform")
            .kind(),
        LocalInstallGenerationStoreErrorKind::UnsupportedPlatform
    );
}

#[test]
fn roots_are_published_once_and_cleaned_up_only_if_they_are_ours() {
    assert_eq!(
        choose_root(OpenedEntry::Refused(OpenRefusal::Missing)).expect("missing root"),
        RootChoice::PublishNew
    );
    assert_eq!(
        choose_root(OpenedEntry::Opened(None)).expect("present root"),
        RootChoice::OpenExisting
    );
    assert_eq!(
        choose_root(OpenedEntry::Refused(OpenRefusal::SymbolicLink))
            .expect_err("link")
            .kind(),
        LocalInstallGenerationStoreErrorKind::UnsafeFilesystem
    );
    assert_eq!(
        initialization_stage_name(&[0x00, 0xab, 0x0f]),
        ".local-install.init-00ab0f"
    );
    assert_eq!(
        review_stage_attempts(&vec![CreationReading::Exists, CreationReading::Created])
            .expect("second name"),
        1
    );
    assert_eq!(
        review_stage_attempts(&vec![CreationReading::Exists; 4])
            .expect_err("names taken")
            .kind(),
        LocalInstallGenerationStoreErrorKind::Conflict
    );
    assert_eq!(
        review_root_publication(CreationReading::Exists).expect("lost race"),
        RootChoice::OpenExisting
    );
    assert_eq!(
        plan_stage_cleanup(
            &directory_stat(),
            Some(stat(0o040700, 99, 0)),
            None,
            Some(file_stat(PRIVATE_FILE_MODE, 1)),
        ),
        StageCleanup {
            remove_identity: false,
            remove_root: false,
        }
    );
    assert_eq!(
        plan_stage_cleanup(
            &directory_stat(),
            Some(directory_stat()),
            Some(file_stat(PRIVATE_FILE_MODE, 1)),
            Some(file_stat(PRIVATE_FILE_MODE, 1)),
        ),
        StageCleanup {
            remove_identity: true,
            remove_root: true,
        }
    );
}

#[test]
fn enumerated_names_are_sorted_bounded_utf8_names() {
    let sorted = enumerate_names(
        &names_of(&["glaeda", "generation.json"]),
        2,
        NameClass::GenerationEntries,
        "directory",
    )
    .expect("entries");
    assert_eq!(sorted, vec!["generation.json", "glaeda"]);
    let excess = enumerate_names(
        &names_of(&["glaeda", "generation.json"]),
        1,
        NameClass::GenerationEntries,
        "directory",
    )
    .expect_err("limit");
    assert_eq!(
        excess.message(),
        "directory contains unexpected or excess entries"
    );
    let binary = enumerate_names(
        &EntriesReading {
            enumerated: true,
            names: vec![Some(vec![0xff])],
        },
        2,
        NameClass::GenerationEntries,
        "directory",
    )
    .expect_err("bytes that are no text");
    assert_eq!(binary.message(), "directory contains a noncanonical entry");
    let unread = enumerate_names(
        &EntriesReading {
            enumerated: true,
            names: vec![None],
        },
        2,
        NameClass::GenerationEntries,
        "directory",
    )
    .expect_err("unread entry");
    assert_eq!(unread.kind(), LocalInstallGenerationStoreErrorKind::Io);
    assert_eq!(
        inspect_root_entries(
            RootReview::Initial,
            &EntriesReading {
                enumerated: false,
                names: Vec::new(),
            },
        )
        .expect_err("not enumerated")
        .kind(),
        LocalInstallGenerationStoreErrorKind::Io
    );
}

#[test]
fn files_that_change_or_grow_are_refused() {
    let found = file_stat(PRIVATE_FILE_MODE, 3);
    let read = |bytes: &[u8], after: FileStat, limit: u64| {
        read_bounded_file(
            BoundedFileReadings {
                before: Some(found),
                retained: true,
                bytes: Some(bytes.to_vec()),
                after: Some(after),
            },
            OWNER,
            PRIVATE_FILE_MODE,
            limit,
            "file",
        )
    };
    assert_eq!(read(b"abc", found, 3).expect("stable"), b"abc");
    assert_eq!(
        read(b"abc", found, 2).expect_err("too large").message(),
        "file exceeds its byte limit"
    );
    let mut later = found;
    later.modified_seconds = 9;
    assert_eq!(
        read(b"abc", later, 3).expect_err("changed").message(),
        "file changed while it was read"
    );
    let hashed = hash_private_file(
        Some(found),
        HashReadings {
            retained: true,
            rewound: true,
            content: FileDigest::new().update(b"abc"),
            after: Some(found),
        },
        OWNER,
        PRIVATE_FILE_MODE,
        3,
        "file",
    )
    .expect("hash");
    assert_eq!(
        hashed.as_str(),
        "sha256:ba7816bf8f01cfea414140de5dae2223b00361a396177a9cb410ff61f20015ad"
    );
    assert_eq!(
        review_copy(Some(2), 3).expect_err("short copy").kind(),
        LocalInstallGenerationStoreErrorKind::RecoveryRequired
    );
}

fn resolved(found: FileStat) -> ResolvedTargetReadings {
    ResolvedTargetReadings {
        directory: DirectoryReadings {
            root_opened: true,
            opened: vec![OpenedEntry::Opened(Some(directory_stat()))],
            directory: Some(directory_stat()),
        },
        file: OpenedEntry::Opened(Some(found)),
        retained: Some(found),
        resolved: Some(found),
    }
}

#[test]
fn launcher_targets_are_the_accepted_and_the_retained_generation() {
    let mut store = MemoryStore::default();
    let first_bytes = b"first";
    let first = candidate(None, 'a', first_bytes);
    store
        .publish(&request('1', None, first.clone()), first_bytes)
        .expect("publish first");
    let second_bytes = b"second";
    let second = candidate(Some(first.identity.clone()), 'b', second_bytes);
    store
        .publish(
            &request('2', Some(first.identity.clone()), second.clone()),
            second_bytes,
        )
        .expect("publish second");
    let readings = |generation: &InstalledLocalBinaryGeneration| {
        let name = generation_directory_name(&generation.identity).expect("name");
        let directory = store.generations.get(&name).expect("generation");
        let size = directory.binary.as_ref().expect("binary").len();
        Some(TargetReadings {
            directory: observe_directory(&name, directory),
            resolved: resolved(file_stat(PRIVATE_BINARY_MODE, size)),
        })
    };
    let targets = launcher_targets(
        "/data/glaeda/local-install",
        OWNER,
        &TargetsReadings {
            root: Ok(()),
            store: store.observe(),
            accepted: readings(&second),
            retained: readings(&first),
        },
    )
    .expect("targets");
    assert_eq!(targets.len(), 2);
    assert_eq!(targets[0].identity, second.identity);
    assert_eq!(
        targets[0].path,
        format!(
            "/data/glaeda/local-install/generations/{}/glaeda",
            generation_directory_name(&second.identity).expect("name")
        )
        .into_bytes()
    );
    assert_eq!(targets[1].identity, first.identity);

    let mut rebound = readings(&second).expect("readings");
    rebound.resolved.resolved = Some(stat(0o100500, 77, 6));
    assert_eq!(
        launcher_targets(
            "/data/glaeda/local-install",
            OWNER,
            &TargetsReadings {
                root: Ok(()),
                store: store.observe(),
                accepted: Some(rebound),
                retained: None,
            },
        )
        .expect_err("rebound target")
        .kind(),
        LocalInstallGenerationStoreErrorKind::UnsafeFilesystem
    );
}

#[test]
fn data_directories_are_walked_without_links() {
    let walk = |opened: OpenedEntry| {
        open_absolute_directory(
            "/data",
            OWNER,
            &DirectoryReadings {
                root_opened: true,
                opened: vec![opened],
                directory: Some(directory_stat()),
            },
        )
    };
    assert!(walk(OpenedEntry::Opened(Some(directory_stat()))).is_ok());
    for (opened, kind) in [
        (
            OpenedEntry::Refused(OpenRefusal::SymbolicLink),
            LocalInstallGenerationStoreErrorKind::UnsafeFilesystem,
        ),
        (
            OpenedEntry::Refused(OpenRefusal::Missing),
            LocalInstallGenerationStoreErrorKind::InvalidLocation,
        ),
        (
            OpenedEntry::Opened(None),
            LocalInstallGenerationStoreErrorKind::Io,
        ),
    ] {
        assert_eq!(walk(opened).expect_err("refused way").kind(), kind);
    }
    assert_eq!(
        open_absolute_directory(
            "data",
            OWNER,
            &DirectoryReadings {
                root_opened: true,
                opened: Vec::new(),
                directory: Some(directory_stat()),
            },
        )
        .expect_err("relative way")
        .kind(),
        LocalInstallGenerationStoreErrorKind::InvalidLocation
    );
}

#[test]
fn generations_are_spelled_canonically() {
    let text = generation_text(&candidate(None, 'a', b"x"));
    assert!(text.starts_with("{\"identity\":{\"number\":1,\"digest\":\"sha256:"));
    assert!(text.ends_with("\"binary_version\":\"glaeda 0.1.a\"}"));
}

#[test]
fn the_largest_current_document_fits() {
    let largest = |marker: &str| {
        Some(IdentityWire {
            number: u64::MAX,
            digest: format!("sha256:{}", marker.repeat(64)),
        })
    };
    let document = CurrentDocument {
        store_schema_version: u8::MAX,
        accepted: largest("a"),
        retained: largest("b"),
        retiring: largest("c"),
        last_operation: Some(OperationWire {
            id: format!("sha256:{}", "d".repeat(64)),
            request_digest: format!("sha256:{}", "e".repeat(64)),
        }),
    };
    let bytes = encode_current(&document).expect("within the limit");
    assert_eq!(bytes.len(), 634);

    let mut other = document.clone();
    other.retained = largest("a");
    assert_ne!(encode_current(&other).expect("within the limit"), bytes);

    let mut oversized = document;
    oversized.last_operation = Some(OperationWire {
        id: "d".repeat(4096),
        request_digest: String::new(),
    });
    assert_eq!(
        encode_current(&oversized)
            .expect_err("over the limit")
            .kind(),
        LocalInstallGenerationStoreErrorKind::CorruptState
    );
}

#[test]
fn the_largest_generation_and_identity_documents_fit() {
    let predecessor = LocalInstallGenerationIdentity {
        number: u64::MAX - 1,
        digest: Sha256Digest::of_bytes(b"predecessor"),
    };
    let source = LocalInstallSourceIdentity::new(
        CommitId::parse(&"a".repeat(40)).expect("commit"),
        GitTreeId::parse(&"b".repeat(40)).expect("tree"),
        Sha256Digest::of_bytes(b"lock"),
        LocalInstallToolchainIdentity::parse(&"t".repeat(128)).expect("toolchain"),
    )
    .expect("source");
    let plan = LocalInstallBuildPlan {
        target_generation: u64::MAX,
        expected_predecessor: Some(predecessor.clone()),
        source: source.clone(),
    };
    let largest = complete_local_install_build(
        &plan,
        BuiltLocalBinaryEvidence::new(
            source.digest().clone(),
            Some(predecessor.clone()),
            Sha256Digest::of_bytes(b"binary"),
            &"\"".repeat(128),
        )
        .expect("evidence"),
    )
    .expect("candidate");
    let encoded =
        encode_generation_document(&request('1', Some(predecessor), largest), u64::MAX)
            .expect("within the limit");
    let text = String::from_utf8(encoded).expect("text");
    assert!(text.contains(&format!("\"binary_version\":\"{}\"", "\\\"".repeat(128))));
    assert!(text.ends_with(&format!("\"bytes\":{}}}}}", u64::MAX)));

    let identity = encode_store_identity(
        LocalInstallStoreLocationClass::MacosApplicationSupport,
        u64::MAX,
        u64::MAX,
    )
    .expect("within the limit");
    assert!(String::from_utf8(identity)
        .expect("text")
        .ends_with(&format!("\"root_device\":{0},\"root_inode\":{0}}}", u64::MAX)));
}

#[test]
fn store_documents_are_read_from_their_bytes_alone() {
    let identity = |number: u64, marker: &str| {
        Some(IdentityWire {
            number,
            digest: format!("sha256:{}", marker.repeat(64)),
        })
    };
    let operation_wire = Some(OperationWire {
        id: format!("sha256:{}", "d".repeat(64)),
        request_digest: format!("sha256:{}", "e".repeat(64)),
    });
    for (accepted, retained, retiring, last_operation) in [
        (None, None, None, None),
        (identity(1, "a"), None, None, operation_wire.clone()),
        (
            identity(u64::MAX, "a"),
            identity(u64::MAX - 1, "b"),
            identity(u64::MAX - 2, "c"),
            operation_wire,
        ),
    ] {
        let document = CurrentDocument {
            store_schema_version: LOCAL_INSTALL_GENERATION_STORE_SCHEMA_VERSION,
            accepted,
            retained,
            retiring,
            last_operation,
        };
        let mut bytes = encode_current(&document).expect("encode");
        assert_eq!(
            decode_current_bytes(&bytes, &None).expect("canonical bytes"),
            document
        );
        bytes.insert(1, b' ');
        let problem = |parsed: Option<CurrentDocument>| {
            decode_current_bytes(&bytes, &parsed)
                .expect_err("noncanonical bytes")
                .message()
                .to_owned()
        };
        assert!(problem(None).contains("the current-generation document is invalid"));
        assert!(problem(Some(document)).contains("is not canonically encoded"));
    }

    let first = candidate(None, 'a', b"first");
    let second = candidate(Some(first.identity.clone()), 'b', b"second");
    for (expected, generation) in [(None, first.clone()), (Some(first.identity), second)] {
        let publish = request('1', expected, generation.clone());
        let mut bytes = encode_generation_document(&publish, 6).expect("encode");
        let loaded = decode_generation_document(&bytes, &None).expect("canonical bytes");
        assert_eq!(loaded.generation, generation);
        assert_eq!(loaded.operation.id, operation('1'));
        assert_eq!(loaded.artifact_bytes, 6);
        assert_ne!(
            encode_generation_document(&publish, 7).expect("encode"),
            bytes
        );
        let parsed = parsed_generation(&bytes);
        bytes.push(b'\n');
        let problem = |parsed: &Option<GenerationDocument>| {
            decode_generation_document(&bytes, parsed)
                .expect_err("noncanonical bytes")
                .message()
                .to_owned()
        };
        assert!(problem(&None).contains("the generation document is invalid"));
        assert!(problem(&parsed).contains("is not canonically encoded"));
    }
}

#[test]
fn publication_over_the_debt_of_another_operation_is_replayed() {
    let first = candidate(None, 'a', b"first");
    let second = candidate(Some(first.identity.clone()), 'b', b"second");
    let third = candidate(Some(second.identity.clone()), 'c', b"third");
    let fourth = candidate(Some(third.identity.clone()), 'd', b"fourth");
    let mut settled = MemoryStore::default();
    settled
        .publish(&request('1', None, first.clone()), b"first")
        .expect("publish first");
    settled
        .publish(
            &request('2', Some(first.identity), second.clone()),
            b"second",
        )
        .expect("publish second");
    let interrupted_request = request('3', Some(second.identity), third.clone());
    let next_request = request('4', Some(third.identity.clone()), fourth.clone());
    let mut interruptions = 0;
    loop {
        let mut store = settled.clone();
        let changes = Cell::new(0);
        let outcome = store.publish_until(&interrupted_request, "/candidate", b"third", |_| {
            changes.set(changes.get() + 1);
            changes.get() == interruptions + 1
        });
        if outcome.is_ok() {
            break;
        }
        interruptions += 1;
        let published = store
            .publish(&next_request, b"fourth")
            .expect("publish over the debt");
        assert_eq!(
            published.disposition(),
            LocalInstallGenerationPublishDisposition::Published
        );
        assert_eq!(published.generation(), &fourth.identity);
        assert_eq!(published.state().state().accepted, Some(fourth.clone()));
        assert_eq!(published.state().state().retained, [third.clone()]);
        assert_eq!(store.load().expect("clean store"), *published.state());
        let mut reopened = store.clone();
        let replayed = reopened
            .publish(&next_request, b"fourth")
            .expect("replay after reopen");
        assert_eq!(
            replayed.disposition(),
            LocalInstallGenerationPublishDisposition::Replayed
        );
        assert_eq!(replayed.generation(), published.generation());
        assert_eq!(replayed.state(), published.state());
        assert!(reopened.staged.is_empty());
        assert_eq!(reopened.generations.len(), 2);
    }
    assert_eq!(interruptions, 10);
}
