//! What was observed of a generation store, and the state it amounts to.
//!
//! An observation keeps every reading together with the refusal it may have
//! met, so that the state is judged in the same order whatever was read first.
use vstd::prelude::*;

use crate::artifact::Sha256Digest;
use crate::file_evidence;
use crate::file_evidence::FileStat;
use crate::local_install_generation_store;
use crate::local_install_generation_store::{
    generation_directory_name, inspect_private_file, store_error,
    LocalInstallGenerationStoreError, LocalInstallGenerationStoreErrorKind,
    LocalInstallGenerationStoreSnapshot, LocalInstallStoreOperationId, SnapshotView,
    StoreErrorView, BINARY_FILE, GENERATION_DOCUMENT, PRIVATE_BINARY_MODE,
};
use crate::local_install_plan;
use crate::local_install_plan::{
    same_identity, GenerationView, IdentityView, LocalInstallGenerationIdentity,
    LocalInstallState, StateView,
};
use crate::local_install_store_documents;
use crate::local_install_store_documents::{
    decode_current_bytes, decode_generation_document, parse_operation, parse_optional_identity,
    CurrentDocument, CurrentView, GenerationDocument, GenerationDocumentView, LoadedGeneration,
    LoadedGenerationView, OperationRecord, OperationView,
};
use crate::outcome;
use crate::text;

verus! {

/// The bytes of a current-generation document and what a JSON reader made of
/// them.
#[derive(Debug)]
pub struct CurrentObservation {
    pub bytes: Vec<u8>,
    pub parsed: Option<CurrentDocument>,
}

pub struct CurrentObservationView {
    pub bytes: Seq<u8>,
    pub parsed: Option<CurrentView>,
}

impl View for CurrentObservation {
    type V = CurrentObservationView;

    open spec fn view(&self) -> CurrentObservationView {
        CurrentObservationView { bytes: self.bytes@, parsed: outcome::option_view(self.parsed) }
    }
}

/// The bytes of a generation document and what a JSON reader made of them.
#[derive(Debug)]
pub struct DocumentObservation {
    pub bytes: Vec<u8>,
    pub parsed: Option<GenerationDocument>,
}

pub struct DocumentObservationView {
    pub bytes: Seq<u8>,
    pub parsed: Option<GenerationDocumentView>,
}

impl View for DocumentObservation {
    type V = DocumentObservationView;

    open spec fn view(&self) -> DocumentObservationView {
        DocumentObservationView { bytes: self.bytes@, parsed: outcome::option_view(self.parsed) }
    }
}

/// A stored binary: its metadata, and the digest of its bytes.
#[derive(Debug)]
pub struct BinaryObservation {
    pub stat: FileStat,
    pub digest: Result<Sha256Digest, LocalInstallGenerationStoreError>,
}

pub struct BinaryObservationView {
    pub stat: FileStat,
    pub digest: Result<Seq<char>, StoreErrorView>,
}

impl View for BinaryObservation {
    type V = BinaryObservationView;

    open spec fn view(&self) -> BinaryObservationView {
        BinaryObservationView { stat: self.stat, digest: outcome::result_view(self.digest) }
    }
}

/// One directory beneath the generations or the staged directory.
#[derive(Debug)]
pub struct DirectoryObservation {
    pub name: String,
    /// Opening the directory and checking its owner and mode.
    pub opened: Result<(), LocalInstallGenerationStoreError>,
    /// The sorted entry names.
    pub entries: Result<Vec<String>, LocalInstallGenerationStoreError>,
    pub document: Result<DocumentObservation, LocalInstallGenerationStoreError>,
    pub binary: Result<BinaryObservation, LocalInstallGenerationStoreError>,
    /// Both files still being the ones that were read.
    pub files_unchanged: Result<(), LocalInstallGenerationStoreError>,
    /// The name still reaching the directory that was read.
    pub still_named: Result<(), LocalInstallGenerationStoreError>,
}

pub struct DirectoryView {
    pub name: Seq<char>,
    pub opened: Result<(), StoreErrorView>,
    pub entries: Result<Seq<Seq<char>>, StoreErrorView>,
    pub document: Result<DocumentObservationView, StoreErrorView>,
    pub binary: Result<BinaryObservationView, StoreErrorView>,
    pub files_unchanged: Result<(), StoreErrorView>,
    pub still_named: Result<(), StoreErrorView>,
}

pub open spec fn names_view(
    names: Result<Vec<String>, LocalInstallGenerationStoreError>,
) -> Result<Seq<Seq<char>>, StoreErrorView> {
    match names {
        Ok(list) => Ok(outcome::seq_view(list@)),
        Err(e) => Err(e@),
    }
}

impl View for DirectoryObservation {
    type V = DirectoryView;

    open spec fn view(&self) -> DirectoryView {
        DirectoryView {
            name: self.name@,
            opened: outcome::check_view(self.opened),
            entries: names_view(self.entries),
            document: outcome::result_view(self.document),
            binary: outcome::result_view(self.binary),
            files_unchanged: outcome::check_view(self.files_unchanged),
            still_named: outcome::check_view(self.still_named),
        }
    }
}

/// Everything observed of a store under its lock.
#[derive(Debug)]
pub struct StoreObservation {
    pub owner: (u32, u32),
    pub staged_names: Result<Vec<String>, LocalInstallGenerationStoreError>,
    pub generation_names: Result<Vec<String>, LocalInstallGenerationStoreError>,
    /// Whether an entry for a staged current document exists.
    pub current_next_present: Result<bool, LocalInstallGenerationStoreError>,
    pub current: Result<Option<CurrentObservation>, LocalInstallGenerationStoreError>,
    pub current_next: Result<Option<CurrentObservation>, LocalInstallGenerationStoreError>,
    pub generations: Vec<DirectoryObservation>,
    pub staged: Vec<DirectoryObservation>,
}

pub struct StoreView {
    pub owner: (u32, u32),
    pub staged_names: Result<Seq<Seq<char>>, StoreErrorView>,
    pub generation_names: Result<Seq<Seq<char>>, StoreErrorView>,
    pub current_next_present: Result<bool, StoreErrorView>,
    pub current: Result<Option<CurrentObservationView>, StoreErrorView>,
    pub current_next: Result<Option<CurrentObservationView>, StoreErrorView>,
    pub generations: Seq<DirectoryView>,
    pub staged: Seq<DirectoryView>,
}

pub open spec fn optional_view(
    document: Result<Option<CurrentObservation>, LocalInstallGenerationStoreError>,
) -> Result<Option<CurrentObservationView>, StoreErrorView> {
    match document {
        Ok(value) => Ok(outcome::option_view(value)),
        Err(e) => Err(e@),
    }
}

impl View for StoreObservation {
    type V = StoreView;

    open spec fn view(&self) -> StoreView {
        StoreView {
            owner: self.owner,
            staged_names: names_view(self.staged_names),
            generation_names: names_view(self.generation_names),
            current_next_present: match self.current_next_present {
                Ok(present) => Ok(present),
                Err(e) => Err(e@),
            },
            current: optional_view(self.current),
            current_next: optional_view(self.current_next),
            generations: outcome::seq_view(self.generations@),
            staged: outcome::seq_view(self.staged@),
        }
    }
}

/// The directory of that name, if it was observed.
pub open spec fn directory_named(directories: Seq<DirectoryView>, name: Seq<char>) -> Option<
    DirectoryView,
>
    decreases directories.len(),
{
    if directories.len() == 0 {
        None
    } else if directories[0].name == name {
        Some(directories[0])
    } else {
        directory_named(directories.skip(1), name)
    }
}

/// Finds the directory of that name.
pub fn find_directory<'a>(directories: &'a Vec<DirectoryObservation>, name: &str) -> (found: Option<
    &'a DirectoryObservation,
>)
    ensures
        match found {
            Some(directory) => directory_named(outcome::seq_view(directories@), name@) == Some(
                directory@,
            ),
            None => directory_named(outcome::seq_view(directories@), name@) is None,
        },
{
    let ghost all = outcome::seq_view(directories@);
    let mut i: usize = 0;
    assert(all.skip(0) =~= all);
    while i < directories.len()
        invariant
            i <= directories@.len(),
            all == outcome::seq_view(directories@),
            directory_named(all.skip(i as int), name@) == directory_named(all, name@),
        decreases directories@.len() - i,
    {
        assert(all.skip(i as int)[0] == directories@[i as int]@);
        assert(all.skip(i as int).skip(1) =~= all.skip(i as int + 1));
        if text::same_text(directories[i].name.as_str(), name) {
            return Some(&directories[i]);
        }
        i += 1;
    }
    None
}

/// The two entries of a complete generation directory, in name order.
pub open spec fn complete_entries() -> Seq<Seq<char>> {
    seq!["generation.json"@, "glaeda"@]
}

/// The state of a directory that holds one complete generation.
#[verifier::opaque]
pub open spec fn complete_generation(
    directory: DirectoryView,
    owner: (u32, u32),
    expected_operation: Option<Seq<char>>,
    expected_identity: Option<IdentityView>,
) -> Result<LoadedGenerationView, StoreErrorView> {
    match directory.entries {
        Err(e) => Err(e),
        Ok(entries) => if entries != complete_entries() {
            Err(
                local_install_generation_store::recovery_required(
                    "the local-install generation directory is incomplete"@,
                ),
            )
        } else {
            match directory.document {
                Err(e) => Err(e),
                Ok(document) => match local_install_store_documents::decoded_generation(
                    document.bytes,
                    document.parsed,
                ) {
                    Err(e) => Err(e),
                    Ok(loaded) => if (expected_operation is Some && expected_operation->0
                        != loaded.operation.id) || (expected_identity is Some
                        && expected_identity->0 != loaded.generation.identity) {
                        Err(
                            local_install_generation_store::conflict(
                                "the local-install generation directory does not match its canonical name"@,
                            ),
                        )
                    } else {
                        match verified_binary(directory, owner, loaded) {
                            Err(e) => Err(e),
                            Ok(_) => Ok(loaded),
                        }
                    },
                },
            }
        },
    }
}

/// Whether the stored binary is the one that the generation names.
pub open spec fn verified_binary(
    directory: DirectoryView,
    owner: (u32, u32),
    loaded: LoadedGenerationView,
) -> Result<(), StoreErrorView> {
    match directory.binary {
        Err(e) => Err(e),
        Ok(binary) => match local_install_generation_store::inspected_file(
            binary.stat,
            owner,
            PRIVATE_BINARY_MODE,
            Some(loaded.artifact_bytes),
            "stored Glaeda binary"@,
        ) {
            Err(e) => Err(e),
            Ok(_) => match binary.digest {
                Err(e) => Err(e),
                Ok(digest) => if digest != loaded.generation.binary_digest {
                    Err(
                        local_install_generation_store::corrupt(
                            "the stored Glaeda binary digest does not match its generation document"@,
                        ),
                    )
                } else {
                    directory.files_unchanged
                },
            },
        },
    }
}

/// Whether the names are exactly the document and the binary.
pub fn has_complete_entries(entries: &Vec<String>) -> (r: bool)
    ensures
        r == (outcome::seq_view(entries@) == complete_entries()),
{
    let ghost view = outcome::seq_view(entries@);
    if entries.len() != 2 {
        assert(view.len() != complete_entries().len());
        return false;
    }
    assert(view[0] == entries@[0]@ && view[1] == entries@[1]@);
    assert(complete_entries()[0] == "generation.json"@ && complete_entries()[1] == "glaeda"@);
    let r = text::same_text(entries[0].as_str(), GENERATION_DOCUMENT) && text::same_text(
        entries[1].as_str(),
        BINARY_FILE,
    );
    if r {
        assert(view =~= complete_entries());
    }
    r
}

fn check_copy(check: &Result<(), LocalInstallGenerationStoreError>) -> (r: Result<
    (),
    LocalInstallGenerationStoreError,
>)
    ensures
        outcome::is_check(r, outcome::check_view(*check)),
{
    match check {
        Ok(_) => Ok(()),
        Err(e) => Err(e.clone()),
    }
}

fn verify_binary(
    directory: &DirectoryObservation,
    owner: (u32, u32),
    loaded: &LoadedGeneration,
) -> (r: Result<(), LocalInstallGenerationStoreError>)
    ensures
        outcome::is_check(r, verified_binary(directory@, owner, loaded@)),
{
    let binary = match &directory.binary {
        Ok(binary) => binary,
        Err(e) => {
            return Err(e.clone());
        },
    };
    inspect_private_file(
        &binary.stat,
        owner,
        PRIVATE_BINARY_MODE,
        Some(loaded.artifact_bytes),
        "stored Glaeda binary",
    )?;
    let digest = match &binary.digest {
        Ok(digest) => digest,
        Err(e) => {
            return Err(e.clone());
        },
    };
    if !digest.same_as(&loaded.generation.binary_digest) {
        return Err(
            store_error(
                LocalInstallGenerationStoreErrorKind::CorruptState,
                "the stored Glaeda binary digest does not match its generation document",
            ),
        );
    }
    check_copy(&directory.files_unchanged)
}

/// Reads the complete generation that a directory holds, which has to be the
/// expected operation and generation where those are given.
pub fn verify_complete_generation_directory(
    directory: &DirectoryObservation,
    owner: (u32, u32),
    expected_operation: Option<&LocalInstallStoreOperationId>,
    expected_identity: Option<&LocalInstallGenerationIdentity>,
) -> (r: Result<LoadedGeneration, LocalInstallGenerationStoreError>)
    ensures
        outcome::is_outcome(
            r,
            complete_generation(
                directory@,
                owner,
                outcome::option_view(expected_operation),
                outcome::option_view(expected_identity),
            ),
        ),
{
    proof {
        reveal(complete_generation);
    }
    let entries = match &directory.entries {
        Ok(entries) => entries,
        Err(e) => {
            return Err(e.clone());
        },
    };
    if !has_complete_entries(entries) {
        return Err(
            store_error(
                LocalInstallGenerationStoreErrorKind::RecoveryRequired,
                "the local-install generation directory is incomplete",
            ),
        );
    }
    let document = match &directory.document {
        Ok(document) => document,
        Err(e) => {
            return Err(e.clone());
        },
    };
    let loaded = decode_generation_document(document.bytes.as_slice(), &document.parsed)?;
    let operation_matches = match expected_operation {
        Some(operation) => operation.same_as(&loaded.operation.id),
        None => true,
    };
    let identity_matches = match expected_identity {
        Some(identity) => identity.same_as(&loaded.generation.identity),
        None => true,
    };
    if !operation_matches || !identity_matches {
        return Err(
            store_error(
                LocalInstallGenerationStoreErrorKind::Conflict,
                "the local-install generation directory does not match its canonical name",
            ),
        );
    }
    verify_binary(directory, owner, &loaded)?;
    Ok(loaded)
}

/// What [`load_generation`] answers.
#[verifier::opaque]
pub open spec fn loaded_generation(store: StoreView, identity: IdentityView) -> Result<
    LoadedGenerationView,
    StoreErrorView,
> {
    match local_install_generation_store::named_generation(identity) {
        Err(e) => Err(e),
        Ok(name) => match directory_named(store.generations, name) {
            None => Err(
                local_install_generation_store::recovery_required(
                    "a referenced local-install generation is missing"@,
                ),
            ),
            Some(directory) => match directory.opened {
                Err(e) => Err(e),
                Ok(_) => match complete_generation(directory, store.owner, None, Some(identity)) {
                    Err(e) => Err(e),
                    Ok(loaded) => match directory.still_named {
                        Err(e) => Err(e),
                        Ok(_) => Ok(loaded),
                    },
                },
            },
        },
    }
}

/// Loads a published generation.
pub fn load_generation(
    store: &StoreObservation,
    identity: &LocalInstallGenerationIdentity,
) -> (r: Result<LoadedGeneration, LocalInstallGenerationStoreError>)
    ensures
        outcome::is_outcome(r, loaded_generation(store@, identity@)),
{
    proof {
        reveal(loaded_generation);
    }
    let name = generation_directory_name(identity)?;
    let directory = match find_directory(&store.generations, name.as_str()) {
        Some(directory) => directory,
        None => {
            return Err(
                store_error(
                    LocalInstallGenerationStoreErrorKind::RecoveryRequired,
                    "a referenced local-install generation is missing",
                ),
            );
        },
    };
    check_copy(&directory.opened)?;
    let loaded = verify_complete_generation_directory(directory, store.owner, None, Some(identity))?;
    check_copy(&directory.still_named)?;
    Ok(loaded)
}

pub open spec fn loaded_option(store: StoreView, identity: Option<IdentityView>) -> Result<
    Option<LoadedGenerationView>,
    StoreErrorView,
> {
    match identity {
        None => Ok(None),
        Some(value) => match loaded_generation(store, value) {
            Ok(loaded) => Ok(Some(loaded)),
            Err(e) => Err(e),
        },
    }
}

fn load_option(store: &StoreObservation, identity: &Option<LocalInstallGenerationIdentity>) -> (r:
    Result<Option<LoadedGeneration>, LocalInstallGenerationStoreError>)
    ensures
        match (r, loaded_option(store@, outcome::option_view(*identity))) {
            (Ok(a), Ok(b)) => outcome::option_view(a) == b,
            (Err(a), Err(b)) => a@ == b,
            _ => false,
        },
{
    match identity {
        None => Ok(None),
        Some(value) => {
            let loaded = load_generation(store, value)?;
            Ok(Some(loaded))
        },
    }
}

/// The accepted state that a current document amounts to.
#[derive(Debug)]
pub struct LoadedCurrent {
    pub snapshot: LocalInstallGenerationStoreSnapshot,
    pub operation: Option<OperationRecord>,
    pub retained_operation: Option<OperationRecord>,
    pub accepted_identity: Option<LocalInstallGenerationIdentity>,
    pub retained_identity: Option<LocalInstallGenerationIdentity>,
    pub retiring_identity: Option<LocalInstallGenerationIdentity>,
    pub bytes: Vec<u8>,
}

pub struct LoadedCurrentView {
    pub snapshot: SnapshotView,
    pub operation: Option<OperationView>,
    pub retained_operation: Option<OperationView>,
    pub accepted_identity: Option<IdentityView>,
    pub retained_identity: Option<IdentityView>,
    pub retiring_identity: Option<IdentityView>,
    pub bytes: Seq<u8>,
}

impl View for LoadedCurrent {
    type V = LoadedCurrentView;

    open spec fn view(&self) -> LoadedCurrentView {
        LoadedCurrentView {
            snapshot: self.snapshot@,
            operation: outcome::option_view(self.operation),
            retained_operation: outcome::option_view(self.retained_operation),
            accepted_identity: outcome::option_view(self.accepted_identity),
            retained_identity: outcome::option_view(self.retained_identity),
            retiring_identity: outcome::option_view(self.retiring_identity),
            bytes: self.bytes@,
        }
    }
}

/// The state of a store that accepted nothing yet.
pub open spec fn empty_current() -> LoadedCurrentView {
    LoadedCurrentView {
        snapshot: SnapshotView {
            state: StateView { accepted: None, retained: Seq::empty() },
            last_operation: None,
        },
        operation: None,
        retained_operation: None,
        accepted_identity: None,
        retained_identity: None,
        retiring_identity: None,
        bytes: Seq::empty(),
    }
}

pub open spec fn has_valid_shape(current: CurrentView) -> bool {
    &&& (current.accepted is None) == (current.last_operation is None)
    &&& current.accepted is None ==> current.retained is None && current.retiring is None
}

/// What is wrong between the loaded generations, if anything.
pub open spec fn linkage_problem(
    accepted: Option<LoadedGenerationView>,
    retained: Option<LoadedGenerationView>,
    retained_identity: Option<IdentityView>,
    retiring: Option<IdentityView>,
) -> Option<StoreErrorView> {
    if accepted is Some && accepted->0.generation.predecessor != retained_identity {
        Some(
            local_install_generation_store::corrupt(
                "the accepted generation predecessor does not match the retained generation"@,
            ),
        )
    } else if accepted is Some && retained is Some && accepted->0.generation.identity.number
        != retained->0.generation.identity.number + 1 {
        Some(
            local_install_generation_store::corrupt(
                "the retained generation is not the exact accepted predecessor"@,
            ),
        )
    } else if retiring is Some && retained is None {
        Some(
            local_install_generation_store::corrupt(
                "cleanup debt exists without a retained predecessor"@,
            ),
        )
    } else if retiring is Some && retained->0.generation.predecessor != retiring {
        Some(
            local_install_generation_store::corrupt(
                "cleanup debt is not the exact predecessor of the retained generation"@,
            ),
        )
    } else {
        None
    }
}

/// What is wrong between the operations, if anything.
pub open spec fn operation_problem(
    accepted: Option<LoadedGenerationView>,
    retained: Option<LoadedGenerationView>,
    operation: Option<OperationView>,
) -> Option<StoreErrorView> {
    if operation is Some && retained is Some && operation->0.id == retained->0.operation.id {
        Some(
            local_install_generation_store::corrupt(
                "accepted and retained generations reuse one operation identity"@,
            ),
        )
    } else if accepted is Some && operation is Some && accepted->0.operation != operation->0 {
        Some(
            local_install_generation_store::corrupt(
                "the current operation record does not match the accepted generation"@,
            ),
        )
    } else {
        None
    }
}

pub open spec fn stored_optional_operation(operation: Option<OperationView>) -> Result<
    Option<OperationView>,
    StoreErrorView,
> {
    match operation {
        None => Ok(None),
        Some(value) => match local_install_store_documents::stored_operation(value) {
            Ok(record) => Ok(Some(record)),
            Err(e) => Err(e),
        },
    }
}

pub open spec fn retained_list(retained: Option<LoadedGenerationView>) -> Seq<GenerationView> {
    match retained {
        Some(value) => seq![value.generation],
        None => Seq::empty(),
    }
}

/// The identities and generations that a document names.
pub open spec fn loaded_parts(store: StoreView, current: CurrentView) -> Result<
    (Option<LoadedGenerationView>, Option<LoadedGenerationView>),
    StoreErrorView,
> {
    match local_install_store_documents::stored_option(current.accepted) {
        Err(e) => Err(e),
        Ok(_) => match local_install_store_documents::stored_option(current.retained) {
            Err(e) => Err(e),
            Ok(_) => match local_install_store_documents::stored_option(current.retiring) {
                Err(e) => Err(e),
                Ok(_) => match loaded_option(store, current.accepted) {
                    Err(e) => Err(e),
                    Ok(accepted) => match loaded_option(store, current.retained) {
                        Err(e) => Err(e),
                        Ok(retained) => Ok((accepted, retained)),
                    },
                },
            },
        },
    }
}

/// The state that a decoded document and the generations it names amount to.
pub open spec fn linked_current(
    current: CurrentView,
    bytes: Seq<u8>,
    accepted: Option<LoadedGenerationView>,
    retained: Option<LoadedGenerationView>,
) -> Result<LoadedCurrentView, StoreErrorView> {
    match linkage_problem(accepted, retained, current.retained, current.retiring) {
        Some(problem) => Err(problem),
        None => match stored_optional_operation(current.last_operation) {
            Err(e) => Err(e),
            Ok(operation) => match operation_problem(accepted, retained, operation) {
                Some(problem) => Err(problem),
                None => match local_install_plan::bounded_state(
                    match accepted {
                        Some(value) => Some(value.generation),
                        None => None,
                    },
                    retained_list(retained),
                ) {
                    Err(_) => Err(
                        local_install_generation_store::corrupt(
                            "the current local-install state violates its generation bound"@,
                        ),
                    ),
                    Ok(state) => Ok(
                        LoadedCurrentView {
                            snapshot: SnapshotView {
                                state,
                                last_operation: match operation {
                                    Some(value) => Some(value.id),
                                    None => None,
                                },
                            },
                            operation,
                            retained_operation: match retained {
                                Some(value) => Some(value.operation),
                                None => None,
                            },
                            accepted_identity: current.accepted,
                            retained_identity: current.retained,
                            retiring_identity: current.retiring,
                            bytes,
                        },
                    ),
                },
            },
        },
    }
}

/// What [`load_current_from_bytes`] answers.
pub open spec fn loaded_current(store: StoreView, document: CurrentObservationView) -> Result<
    LoadedCurrentView,
    StoreErrorView,
> {
    match local_install_store_documents::decoded_current(document.bytes, document.parsed) {
        Err(e) => Err(e),
        Ok(current) => if !has_valid_shape(current) {
            Err(
                local_install_generation_store::corrupt(
                    "the current-generation document has an invalid empty-state shape"@,
                ),
            )
        } else {
            match loaded_parts(store, current) {
                Err(e) => Err(e),
                Ok(parts) => linked_current(current, document.bytes, parts.0, parts.1),
            }
        },
    }
}

fn check_linkage(
    accepted: &Option<LoadedGeneration>,
    retained: &Option<LoadedGeneration>,
    retained_identity: &Option<LocalInstallGenerationIdentity>,
    retiring: &Option<LocalInstallGenerationIdentity>,
) -> (problem: Option<LocalInstallGenerationStoreError>)
    ensures
        outcome::option_view(problem) == linkage_problem(
            outcome::option_view(*accepted),
            outcome::option_view(*retained),
            outcome::option_view(*retained_identity),
            outcome::option_view(*retiring),
        ),
{
    if let Some(value) = accepted {
        if !same_identity(&value.generation.predecessor, retained_identity) {
            return Some(
                store_error(
                    LocalInstallGenerationStoreErrorKind::CorruptState,
                    "the accepted generation predecessor does not match the retained generation",
                ),
            );
        }
        if let Some(previous) = retained {
            let successor = match previous.generation.identity.number.checked_add(1) {
                Some(number) => number == value.generation.identity.number,
                None => false,
            };
            if !successor {
                return Some(
                    store_error(
                        LocalInstallGenerationStoreErrorKind::CorruptState,
                        "the retained generation is not the exact accepted predecessor",
                    ),
                );
            }
        }
    }
    if retiring.is_some() {
        match retained {
            None => {
                return Some(
                    store_error(
                        LocalInstallGenerationStoreErrorKind::CorruptState,
                        "cleanup debt exists without a retained predecessor",
                    ),
                );
            },
            Some(previous) => {
                if !same_identity(&previous.generation.predecessor, retiring) {
                    return Some(
                        store_error(
                            LocalInstallGenerationStoreErrorKind::CorruptState,
                            "cleanup debt is not the exact predecessor of the retained generation",
                        ),
                    );
                }
            },
        }
    }
    None
}

fn check_operations(
    accepted: &Option<LoadedGeneration>,
    retained: &Option<LoadedGeneration>,
    operation: &Option<OperationRecord>,
) -> (problem: Option<LocalInstallGenerationStoreError>)
    ensures
        outcome::option_view(problem) == operation_problem(
            outcome::option_view(*accepted),
            outcome::option_view(*retained),
            outcome::option_view(*operation),
        ),
{
    if let Some(record) = operation {
        if let Some(previous) = retained {
            if record.id.same_as(&previous.operation.id) {
                return Some(
                    store_error(
                        LocalInstallGenerationStoreErrorKind::CorruptState,
                        "accepted and retained generations reuse one operation identity",
                    ),
                );
            }
        }
        if let Some(value) = accepted {
            if !value.operation.same_as(record) {
                return Some(
                    store_error(
                        LocalInstallGenerationStoreErrorKind::CorruptState,
                        "the current operation record does not match the accepted generation",
                    ),
                );
            }
        }
    }
    None
}

/// Judges a current document together with the generations it names.
pub fn load_current_from_bytes(store: &StoreObservation, document: &CurrentObservation) -> (r:
    Result<LoadedCurrent, LocalInstallGenerationStoreError>)
    ensures
        outcome::is_outcome(r, loaded_current(store@, document@)),
{
    let wire = decode_current_bytes(document.bytes.as_slice(), &document.parsed)?;
    if wire.accepted.is_none() != wire.last_operation.is_none() || (wire.accepted.is_none() && (
    wire.retained.is_some() || wire.retiring.is_some())) {
        return Err(
            store_error(
                LocalInstallGenerationStoreErrorKind::CorruptState,
                "the current-generation document has an invalid empty-state shape",
            ),
        );
    }
    let accepted_identity = parse_optional_identity(&wire.accepted)?;
    let retained_identity = parse_optional_identity(&wire.retained)?;
    let retiring_identity = parse_optional_identity(&wire.retiring)?;
    assert(outcome::option_view(accepted_identity) == wire@.accepted);
    assert(outcome::option_view(retained_identity) == wire@.retained);
    assert(outcome::option_view(retiring_identity) == wire@.retiring);
    let accepted = load_option(store, &accepted_identity)?;
    let retained = load_option(store, &retained_identity)?;
    if let Some(problem) = check_linkage(
        &accepted,
        &retained,
        &retained_identity,
        &retiring_identity,
    ) {
        return Err(problem);
    }
    let operation = match &wire.last_operation {
        Some(value) => Some(parse_operation(value)?),
        None => None,
    };
    if let Some(problem) = check_operations(&accepted, &retained, &operation) {
        return Err(problem);
    }
    let retained_operation = match &retained {
        Some(value) => Some(value.operation.clone()),
        None => None,
    };
    let accepted_generation = match &accepted {
        Some(value) => Some(value.generation.clone()),
        None => None,
    };
    let mut retained_generations = Vec::new();
    if let Some(value) = &retained {
        retained_generations.push(value.generation.clone());
    }
    assert(outcome::seq_view(retained_generations@) =~= retained_list(
        outcome::option_view(retained),
    ));
    let state = match LocalInstallState::new(accepted_generation, retained_generations) {
        Ok(state) => state,
        Err(_) => {
            return Err(
                store_error(
                    LocalInstallGenerationStoreErrorKind::CorruptState,
                    "the current local-install state violates its generation bound",
                ),
            );
        },
    };
    let last_operation = match &operation {
        Some(record) => Some(record.id.clone()),
        None => None,
    };
    Ok(
        LoadedCurrent {
            snapshot: LocalInstallGenerationStoreSnapshot::of_state(state, last_operation),
            operation,
            retained_operation,
            accepted_identity,
            retained_identity,
            retiring_identity,
            bytes: vstd::slice::slice_to_vec(document.bytes.as_slice()),
        },
    )
}

/// The accepted state of a store: an absent current document is the empty one.
#[verifier::opaque]
pub open spec fn current_state(store: StoreView) -> Result<LoadedCurrentView, StoreErrorView> {
    match store.current {
        Err(e) => Err(e),
        Ok(None) => Ok(empty_current()),
        Ok(Some(document)) => loaded_current(store, document),
    }
}

/// Loads the accepted state of a store.
pub fn load_current(store: &StoreObservation) -> (r: Result<
    LoadedCurrent,
    LocalInstallGenerationStoreError,
>)
    ensures
        outcome::is_outcome(r, current_state(store@)),
{
    proof {
        reveal(current_state);
    }
    match &store.current {
        Err(e) => Err(e.clone()),
        Ok(None) => {
            let state = LocalInstallState { accepted: None, retained: Vec::new() };
            assert(outcome::seq_view(state.retained@) =~= Seq::empty());
            Ok(
                LoadedCurrent {
                    snapshot: LocalInstallGenerationStoreSnapshot::of_state(state, None),
                    operation: None,
                    retained_operation: None,
                    accepted_identity: None,
                    retained_identity: None,
                    retiring_identity: None,
                    bytes: Vec::new(),
                },
            )
        },
        Ok(Some(document)) => load_current_from_bytes(store, document),
    }
}

/// The staged current document, judged like the current one.
#[verifier::opaque]
pub open spec fn next_state(store: StoreView) -> Result<Option<LoadedCurrentView>, StoreErrorView> {
    match store.current_next {
        Err(e) => Err(e),
        Ok(None) => Ok(None),
        Ok(Some(document)) => match loaded_current(store, document) {
            Err(e) => Err(e),
            Ok(loaded) => Ok(Some(loaded)),
        },
    }
}

/// Loads the staged current document, if there is one.
pub fn load_current_next(store: &StoreObservation) -> (r: Result<
    Option<LoadedCurrent>,
    LocalInstallGenerationStoreError,
>)
    ensures
        match (r, next_state(store@)) {
            (Ok(a), Ok(b)) => outcome::option_view(a) == b,
            (Err(a), Err(b)) => a@ == b,
            _ => false,
        },
{
    proof {
        reveal(next_state);
    }
    match &store.current_next {
        Err(e) => Err(e.clone()),
        Ok(None) => Ok(None),
        Ok(Some(document)) => {
            let loaded = load_current_from_bytes(store, document)?;
            Ok(Some(loaded))
        },
    }
}

/// A loaded state links accepted, retained and retiring generations as exact
/// successive predecessors, and records the operation of the accepted one.
pub proof fn law_loaded_state_is_linked(store: StoreView)
    requires
        current_state(store) is Ok,
    ensures
        ({
            let current = current_state(store)->Ok_0;
            let state = current.snapshot.state;
            &&& (current.accepted_identity is None) == (current.operation is None)
            &&& current.snapshot.last_operation == (match current.operation {
                Some(operation) => Some(operation.id),
                None => None,
            })
            &&& match (state.accepted, current.accepted_identity) {
                (Some(accepted), Some(identity)) => accepted.identity == identity
                    && accepted.predecessor == current.retained_identity,
                (None, None) => current.retained_identity is None && current.retiring_identity
                    is None,
                _ => false,
            }
            &&& state.retained.len() <= 1
            &&& match current.retained_identity {
                Some(identity) => state.retained.len() == 1 && state.retained[0].identity
                    == identity && state.accepted is Some && state.accepted->0.identity.number
                    == identity.number + 1 && (current.retiring_identity is Some
                    ==> state.retained[0].predecessor == current.retiring_identity),
                None => state.retained.len() == 0 && current.retiring_identity is None,
            }
        }),
{
    reveal(current_state);
    reveal(loaded_generation);
    reveal(complete_generation);
    match store.current {
        Ok(Some(document)) => {
            let current = local_install_store_documents::decoded_current(
                document.bytes,
                document.parsed,
            )->Ok_0;
            let parts = loaded_parts(store, current)->Ok_0;
        },
        _ => {},
    }
}

/// A generation directory is complete exactly when it holds the document and
/// the binary and nothing else, its document is canonical and of the operation
/// and identity that are asked for, and the binary is the owner's, of mode 0500
/// with one name, with the size and the digest that the document tells.
pub proof fn law_complete_generations_match_their_documents(
    directory: DirectoryView,
    owner: (u32, u32),
    expected_operation: Option<Seq<char>>,
    expected_identity: Option<IdentityView>,
)
    ensures
        ({
            let document = directory.document->Ok_0;
            let decoded = local_install_store_documents::decoded_generation(
                document.bytes,
                document.parsed,
            );
            let loaded = decoded->Ok_0;
            let binary = directory.binary->Ok_0;
            &&& complete_generation(directory, owner, expected_operation, expected_identity) is Ok
                <==> {
                &&& directory.entries == Ok::<Seq<Seq<char>>, StoreErrorView>(
                    seq!["generation.json"@, "glaeda"@],
                )
                &&& directory.document is Ok
                &&& decoded is Ok
                &&& expected_operation is Some ==> expected_operation->0 == loaded.operation.id
                &&& expected_identity is Some ==> expected_identity->0 == loaded.generation.identity
                &&& directory.binary is Ok
                &&& file_evidence::is_closed_file(binary.stat, owner, 0o500)
                &&& binary.stat.size == loaded.artifact_bytes
                &&& binary.digest == Ok::<Seq<char>, StoreErrorView>(
                    loaded.generation.binary_digest,
                )
                &&& directory.files_unchanged is Ok
            }
            &&& complete_generation(
                directory,
                owner,
                expected_operation,
                expected_identity,
            ) matches Ok(found) ==> found == loaded
        }),
{
    reveal(complete_generation);
}

/// A generation is loaded exactly when the directory of its name was opened, is
/// complete with this very identity, and still has its name afterwards. One
/// that is missing needs recovery.
pub proof fn law_generations_are_loaded_by_their_name(store: StoreView, identity: IdentityView)
    requires
        local_install_generation_store::is_nameable(identity),
    ensures
        ({
            let found = directory_named(
                store.generations,
                local_install_generation_store::generation_name(identity),
            );
            let complete = complete_generation(found->0, store.owner, None, Some(identity));
            &&& loaded_generation(store, identity) is Ok <==> found is Some && found->0.opened is Ok
                && complete is Ok && found->0.still_named is Ok
            &&& loaded_generation(store, identity) matches Ok(loaded) ==> complete == Ok::<
                LoadedGenerationView,
                StoreErrorView,
            >(loaded)
            &&& found is None ==> loaded_generation(store, identity)->Err_0.kind
                == LocalInstallGenerationStoreErrorKind::RecoveryRequired
        }),
{
    reveal(loaded_generation);
}

/// The directory of a name is the first one listed under it.
pub proof fn law_directories_are_found_by_name(directories: Seq<DirectoryView>, name: Seq<char>)
    ensures
        directory_named(directories, name) is None <==> forall|k: int|
            0 <= k < directories.len() ==> (#[trigger] directories[k]).name != name,
        directory_named(directories, name) matches Some(found) ==> found.name == name
            && directories.contains(found),
    decreases directories.len(),
{
    if directories.len() > 0 {
        if directories[0].name == name {
            assert(directories.contains(directories[0]));
        } else {
            let rest = directories.skip(1);
            law_directories_are_found_by_name(rest, name);
            assert forall|k: int| 0 < k < directories.len() implies #[trigger] directories[k]
                == rest[k - 1] by {}
            assert forall|k: int| 0 <= k < rest.len() implies #[trigger] rest[k] == directories[k
                + 1] by {}
            if directory_named(rest, name) is Some {
                let k = choose|k: int|
                    0 <= k < rest.len() && rest[k] == directory_named(rest, name)->0;
                assert(directories[k + 1] == rest[k]);
            }
        }
    }
}

/// A current document is loaded exactly when it is canonical, names an
/// operation if and only if it names an accepted generation, and everything
/// that it names can be loaded and is linked: the accepted generation to the
/// retained one that it directly succeeds, and the retained one to what is
/// being retired, under operations of their own.
pub proof fn law_current_documents_are_linked(store: StoreView, document: CurrentObservationView)
    requires
        local_install_store_documents::decoded_current(document.bytes, document.parsed) is Ok,
    ensures
        ({
            let current = local_install_store_documents::decoded_current(
                document.bytes,
                document.parsed,
            )->Ok_0;
            let accepted = loaded_option(store, current.accepted);
            let retained = loaded_option(store, current.retained);
            let a = (accepted->Ok_0)->0;
            let r = (retained->Ok_0)->0;
            let operation = current.last_operation->0;
            &&& loaded_current(store, document) is Ok <==> {
                &&& current.accepted is None <==> current.last_operation is None
                &&& current.accepted is None ==> current.retained is None && current.retiring is None
                &&& local_install_store_documents::stored_option(current.accepted) is Ok
                &&& local_install_store_documents::stored_option(current.retained) is Ok
                &&& local_install_store_documents::stored_option(current.retiring) is Ok
                &&& accepted is Ok && retained is Ok
                &&& current.accepted is Some ==> {
                    &&& a.generation.predecessor == current.retained
                    &&& local_install_store_documents::stored_operation(operation) is Ok
                    &&& a.operation == operation
                }
                &&& current.retained is Some ==> {
                    &&& a.generation.identity.number == r.generation.identity.number + 1
                    &&& r.operation.id != operation.id
                    &&& a.generation.identity != r.generation.identity
                }
                &&& current.retiring is Some ==> current.retained is Some
                    && r.generation.predecessor == current.retiring
            }
            &&& loaded_current(store, document) matches Ok(loaded) ==> {
                &&& loaded.accepted_identity == current.accepted
                &&& loaded.retained_identity == current.retained
                &&& loaded.retiring_identity == current.retiring
                &&& loaded.operation == current.last_operation
                &&& loaded.bytes == document.bytes
            }
        }),
{
}

/// Without a current document the store is empty, and a document that could not
/// be read hides whatever it names.
pub proof fn law_missing_current_document_is_empty(store: StoreView)
    ensures
        store.current == Ok::<Option<CurrentObservationView>, StoreErrorView>(None) ==> (
        current_state(store) matches Ok(current) && current.snapshot.state.accepted is None
            && current.snapshot.state.retained.len() == 0 && current.operation is None
            && current.accepted_identity is None && current.retained_identity is None
            && current.retiring_identity is None),
        store.current matches Err(e) ==> current_state(store) == Err::<
            LoadedCurrentView,
            StoreErrorView,
        >(e),
        store.current matches Ok(Some(document)) ==> current_state(store) == loaded_current(
            store,
            document,
        ),
        store.current_next == Ok::<Option<CurrentObservationView>, StoreErrorView>(None)
            ==> next_state(store) == Ok::<Option<LoadedCurrentView>, StoreErrorView>(None),
        store.current_next matches Ok(Some(document)) ==> match loaded_current(store, document) {
            Ok(loaded) => next_state(store) == Ok::<Option<LoadedCurrentView>, StoreErrorView>(
                Some(loaded),
            ),
            Err(e) => next_state(store) == Err::<Option<LoadedCurrentView>, StoreErrorView>(e),
        },
{
    reveal(current_state);
    reveal(next_state);
}

} // verus!
