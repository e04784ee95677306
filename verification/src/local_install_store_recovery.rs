//! Recovery of an interrupted transition of the generation store.
//!
//! Recovery is a sequence of steps. Each step looks at the whole store as it
//! is observed under the writer lock and names at most one change to make; the
//! store is then observed again. A step that refuses leaves the store alone.
use vstd::prelude::*;

use crate::local_install_generation_store;
use crate::local_install_generation_store::{
    generation_directory_name, identity_from_generation_directory_name,
    identity_from_retirement_directory_name, is_operation_directory_name,
    operation_id_from_directory_name, retirement_directory_name, store_error,
    LocalInstallGenerationRecoveryDisposition, LocalInstallGenerationRecoveryReceipt,
    LocalInstallGenerationStoreError, LocalInstallGenerationStoreErrorKind, RecoveryReceiptView,
    StoreErrorView, GENERATION_DOCUMENT, LOCAL_INSTALL_GENERATION_STORE_SCHEMA_VERSION,
};
use crate::local_install_plan::{
    same_identity, IdentityView, LocalInstallGenerationIdentity,
};
use crate::local_install_store_documents;
use crate::local_install_store_documents::{
    decode_generation_document, encode_current, identity_wire, CurrentDocument,
    CurrentView, LoadedGeneration, LoadedGenerationView, OperationRecord, OperationView,
};
use crate::local_install_store_observation;
use crate::local_install_store_observation::{
    find_directory, has_complete_entries, load_current, load_current_next, load_generation,
    verify_complete_generation_directory, DirectoryObservation, DirectoryView, LoadedCurrent,
    LoadedCurrentView, StoreObservation, StoreView,
};
use crate::outcome;
use crate::text;
use crate::text::same_bytes;

verus! {

/// One change to the store.
#[derive(Debug, PartialEq, Eq)]
pub enum StoreAction {
    /// Remove the staged current document.
    RemoveCurrentNext,
    /// Write and synchronize a staged current document.
    StageCurrentNext { bytes: Vec<u8> },
    /// Rename the staged current document over the current one.
    SwitchCurrentNext,
    /// Stage the candidate binary together with its document.
    StageCandidate { stage_name: String, document: Vec<u8> },
    /// Rename a staged operation to its generation, replacing nothing.
    PublishStaged { stage_name: String, generation_name: String },
    /// Remove a staged operation.
    RemoveStaged { stage_name: String },
    /// Rename a superseded generation to its retirement, replacing nothing.
    RetireGeneration { generation_name: String, retirement_name: String },
    RemoveRetiredBinary { retirement_name: String },
    RemoveRetiredDocument { retirement_name: String },
    RemoveRetiredDirectory { retirement_name: String },
}

pub enum ActionView {
    RemoveCurrentNext,
    StageCurrentNext { bytes: Seq<u8> },
    SwitchCurrentNext,
    StageCandidate { stage_name: Seq<char>, document: Seq<u8> },
    PublishStaged { stage_name: Seq<char>, generation_name: Seq<char> },
    RemoveStaged { stage_name: Seq<char> },
    RetireGeneration { generation_name: Seq<char>, retirement_name: Seq<char> },
    RemoveRetiredBinary { retirement_name: Seq<char> },
    RemoveRetiredDocument { retirement_name: Seq<char> },
    RemoveRetiredDirectory { retirement_name: Seq<char> },
}

impl View for StoreAction {
    type V = ActionView;

    open spec fn view(&self) -> ActionView {
        match self {
            StoreAction::RemoveCurrentNext => ActionView::RemoveCurrentNext,
            StoreAction::StageCurrentNext { bytes } => ActionView::StageCurrentNext {
                bytes: bytes@,
            },
            StoreAction::SwitchCurrentNext => ActionView::SwitchCurrentNext,
            StoreAction::StageCandidate { stage_name, document } => ActionView::StageCandidate {
                stage_name: stage_name@,
                document: document@,
            },
            StoreAction::PublishStaged { stage_name, generation_name } => ActionView::PublishStaged {
                stage_name: stage_name@,
                generation_name: generation_name@,
            },
            StoreAction::RemoveStaged { stage_name } => ActionView::RemoveStaged {
                stage_name: stage_name@,
            },
            StoreAction::RetireGeneration { generation_name, retirement_name } => {
                ActionView::RetireGeneration {
                    generation_name: generation_name@,
                    retirement_name: retirement_name@,
                }
            },
            StoreAction::RemoveRetiredBinary { retirement_name } => {
                ActionView::RemoveRetiredBinary { retirement_name: retirement_name@ }
            },
            StoreAction::RemoveRetiredDocument { retirement_name } => {
                ActionView::RemoveRetiredDocument { retirement_name: retirement_name@ }
            },
            StoreAction::RemoveRetiredDirectory { retirement_name } => {
                ActionView::RemoveRetiredDirectory { retirement_name: retirement_name@ }
            },
        }
    }
}

/// Where a recovery stands between two changes.
#[derive(Debug, PartialEq, Eq)]
pub enum RecoveryPhase {
    /// Nothing is known yet.
    Inspect,
    /// A current document has to be staged, and cleanup may have to follow.
    WriteCurrent {
        document: CurrentDocument,
        cleanup: bool,
        disposition: LocalInstallGenerationRecoveryDisposition,
    },
    /// The staged current document has to be switched in.
    SwitchCurrent { cleanup: bool, disposition: LocalInstallGenerationRecoveryDisposition },
    /// A superseded generation may have to be retired.
    Cleanup { disposition: LocalInstallGenerationRecoveryDisposition },
    /// A retirement has to be taken apart.
    FinishRetirement {
        retirement_name: String,
        disposition: LocalInstallGenerationRecoveryDisposition,
    },
    /// The retirement marker has to be cleared.
    ClearMarker { disposition: LocalInstallGenerationRecoveryDisposition },
    Done { disposition: LocalInstallGenerationRecoveryDisposition },
}

pub enum PhaseView {
    Inspect,
    WriteCurrent {
        document: CurrentView,
        cleanup: bool,
        disposition: LocalInstallGenerationRecoveryDisposition,
    },
    SwitchCurrent { cleanup: bool, disposition: LocalInstallGenerationRecoveryDisposition },
    Cleanup { disposition: LocalInstallGenerationRecoveryDisposition },
    FinishRetirement {
        retirement_name: Seq<char>,
        disposition: LocalInstallGenerationRecoveryDisposition,
    },
    ClearMarker { disposition: LocalInstallGenerationRecoveryDisposition },
    Done { disposition: LocalInstallGenerationRecoveryDisposition },
}

impl View for RecoveryPhase {
    type V = PhaseView;

    open spec fn view(&self) -> PhaseView {
        match self {
            RecoveryPhase::Inspect => PhaseView::Inspect,
            RecoveryPhase::WriteCurrent { document, cleanup, disposition } => {
                PhaseView::WriteCurrent {
                    document: document@,
                    cleanup: *cleanup,
                    disposition: *disposition,
                }
            },
            RecoveryPhase::SwitchCurrent { cleanup, disposition } => PhaseView::SwitchCurrent {
                cleanup: *cleanup,
                disposition: *disposition,
            },
            RecoveryPhase::Cleanup { disposition } => PhaseView::Cleanup {
                disposition: *disposition,
            },
            RecoveryPhase::FinishRetirement { retirement_name, disposition } => {
                PhaseView::FinishRetirement {
                    retirement_name: retirement_name@,
                    disposition: *disposition,
                }
            },
            RecoveryPhase::ClearMarker { disposition } => PhaseView::ClearMarker {
                disposition: *disposition,
            },
            RecoveryPhase::Done { disposition } => PhaseView::Done { disposition: *disposition },
        }
    }
}

/// What a recovery does next.
#[derive(Debug, PartialEq, Eq)]
pub enum RecoveryStep {
    Finished { disposition: LocalInstallGenerationRecoveryDisposition },
    Perform { action: StoreAction, next: RecoveryPhase },
}

pub enum StepView {
    Finished { disposition: LocalInstallGenerationRecoveryDisposition },
    Perform { action: ActionView, next: PhaseView },
}

impl View for RecoveryStep {
    type V = StepView;

    open spec fn view(&self) -> StepView {
        match self {
            RecoveryStep::Finished { disposition } => StepView::Finished {
                disposition: *disposition,
            },
            RecoveryStep::Perform { action, next } => StepView::Perform {
                action: action@,
                next: next@,
            },
        }
    }
}

/// The staged names that are operations, or those that are not.
pub open spec fn selected(names: Seq<Seq<char>>, operations: bool) -> Seq<Seq<char>>
    decreases names.len(),
{
    if names.len() == 0 {
        Seq::empty()
    } else {
        let rest = selected(names.drop_last(), operations);
        if (local_install_generation_store::operation_named(names.last()) is Ok) == operations {
            rest.push(names.last())
        } else {
            rest
        }
    }
}

/// The names that are not referenced.
pub open spec fn unreferenced(names: Seq<Seq<char>>, referenced: Seq<Seq<char>>) -> Seq<Seq<char>>
    decreases names.len(),
{
    if names.len() == 0 {
        Seq::empty()
    } else {
        let rest = unreferenced(names.drop_last(), referenced);
        if referenced.contains(names.last()) {
            rest
        } else {
            rest.push(names.last())
        }
    }
}

/// The names of the accepted and the retained generation.
pub open spec fn referenced_names(current: LoadedCurrentView) -> Result<
    Seq<Seq<char>>,
    StoreErrorView,
> {
    match named_option(current.accepted_identity) {
        Err(e) => Err(e),
        Ok(accepted) => match named_option(current.retained_identity) {
            Err(e) => Err(e),
            Ok(retained) => Ok(accepted + retained),
        },
    }
}

pub open spec fn named_option(identity: Option<IdentityView>) -> Result<
    Seq<Seq<char>>,
    StoreErrorView,
> {
    match identity {
        None => Ok(Seq::empty()),
        Some(value) => match local_install_generation_store::named_generation(value) {
            Ok(name) => Ok(seq![name]),
            Err(e) => Err(e),
        },
    }
}

/// The published generations that the current document does not name.
pub open spec fn extra_names(store: StoreView, current: LoadedCurrentView) -> Result<
    Seq<Seq<char>>,
    StoreErrorView,
> {
    match referenced_names(current) {
        Err(e) => Err(e),
        Ok(referenced) => match store.generation_names {
            Err(e) => Err(e),
            Ok(names) => Ok(unreferenced(names, referenced)),
        },
    }
}

/// The document that accepts a successor, retains what was accepted and
/// retires what was retained.
pub open spec fn successor_document(
    current: LoadedCurrentView,
    identity: IdentityView,
    operation: OperationView,
) -> CurrentView {
    CurrentView {
        store_schema_version: LOCAL_INSTALL_GENERATION_STORE_SCHEMA_VERSION,
        accepted: Some(identity),
        retained: current.accepted_identity,
        retiring: current.retained_identity,
        last_operation: Some(operation),
    }
}

/// The current document without its retirement marker.
pub open spec fn cleared_document(current: LoadedCurrentView) -> CurrentView {
    CurrentView {
        store_schema_version: LOCAL_INSTALL_GENERATION_STORE_SCHEMA_VERSION,
        accepted: current.accepted_identity,
        retained: current.retained_identity,
        retiring: None,
        last_operation: current.operation,
    }
}

/// Why a staged current document may not replace the current one, if so.
pub open spec fn successor_problem(current: LoadedCurrentView, next: LoadedCurrentView) -> Option<
    StoreErrorView,
> {
    let completes_cleanup = current.retiring_identity is Some && next.retiring_identity is None
        && next.accepted_identity == current.accepted_identity && next.retained_identity
        == current.retained_identity && next.operation == current.operation;
    if completes_cleanup {
        None
    } else {
        match next.snapshot.state.accepted {
            None => Some(
                local_install_generation_store::recovery_required(
                    "the staged current document does not name a successor"@,
                ),
            ),
            Some(accepted) => if current.retiring_identity is Some || accepted.predecessor
                != current.accepted_identity || next.retained_identity != current.accepted_identity
                || next.retiring_identity != current.retained_identity {
                Some(
                    local_install_generation_store::recovery_required(
                        "the staged current document is not the exact accepted successor"@,
                    ),
                )
            } else {
                None
            },
        }
    }
}

pub open spec fn write_step(
    document: CurrentView,
    cleanup: bool,
    disposition: LocalInstallGenerationRecoveryDisposition,
) -> Result<StepView, StoreErrorView> {
    match local_install_store_documents::encoded_current(document) {
        Err(e) => Err(e),
        Ok(bytes) => Ok(
            StepView::Perform {
                action: ActionView::StageCurrentNext { bytes },
                next: PhaseView::SwitchCurrent { cleanup, disposition },
            },
        ),
    }
}

pub open spec fn clear_step(
    store: StoreView,
    disposition: LocalInstallGenerationRecoveryDisposition,
) -> Result<StepView, StoreErrorView> {
    match local_install_store_observation::current_state(store) {
        Err(e) => Err(e),
        Ok(current) => if current.retiring_identity is None {
            Ok(StepView::Finished { disposition })
        } else if current.operation is None {
            Err(
                local_install_generation_store::corrupt(
                    "cleanup debt has no accepted operation identity"@,
                ),
            )
        } else {
            write_step(cleared_document(current), false, disposition)
        },
    }
}

pub open spec fn retire_step(
    store: StoreView,
    name: Seq<char>,
    identity: IdentityView,
    disposition: LocalInstallGenerationRecoveryDisposition,
) -> Result<StepView, StoreErrorView> {
    match local_install_store_observation::directory_named(store.generations, name) {
        None => Err(
            local_install_generation_store::recovery_required(
                "cleanup generation changed before removal"@,
            ),
        ),
        Some(directory) => match local_install_store_observation::complete_generation(
            directory,
            store.owner,
            None,
            Some(identity),
        ) {
            Err(e) => Err(e),
            Ok(_) => match local_install_generation_store::named_retirement(identity) {
                Err(e) => Err(e),
                Ok(retirement_name) => if local_install_store_observation::directory_named(
                    store.staged,
                    retirement_name,
                ) is Some {
                    Err(
                        local_install_generation_store::recovery_required(
                            "the superseded generation already has retirement debt"@,
                        ),
                    )
                } else {
                    Ok(
                        StepView::Perform {
                            action: ActionView::RetireGeneration {
                                generation_name: name,
                                retirement_name,
                            },
                            next: PhaseView::FinishRetirement { retirement_name, disposition },
                        },
                    )
                },
            },
        },
    }
}

/// Which part of a retirement is removed next.
pub open spec fn dismantle_step(
    store: StoreView,
    directory: DirectoryView,
    identity: IdentityView,
    disposition: LocalInstallGenerationRecoveryDisposition,
) -> Result<StepView, StoreErrorView> {
    let retirement_name = directory.name;
    let again = PhaseView::FinishRetirement { retirement_name, disposition };
    match directory.entries {
        Err(e) => Err(e),
        Ok(entries) => if entries == local_install_store_observation::complete_entries() {
            match local_install_store_observation::complete_generation(
                directory,
                store.owner,
                None,
                Some(identity),
            ) {
                Err(e) => Err(e),
                Ok(_) => Ok(
                    StepView::Perform {
                        action: ActionView::RemoveRetiredBinary { retirement_name },
                        next: again,
                    },
                ),
            }
        } else if entries == seq!["generation.json"@] {
            match directory.document {
                Err(e) => Err(e),
                Ok(document) => match local_install_store_documents::decoded_generation(
                    document.bytes,
                    document.parsed,
                ) {
                    Err(e) => Err(e),
                    Ok(loaded) => if loaded.generation.identity != identity {
                        Err(
                            local_install_generation_store::conflict(
                                "the retiring generation document does not match its name"@,
                            ),
                        )
                    } else {
                        Ok(
                            StepView::Perform {
                                action: ActionView::RemoveRetiredDocument { retirement_name },
                                next: again,
                            },
                        )
                    },
                },
            }
        } else if entries.len() == 0 {
            match directory.still_named {
                Err(e) => Err(e),
                Ok(_) => Ok(
                    StepView::Perform {
                        action: ActionView::RemoveRetiredDirectory { retirement_name },
                        next: PhaseView::ClearMarker { disposition },
                    },
                ),
            }
        } else {
            Err(
                local_install_generation_store::recovery_required(
                    "the retiring generation has an unsafe partial-cleanup shape"@,
                ),
            )
        },
    }
}

pub open spec fn retirement_step(
    store: StoreView,
    retirement_name: Seq<char>,
    disposition: LocalInstallGenerationRecoveryDisposition,
) -> Result<StepView, StoreErrorView> {
    match local_install_generation_store::retirement_named(retirement_name) {
        Err(e) => Err(e),
        Ok(identity) => match local_install_store_observation::current_state(store) {
            Err(e) => Err(e),
            Ok(current) => if current.accepted_identity == Some(identity)
                || current.retained_identity == Some(identity) {
                Err(
                    local_install_generation_store::recovery_required(
                        "a referenced generation cannot be retired"@,
                    ),
                )
            } else if current.retiring_identity != Some(identity) {
                Err(
                    local_install_generation_store::recovery_required(
                        "retirement debt is not the exact superseded predecessor"@,
                    ),
                )
            } else {
                match local_install_store_observation::directory_named(
                    store.staged,
                    retirement_name,
                ) {
                    None => Err(
                        local_install_generation_store::recovery_required(
                            "the retiring generation changed during cleanup"@,
                        ),
                    ),
                    Some(directory) => match directory.opened {
                        Err(e) => Err(e),
                        Ok(_) => dismantle_step(store, directory, identity, disposition),
                    },
                }
            },
        },
    }
}

pub open spec fn cleanup_step(
    store: StoreView,
    disposition: LocalInstallGenerationRecoveryDisposition,
) -> Result<StepView, StoreErrorView> {
    match local_install_store_observation::current_state(store) {
        Err(e) => Err(e),
        Ok(current) => match extra_names(store, current) {
            Err(e) => Err(e),
            Ok(extras) => if extras.len() > 1 {
                Err(
                    local_install_generation_store::recovery_required(
                        "local-install cleanup debt exceeds the retained-generation bound"@,
                    ),
                )
            } else {
                match current.retiring_identity {
                    None => if extras.len() == 0 {
                        Ok(StepView::Finished { disposition })
                    } else {
                        Err(
                            local_install_generation_store::recovery_required(
                                "an unreferenced generation has no durable retirement authority"@,
                            ),
                        )
                    },
                    Some(expected) => if extras.len() == 0 {
                        clear_step(store, disposition)
                    } else {
                        match local_install_generation_store::generation_named(extras[0]) {
                            Err(e) => Err(e),
                            Ok(identity) => if identity != expected {
                                Err(
                                    local_install_generation_store::recovery_required(
                                        "cleanup debt does not match the durable retirement identity"@,
                                    ),
                                )
                            } else {
                                match local_install_store_observation::loaded_generation(
                                    store,
                                    identity,
                                ) {
                                    Err(e) => Err(e),
                                    Ok(_) => retire_step(store, extras[0], identity, disposition),
                                }
                            },
                        }
                    },
                }
            },
        },
    }
}

pub open spec fn next_step(store: StoreView, next: LoadedCurrentView) -> Result<
    StepView,
    StoreErrorView,
> {
    match local_install_store_observation::current_state(store) {
        Err(e) => Err(e),
        Ok(current) => if next.bytes == current.bytes {
            Ok(
                StepView::Perform {
                    action: ActionView::RemoveCurrentNext,
                    next: PhaseView::Done {
                        disposition: LocalInstallGenerationRecoveryDisposition::RemovedDuplicateStage,
                    },
                },
            )
        } else {
            match successor_problem(current, next) {
                Some(problem) => Err(problem),
                None => Ok(
                    StepView::Perform {
                        action: ActionView::SwitchCurrentNext,
                        next: PhaseView::Cleanup {
                            disposition:
                                LocalInstallGenerationRecoveryDisposition::CompletedCurrentSwitch,
                        },
                    },
                ),
            }
        },
    }
}

/// What a complete staged operation asks for.
pub open spec fn adopt_step(
    store: StoreView,
    stage_name: Seq<char>,
    loaded: LoadedGenerationView,
    current: LoadedCurrentView,
) -> Result<StepView, StoreErrorView> {
    if current.retained_operation is Some && current.retained_operation->0.id
        == loaded.operation.id {
        Err(
            local_install_generation_store::conflict(
                "the staged operation identity already belongs to a retained generation"@,
            ),
        )
    } else if current.accepted_identity == Some(loaded.generation.identity) {
        if current.operation == Some(loaded.operation) {
            Ok(
                StepView::Perform {
                    action: ActionView::RemoveStaged { stage_name },
                    next: PhaseView::Done {
                        disposition: LocalInstallGenerationRecoveryDisposition::RemovedDuplicateStage,
                    },
                },
            )
        } else {
            Err(
                local_install_generation_store::conflict(
                    "the staged operation conflicts with the accepted generation"@,
                ),
            )
        }
    } else if loaded.generation.predecessor != current.accepted_identity {
        Err(
            local_install_generation_store::conflict(
                "the staged operation does not succeed the accepted generation"@,
            ),
        )
    } else {
        publish_step(
            store,
            stage_name,
            loaded,
            PhaseView::WriteCurrent {
                document: successor_document(current, loaded.generation.identity, loaded.operation),
                cleanup: true,
                disposition: LocalInstallGenerationRecoveryDisposition::CompletedStagedGeneration,
            },
        )
    }
}

/// Publishes a staged operation, or drops it where it is published already.
pub open spec fn publish_step(
    store: StoreView,
    stage_name: Seq<char>,
    loaded: LoadedGenerationView,
    next: PhaseView,
) -> Result<StepView, StoreErrorView> {
    match local_install_generation_store::named_generation(loaded.generation.identity) {
        Err(e) => Err(e),
        Ok(generation_name) => if local_install_store_observation::directory_named(
            store.generations,
            generation_name,
        ) is None {
            Ok(
                StepView::Perform {
                    action: ActionView::PublishStaged { stage_name, generation_name },
                    next,
                },
            )
        } else {
            match local_install_store_observation::loaded_generation(
                store,
                loaded.generation.identity,
            ) {
                Err(e) => Err(e),
                Ok(published) => if published.operation != loaded.operation
                    || published.document_bytes != loaded.document_bytes {
                    Err(
                        local_install_generation_store::conflict(
                            "the staged operation conflicts with an existing generation"@,
                        ),
                    )
                } else {
                    Ok(
                        StepView::Perform { action: ActionView::RemoveStaged { stage_name }, next },
                    )
                },
            }
        },
    }
}

pub open spec fn staged_step(store: StoreView, stage_name: Seq<char>) -> Result<
    StepView,
    StoreErrorView,
> {
    match local_install_store_observation::directory_named(store.staged, stage_name) {
        None => Err(
            local_install_generation_store::recovery_required(
                "the staged local-install operation changed during recovery"@,
            ),
        ),
        Some(directory) => match directory.opened {
            Err(e) => Err(e),
            Ok(_) => match local_install_generation_store::operation_named(stage_name) {
                Err(e) => Err(e),
                Ok(operation) => match local_install_store_observation::complete_generation(
                    directory,
                    store.owner,
                    Some(operation),
                    None,
                ) {
                    Err(e) => Err(e),
                    Ok(loaded) => match local_install_store_observation::current_state(store) {
                        Err(e) => Err(e),
                        Ok(current) => adopt_step(store, stage_name, loaded, current),
                    },
                },
            },
        },
    }
}

/// What one unreferenced generation asks for.
pub open spec fn orphan_step(
    store: StoreView,
    name: Seq<char>,
    current: LoadedCurrentView,
) -> Result<StepView, StoreErrorView> {
    match local_install_generation_store::generation_named(name) {
        Err(e) => Err(e),
        Ok(identity) => match local_install_store_observation::loaded_generation(store, identity) {
            Err(e) => Err(e),
            Ok(orphan) => if current.retained_operation is Some && current.retained_operation->0.id
                == orphan.operation.id {
                Err(
                    local_install_generation_store::conflict(
                        "the orphan operation identity already belongs to a retained generation"@,
                    ),
                )
            } else if orphan.generation.predecessor == current.accepted_identity {
                write_step(
                    successor_document(current, orphan.generation.identity, orphan.operation),
                    true,
                    LocalInstallGenerationRecoveryDisposition::CompletedCurrentSwitch,
                )
            } else if current.retiring_identity == Some(orphan.generation.identity) {
                retire_step(
                    store,
                    name,
                    identity,
                    LocalInstallGenerationRecoveryDisposition::RemovedCleanupDebt,
                )
            } else {
                Err(
                    local_install_generation_store::recovery_required(
                        "an unreferenced local-install generation is not an exact recoverable transition"@,
                    ),
                )
            },
        },
    }
}

pub open spec fn unreferenced_step(store: StoreView) -> Result<StepView, StoreErrorView> {
    match local_install_store_observation::current_state(store) {
        Err(e) => Err(e),
        Ok(current) => match extra_names(store, current) {
            Err(e) => Err(e),
            Ok(extras) => if extras.len() == 0 {
                if current.retiring_identity is Some {
                    clear_step(store, LocalInstallGenerationRecoveryDisposition::RemovedCleanupDebt)
                } else {
                    Ok(
                        StepView::Finished {
                            disposition: LocalInstallGenerationRecoveryDisposition::Clean,
                        },
                    )
                }
            } else if extras.len() != 1 {
                Err(
                    local_install_generation_store::recovery_required(
                        "multiple unreferenced local-install generations require inspection"@,
                    ),
                )
            } else {
                orphan_step(store, extras[0], current)
            },
        },
    }
}

pub open spec fn is_ambiguous(operations: nat, retirements: nat, next_present: bool) -> bool {
    ||| operations > 1
    ||| retirements > 1
    ||| next_present && (operations > 0 || retirements > 0)
    ||| operations > 0 && retirements > 0
}

pub open spec fn inspect_step(store: StoreView) -> Result<StepView, StoreErrorView> {
    match store.staged_names {
        Err(e) => Err(e),
        Ok(names) => match store.current_next_present {
            Err(e) => Err(e),
            Ok(next_present) => {
                let operations = selected(names, true);
                let retirements = selected(names, false);
                if is_ambiguous(operations.len(), retirements.len(), next_present) {
                    Err(
                        local_install_generation_store::recovery_required(
                            "the local-install store contains ambiguous concurrent recovery debt"@,
                        ),
                    )
                } else {
                    match local_install_store_observation::next_state(store) {
                        Err(e) => Err(e),
                        Ok(Some(next)) => next_step(store, next),
                        Ok(None) => if retirements.len() > 0 {
                            retirement_step(
                                store,
                                retirements[0],
                                LocalInstallGenerationRecoveryDisposition::RemovedCleanupDebt,
                            )
                        } else if operations.len() > 0 {
                            staged_step(store, operations[0])
                        } else {
                            unreferenced_step(store)
                        },
                    }
                }
            },
        },
    }
}

/// What [`recovery_step`] answers.
pub open spec fn recovery_decision(phase: PhaseView, store: StoreView) -> Result<
    StepView,
    StoreErrorView,
> {
    match phase {
        PhaseView::Inspect => inspect_step(store),
        PhaseView::WriteCurrent { document, cleanup, disposition } => write_step(
            document,
            cleanup,
            disposition,
        ),
        PhaseView::SwitchCurrent { cleanup, disposition } => Ok(
            StepView::Perform {
                action: ActionView::SwitchCurrentNext,
                next: if cleanup {
                    PhaseView::Cleanup { disposition }
                } else {
                    PhaseView::Done { disposition }
                },
            },
        ),
        PhaseView::Cleanup { disposition } => cleanup_step(store, disposition),
        PhaseView::FinishRetirement { retirement_name, disposition } => retirement_step(
            store,
            retirement_name,
            disposition,
        ),
        PhaseView::ClearMarker { disposition } => clear_step(store, disposition),
        PhaseView::Done { disposition } => Ok(StepView::Finished { disposition }),
    }
}

fn copied_names(names: &Vec<String>, index: usize) -> (name: String)
    requires
        index < names@.len(),
    ensures
        name@ == outcome::seq_view(names@)[index as int],
{
    names[index].clone()
}

fn select_names(names: &Vec<String>, operations: bool) -> (chosen: Vec<String>)
    ensures
        outcome::seq_view(chosen@) == selected(outcome::seq_view(names@), operations),
{
    let ghost all = outcome::seq_view(names@);
    let mut chosen: Vec<String> = Vec::new();
    let mut i: usize = 0;
    assert(outcome::seq_view(chosen@) =~= Seq::empty());
    assert(all.take(0) =~= Seq::empty());
    while i < names.len()
        invariant
            i <= names@.len(),
            all == outcome::seq_view(names@),
            outcome::seq_view(chosen@) == selected(all.take(i as int), operations),
        decreases names@.len() - i,
    {
        let ghost before = outcome::seq_view(chosen@);
        assert(all.take(i as int + 1).drop_last() =~= all.take(i as int));
        assert(all[i as int] == names@[i as int]@);
        if is_operation_directory_name(names[i].as_str()) == operations {
            chosen.push(names[i].clone());
            assert(outcome::seq_view(chosen@) =~= before.push(all[i as int]));
        }
        i += 1;
    }
    assert(all.take(i as int) =~= all);
    chosen
}

fn contains_name(names: &Vec<String>, name: &str) -> (r: bool)
    ensures
        r == outcome::seq_view(names@).contains(name@),
{
    let ghost all = outcome::seq_view(names@);
    let mut i: usize = 0;
    while i < names.len()
        invariant
            i <= names@.len(),
            all == outcome::seq_view(names@),
            forall|k: int| 0 <= k < i ==> all[k] != name@,
        decreases names@.len() - i,
    {
        assert(all[i as int] == names@[i as int]@);
        if text::same_text(names[i].as_str(), name) {
            return true;
        }
        i += 1;
    }
    false
}

fn unreferenced_names(names: &Vec<String>, referenced: &Vec<String>) -> (extras: Vec<String>)
    ensures
        outcome::seq_view(extras@) == unreferenced(
            outcome::seq_view(names@),
            outcome::seq_view(referenced@),
        ),
{
    let ghost all = outcome::seq_view(names@);
    let ghost kept = outcome::seq_view(referenced@);
    let mut extras: Vec<String> = Vec::new();
    let mut i: usize = 0;
    assert(outcome::seq_view(extras@) =~= Seq::empty());
    assert(all.take(0) =~= Seq::empty());
    while i < names.len()
        invariant
            i <= names@.len(),
            all == outcome::seq_view(names@),
            kept == outcome::seq_view(referenced@),
            outcome::seq_view(extras@) == unreferenced(all.take(i as int), kept),
        decreases names@.len() - i,
    {
        let ghost before = outcome::seq_view(extras@);
        assert(all.take(i as int + 1).drop_last() =~= all.take(i as int));
        assert(all[i as int] == names@[i as int]@);
        if !contains_name(referenced, names[i].as_str()) {
            extras.push(names[i].clone());
            assert(outcome::seq_view(extras@) =~= before.push(all[i as int]));
        }
        i += 1;
    }
    assert(all.take(i as int) =~= all);
    extras
}

/// The directory names of the accepted and the retained generation.
pub fn referenced_generation_names(current: &LoadedCurrent) -> (r: Result<
    Vec<String>,
    LocalInstallGenerationStoreError,
>)
    ensures
        match (r, referenced_names(current@)) {
            (Ok(a), Ok(b)) => outcome::seq_view(a@) == b,
            (Err(a), Err(b)) => a@ == b,
            _ => false,
        },
{
    let mut names: Vec<String> = Vec::new();
    assert(outcome::seq_view(names@) =~= Seq::empty());
    if let Some(identity) = &current.accepted_identity {
        names.push(generation_directory_name(identity)?);
    }
    assert(outcome::seq_view(names@) =~= named_option(current@.accepted_identity)->Ok_0);
    let ghost accepted = outcome::seq_view(names@);
    if let Some(identity) = &current.retained_identity {
        names.push(generation_directory_name(identity)?);
    }
    assert(outcome::seq_view(names@) =~= accepted + named_option(
        current@.retained_identity,
    )->Ok_0);
    Ok(names)
}

fn extra_generation_names(store: &StoreObservation, current: &LoadedCurrent) -> (r: Result<
    Vec<String>,
    LocalInstallGenerationStoreError,
>)
    ensures
        match (r, extra_names(store@, current@)) {
            (Ok(a), Ok(b)) => outcome::seq_view(a@) == b,
            (Err(a), Err(b)) => a@ == b,
            _ => false,
        },
{
    let referenced = referenced_generation_names(current)?;
    match &store.generation_names {
        Err(e) => Err(e.clone()),
        Ok(names) => Ok(unreferenced_names(names, &referenced)),
    }
}

fn same_record(left: &Option<OperationRecord>, right: &Option<OperationRecord>) -> (same: bool)
    ensures
        same == (outcome::option_view(*left) == outcome::option_view(*right)),
{
    match (left, right) {
        (Some(a), Some(b)) => a.same_as(b),
        (None, None) => true,
        _ => false,
    }
}

fn is_identity(
    identity: &Option<LocalInstallGenerationIdentity>,
    value: &LocalInstallGenerationIdentity,
) -> (r: bool)
    ensures
        r == (outcome::option_view(*identity) == Some(value@)),
{
    match identity {
        Some(other) => other.same_as(value),
        None => false,
    }
}

/// The document that accepts a successor of the current state.
pub fn current_successor(
    current: &LoadedCurrent,
    identity: &LocalInstallGenerationIdentity,
    operation: &OperationRecord,
) -> (document: CurrentDocument)
    ensures
        document@ == successor_document(current@, identity@, operation@),
{
    let accepted = identity_wire(&Some(identity.clone()));
    CurrentDocument {
        store_schema_version: LOCAL_INSTALL_GENERATION_STORE_SCHEMA_VERSION,
        accepted,
        retained: identity_wire(&current.accepted_identity),
        retiring: identity_wire(&current.retained_identity),
        last_operation: Some(operation.wire()),
    }
}

/// Checks that a staged current document may replace the current one: it
/// completes a cleanup, or names the exact successor.
pub fn require_current_successor(current: &LoadedCurrent, next: &LoadedCurrent) -> (r: Result<
    (),
    LocalInstallGenerationStoreError,
>)
    ensures
        outcome::is_check(
            r,
            match successor_problem(current@, next@) {
                Some(problem) => Err(problem),
                None => Ok(()),
            },
        ),
{
    if current.retiring_identity.is_some() && next.retiring_identity.is_none() && same_identity(
        &next.accepted_identity,
        &current.accepted_identity,
    ) && same_identity(&next.retained_identity, &current.retained_identity) && same_record(
        &next.operation,
        &current.operation,
    ) {
        return Ok(());
    }
    let accepted = match &next.snapshot.state().accepted {
        Some(accepted) => accepted,
        None => {
            return Err(
                store_error(
                    LocalInstallGenerationStoreErrorKind::RecoveryRequired,
                    "the staged current document does not name a successor",
                ),
            );
        },
    };
    if current.retiring_identity.is_some() || !same_identity(
        &accepted.predecessor,
        &current.accepted_identity,
    ) || !same_identity(&next.retained_identity, &current.accepted_identity) || !same_identity(
        &next.retiring_identity,
        &current.retained_identity,
    ) {
        return Err(
            store_error(
                LocalInstallGenerationStoreErrorKind::RecoveryRequired,
                "the staged current document is not the exact accepted successor",
            ),
        );
    }
    Ok(())
}

fn write_current(
    document: &CurrentDocument,
    cleanup: bool,
    disposition: LocalInstallGenerationRecoveryDisposition,
) -> (r: Result<RecoveryStep, LocalInstallGenerationStoreError>)
    ensures
        outcome::is_outcome(r, write_step(document@, cleanup, disposition)),
{
    let bytes = encode_current(document)?;
    Ok(
        RecoveryStep::Perform {
            action: StoreAction::StageCurrentNext { bytes },
            next: RecoveryPhase::SwitchCurrent { cleanup, disposition },
        },
    )
}

fn clear_retirement_marker(
    store: &StoreObservation,
    disposition: LocalInstallGenerationRecoveryDisposition,
) -> (r: Result<RecoveryStep, LocalInstallGenerationStoreError>)
    ensures
        outcome::is_outcome(r, clear_step(store@, disposition)),
{
    let current = load_current(store)?;
    if current.retiring_identity.is_none() {
        return Ok(RecoveryStep::Finished { disposition });
    }
    let operation = match &current.operation {
        Some(operation) => operation,
        None => {
            return Err(
                store_error(
                    LocalInstallGenerationStoreErrorKind::CorruptState,
                    "cleanup debt has no accepted operation identity",
                ),
            );
        },
    };
    let document = CurrentDocument {
        store_schema_version: LOCAL_INSTALL_GENERATION_STORE_SCHEMA_VERSION,
        accepted: identity_wire(&current.accepted_identity),
        retained: identity_wire(&current.retained_identity),
        retiring: None,
        last_operation: Some(operation.wire()),
    };
    assert(document@ == cleared_document(current@));
    write_current(&document, false, disposition)
}

fn retire_generation(
    store: &StoreObservation,
    name: &str,
    identity: &LocalInstallGenerationIdentity,
    disposition: LocalInstallGenerationRecoveryDisposition,
) -> (r: Result<RecoveryStep, LocalInstallGenerationStoreError>)
    ensures
        outcome::is_outcome(r, retire_step(store@, name@, identity@, disposition)),
{
    let directory = match find_directory(&store.generations, name) {
        Some(directory) => directory,
        None => {
            return Err(
                store_error(
                    LocalInstallGenerationStoreErrorKind::RecoveryRequired,
                    "cleanup generation changed before removal",
                ),
            );
        },
    };
    verify_complete_generation_directory(directory, store.owner, None, Some(identity))?;
    let retirement_name = retirement_directory_name(identity)?;
    if find_directory(&store.staged, retirement_name.as_str()).is_some() {
        return Err(
            store_error(
                LocalInstallGenerationStoreErrorKind::RecoveryRequired,
                "the superseded generation already has retirement debt",
            ),
        );
    }
    Ok(
        RecoveryStep::Perform {
            action: StoreAction::RetireGeneration {
                generation_name: name.to_owned(),
                retirement_name: retirement_name.clone(),
            },
            next: RecoveryPhase::FinishRetirement { retirement_name, disposition },
        },
    )
}

fn dismantle_retirement(
    store: &StoreObservation,
    directory: &DirectoryObservation,
    identity: &LocalInstallGenerationIdentity,
    disposition: LocalInstallGenerationRecoveryDisposition,
) -> (r: Result<RecoveryStep, LocalInstallGenerationStoreError>)
    ensures
        outcome::is_outcome(r, dismantle_step(store@, directory@, identity@, disposition)),
{
    let entries = match &directory.entries {
        Ok(entries) => entries,
        Err(e) => {
            return Err(e.clone());
        },
    };
    let ghost view = outcome::seq_view(entries@);
    if has_complete_entries(entries) {
        verify_complete_generation_directory(directory, store.owner, None, Some(identity))?;
        return Ok(
            RecoveryStep::Perform {
                action: StoreAction::RemoveRetiredBinary {
                    retirement_name: directory.name.clone(),
                },
                next: RecoveryPhase::FinishRetirement {
                    retirement_name: directory.name.clone(),
                    disposition,
                },
            },
        );
    }
    let document_only = entries.len() == 1 && text::same_text(
        entries[0].as_str(),
        GENERATION_DOCUMENT,
    );
    proof {
        if entries@.len() == 1 {
            assert(view[0] == entries@[0]@);
            if document_only {
                assert(view =~= seq!["generation.json"@]);
            } else {
                assert(view[0] != seq!["generation.json"@][0]);
            }
        } else {
            assert(view.len() != seq!["generation.json"@].len());
        }
    }
    if document_only {
        let document = match &directory.document {
            Ok(document) => document,
            Err(e) => {
                return Err(e.clone());
            },
        };
        let loaded = decode_generation_document(document.bytes.as_slice(), &document.parsed)?;
        if !loaded.generation.identity.same_as(identity) {
            return Err(
                store_error(
                    LocalInstallGenerationStoreErrorKind::Conflict,
                    "the retiring generation document does not match its name",
                ),
            );
        }
        return Ok(
            RecoveryStep::Perform {
                action: StoreAction::RemoveRetiredDocument {
                    retirement_name: directory.name.clone(),
                },
                next: RecoveryPhase::FinishRetirement {
                    retirement_name: directory.name.clone(),
                    disposition,
                },
            },
        );
    }
    if entries.len() == 0 {
        if let Err(e) = &directory.still_named {
            return Err(e.clone());
        }
        return Ok(
            RecoveryStep::Perform {
                action: StoreAction::RemoveRetiredDirectory {
                    retirement_name: directory.name.clone(),
                },
                next: RecoveryPhase::ClearMarker { disposition },
            },
        );
    }
    Err(
        store_error(
            LocalInstallGenerationStoreErrorKind::RecoveryRequired,
            "the retiring generation has an unsafe partial-cleanup shape",
        ),
    )
}

fn finish_retirement(
    store: &StoreObservation,
    retirement_name: &str,
    disposition: LocalInstallGenerationRecoveryDisposition,
) -> (r: Result<RecoveryStep, LocalInstallGenerationStoreError>)
    ensures
        outcome::is_outcome(r, retirement_step(store@, retirement_name@, disposition)),
{
    let identity = identity_from_retirement_directory_name(retirement_name)?;
    let current = load_current(store)?;
    if is_identity(&current.accepted_identity, &identity) || is_identity(
        &current.retained_identity,
        &identity,
    ) {
        return Err(
            store_error(
                LocalInstallGenerationStoreErrorKind::RecoveryRequired,
                "a referenced generation cannot be retired",
            ),
        );
    }
    if !is_identity(&current.retiring_identity, &identity) {
        return Err(
            store_error(
                LocalInstallGenerationStoreErrorKind::RecoveryRequired,
                "retirement debt is not the exact superseded predecessor",
            ),
        );
    }
    let directory = match find_directory(&store.staged, retirement_name) {
        Some(directory) => directory,
        None => {
            return Err(
                store_error(
                    LocalInstallGenerationStoreErrorKind::RecoveryRequired,
                    "the retiring generation changed during cleanup",
                ),
            );
        },
    };
    if let Err(e) = &directory.opened {
        return Err(e.clone());
    }
    dismantle_retirement(store, directory, &identity, disposition)
}

fn cleanup_unreferenced_generations(
    store: &StoreObservation,
    disposition: LocalInstallGenerationRecoveryDisposition,
) -> (r: Result<RecoveryStep, LocalInstallGenerationStoreError>)
    ensures
        outcome::is_outcome(r, cleanup_step(store@, disposition)),
{
    let current = load_current(store)?;
    let extras = extra_generation_names(store, &current)?;
    if extras.len() > 1 {
        return Err(
            store_error(
                LocalInstallGenerationStoreErrorKind::RecoveryRequired,
                "local-install cleanup debt exceeds the retained-generation bound",
            ),
        );
    }
    match &current.retiring_identity {
        None => {
            if extras.len() == 0 {
                Ok(RecoveryStep::Finished { disposition })
            } else {
                Err(
                    store_error(
                        LocalInstallGenerationStoreErrorKind::RecoveryRequired,
                        "an unreferenced generation has no durable retirement authority",
                    ),
                )
            }
        },
        Some(expected) => {
            if extras.len() == 0 {
                return clear_retirement_marker(store, disposition);
            }
            let name = copied_names(&extras, 0);
            let identity = identity_from_generation_directory_name(name.as_str())?;
            if !identity.same_as(expected) {
                return Err(
                    store_error(
                        LocalInstallGenerationStoreErrorKind::RecoveryRequired,
                        "cleanup debt does not match the durable retirement identity",
                    ),
                );
            }
            load_generation(store, &identity)?;
            retire_generation(store, name.as_str(), &identity, disposition)
        },
    }
}

fn resolve_current_next(store: &StoreObservation, next: &LoadedCurrent) -> (r: Result<
    RecoveryStep,
    LocalInstallGenerationStoreError,
>)
    ensures
        outcome::is_outcome(r, next_step(store@, next@)),
{
    let current = load_current(store)?;
    if same_bytes(next.bytes.as_slice(), current.bytes.as_slice()) {
        return Ok(
            RecoveryStep::Perform {
                action: StoreAction::RemoveCurrentNext,
                next: RecoveryPhase::Done {
                    disposition: LocalInstallGenerationRecoveryDisposition::RemovedDuplicateStage,
                },
            },
        );
    }
    require_current_successor(&current, next)?;
    Ok(
        RecoveryStep::Perform {
            action: StoreAction::SwitchCurrentNext,
            next: RecoveryPhase::Cleanup {
                disposition: LocalInstallGenerationRecoveryDisposition::CompletedCurrentSwitch,
            },
        },
    )
}

/// Publishes a staged operation, or drops it where it is published already.
pub(crate) fn publish_staged(
    store: &StoreObservation,
    stage_name: &str,
    loaded: &LoadedGeneration,
    next: RecoveryPhase,
) -> (r: Result<RecoveryStep, LocalInstallGenerationStoreError>)
    ensures
        outcome::is_outcome(r, publish_step(store@, stage_name@, loaded@, next@)),
{
    let generation_name = generation_directory_name(&loaded.generation.identity)?;
    if find_directory(&store.generations, generation_name.as_str()).is_none() {
        return Ok(
            RecoveryStep::Perform {
                action: StoreAction::PublishStaged {
                    stage_name: stage_name.to_owned(),
                    generation_name,
                },
                next,
            },
        );
    }
    let published = load_generation(store, &loaded.generation.identity)?;
    if !published.operation.same_as(&loaded.operation) || !same_bytes(
        published.document_bytes.as_slice(),
        loaded.document_bytes.as_slice(),
    ) {
        return Err(
            store_error(
                LocalInstallGenerationStoreErrorKind::Conflict,
                "the staged operation conflicts with an existing generation",
            ),
        );
    }
    Ok(
        RecoveryStep::Perform {
            action: StoreAction::RemoveStaged { stage_name: stage_name.to_owned() },
            next,
        },
    )
}

fn adopt_staged_operation(
    store: &StoreObservation,
    stage_name: &str,
    loaded: &LoadedGeneration,
    current: &LoadedCurrent,
) -> (r: Result<RecoveryStep, LocalInstallGenerationStoreError>)
    ensures
        outcome::is_outcome(r, adopt_step(store@, stage_name@, loaded@, current@)),
{
    let reused = match &current.retained_operation {
        Some(record) => record.id.same_as(&loaded.operation.id),
        None => false,
    };
    if reused {
        return Err(
            store_error(
                LocalInstallGenerationStoreErrorKind::Conflict,
                "the staged operation identity already belongs to a retained generation",
            ),
        );
    }
    if is_identity(&current.accepted_identity, &loaded.generation.identity) {
        let same_operation = match &current.operation {
            Some(record) => record.same_as(&loaded.operation),
            None => false,
        };
        if same_operation {
            return Ok(
                RecoveryStep::Perform {
                    action: StoreAction::RemoveStaged { stage_name: stage_name.to_owned() },
                    next: RecoveryPhase::Done {
                        disposition: LocalInstallGenerationRecoveryDisposition::RemovedDuplicateStage,
                    },
                },
            );
        }
        return Err(
            store_error(
                LocalInstallGenerationStoreErrorKind::Conflict,
                "the staged operation conflicts with the accepted generation",
            ),
        );
    }
    if !same_identity(&loaded.generation.predecessor, &current.accepted_identity) {
        return Err(
            store_error(
                LocalInstallGenerationStoreErrorKind::Conflict,
                "the staged operation does not succeed the accepted generation",
            ),
        );
    }
    let document = current_successor(current, &loaded.generation.identity, &loaded.operation);
    publish_staged(
        store,
        stage_name,
        loaded,
        RecoveryPhase::WriteCurrent {
            document,
            cleanup: true,
            disposition: LocalInstallGenerationRecoveryDisposition::CompletedStagedGeneration,
        },
    )
}

fn resolve_staged_operation(store: &StoreObservation, stage_name: &str) -> (r: Result<
    RecoveryStep,
    LocalInstallGenerationStoreError,
>)
    ensures
        outcome::is_outcome(r, staged_step(store@, stage_name@)),
{
    let directory = match find_directory(&store.staged, stage_name) {
        Some(directory) => directory,
        None => {
            return Err(
                store_error(
                    LocalInstallGenerationStoreErrorKind::RecoveryRequired,
                    "the staged local-install operation changed during recovery",
                ),
            );
        },
    };
    if let Err(e) = &directory.opened {
        return Err(e.clone());
    }
    let operation = operation_id_from_directory_name(stage_name)?;
    let loaded = verify_complete_generation_directory(
        directory,
        store.owner,
        Some(&operation),
        None,
    )?;
    let current = load_current(store)?;
    adopt_staged_operation(store, stage_name, &loaded, &current)
}

fn resolve_orphan(store: &StoreObservation, name: &str, current: &LoadedCurrent) -> (r: Result<
    RecoveryStep,
    LocalInstallGenerationStoreError,
>)
    ensures
        outcome::is_outcome(r, orphan_step(store@, name@, current@)),
{
    let identity = identity_from_generation_directory_name(name)?;
    let orphan = load_generation(store, &identity)?;
    let reused = match &current.retained_operation {
        Some(record) => record.id.same_as(&orphan.operation.id),
        None => false,
    };
    if reused {
        return Err(
            store_error(
                LocalInstallGenerationStoreErrorKind::Conflict,
                "the orphan operation identity already belongs to a retained generation",
            ),
        );
    }
    if same_identity(&orphan.generation.predecessor, &current.accepted_identity) {
        let document = current_successor(current, &orphan.generation.identity, &orphan.operation);
        return write_current(
            &document,
            true,
            LocalInstallGenerationRecoveryDisposition::CompletedCurrentSwitch,
        );
    }
    if is_identity(&current.retiring_identity, &orphan.generation.identity) {
        return retire_generation(
            store,
            name,
            &identity,
            LocalInstallGenerationRecoveryDisposition::RemovedCleanupDebt,
        );
    }
    Err(
        store_error(
            LocalInstallGenerationStoreErrorKind::RecoveryRequired,
            "an unreferenced local-install generation is not an exact recoverable transition",
        ),
    )
}

fn resolve_unreferenced(store: &StoreObservation) -> (r: Result<
    RecoveryStep,
    LocalInstallGenerationStoreError,
>)
    ensures
        outcome::is_outcome(r, unreferenced_step(store@)),
{
    let current = load_current(store)?;
    let extras = extra_generation_names(store, &current)?;
    if extras.len() == 0 {
        if current.retiring_identity.is_some() {
            return clear_retirement_marker(
                store,
                LocalInstallGenerationRecoveryDisposition::RemovedCleanupDebt,
            );
        }
        return Ok(
            RecoveryStep::Finished {
                disposition: LocalInstallGenerationRecoveryDisposition::Clean,
            },
        );
    }
    if extras.len() != 1 {
        return Err(
            store_error(
                LocalInstallGenerationStoreErrorKind::RecoveryRequired,
                "multiple unreferenced local-install generations require inspection",
            ),
        );
    }
    let name = copied_names(&extras, 0);
    resolve_orphan(store, name.as_str(), &current)
}

fn inspect_debt(store: &StoreObservation) -> (r: Result<
    RecoveryStep,
    LocalInstallGenerationStoreError,
>)
    ensures
        outcome::is_outcome(r, inspect_step(store@)),
{
    let names = match &store.staged_names {
        Ok(names) => names,
        Err(e) => {
            return Err(e.clone());
        },
    };
    let next_present = match &store.current_next_present {
        Ok(present) => *present,
        Err(e) => {
            return Err(e.clone());
        },
    };
    let operations = select_names(names, true);
    let retirements = select_names(names, false);
    if operations.len() > 1 || retirements.len() > 1 || (next_present && (operations.len() > 0
        || retirements.len() > 0)) || (operations.len() > 0 && retirements.len() > 0) {
        return Err(
            store_error(
                LocalInstallGenerationStoreErrorKind::RecoveryRequired,
                "the local-install store contains ambiguous concurrent recovery debt",
            ),
        );
    }
    if let Some(next) = load_current_next(store)? {
        return resolve_current_next(store, &next);
    }
    if retirements.len() > 0 {
        let name = copied_names(&retirements, 0);
        return finish_retirement(
            store,
            name.as_str(),
            LocalInstallGenerationRecoveryDisposition::RemovedCleanupDebt,
        );
    }
    if operations.len() > 0 {
        let name = copied_names(&operations, 0);
        return resolve_staged_operation(store, name.as_str());
    }
    resolve_unreferenced(store)
}

/// Decides the next step of recovering one exact unambiguous interrupted
/// transition; ambiguous, incomplete, foreign or corrupt debt is refused.
pub fn recovery_step(phase: RecoveryPhase, store: &StoreObservation) -> (r: Result<
    RecoveryStep,
    LocalInstallGenerationStoreError,
>)
    ensures
        outcome::is_outcome(r, recovery_decision(phase@, store@)),
{
    match phase {
        RecoveryPhase::Inspect => inspect_debt(store),
        RecoveryPhase::WriteCurrent { document, cleanup, disposition } => write_current(
            &document,
            cleanup,
            disposition,
        ),
        RecoveryPhase::SwitchCurrent { cleanup, disposition } => Ok(
            RecoveryStep::Perform {
                action: StoreAction::SwitchCurrentNext,
                next: if cleanup {
                    RecoveryPhase::Cleanup { disposition }
                } else {
                    RecoveryPhase::Done { disposition }
                },
            },
        ),
        RecoveryPhase::Cleanup { disposition } => cleanup_unreferenced_generations(
            store,
            disposition,
        ),
        RecoveryPhase::FinishRetirement { retirement_name, disposition } => finish_retirement(
            store,
            retirement_name.as_str(),
            disposition,
        ),
        RecoveryPhase::ClearMarker { disposition } => clear_retirement_marker(store, disposition),
        RecoveryPhase::Done { disposition } => Ok(RecoveryStep::Finished { disposition }),
    }
}

/// The receipt of a finished recovery: its disposition and the accepted state.
pub fn recovery_receipt(
    disposition: LocalInstallGenerationRecoveryDisposition,
    store: &StoreObservation,
) -> (r: Result<LocalInstallGenerationRecoveryReceipt, LocalInstallGenerationStoreError>)
    ensures
        outcome::is_outcome(
            r,
            match local_install_store_observation::current_state(store@) {
                Err(e) => Err(e),
                Ok(current) => Ok(RecoveryReceiptView { disposition, state: current.snapshot }),
            },
        ),
{
    let current = load_current(store)?;
    Ok(LocalInstallGenerationRecoveryReceipt::of_parts(disposition, current.snapshot))
}

/// What [`has_recovery_debt`] answers.
pub open spec fn recovery_debt(store: StoreView) -> Result<bool, StoreErrorView> {
    match store.staged_names {
        Err(e) => Err(e),
        Ok(names) => match store.current_next_present {
            Err(e) => Err(e),
            Ok(next_present) => if next_present || names.len() > 0 {
                Ok(true)
            } else {
                match local_install_store_observation::current_state(store) {
                    Err(e) => Err(e),
                    Ok(current) => if current.retiring_identity is Some {
                        Ok(true)
                    } else {
                        match extra_names(store, current) {
                            Err(e) => Err(e),
                            Ok(extras) => Ok(extras.len() > 0),
                        }
                    },
                }
            },
        },
    }
}

/// Whether an interrupted transition awaits recovery.
pub fn has_recovery_debt(store: &StoreObservation) -> (r: Result<
    bool,
    LocalInstallGenerationStoreError,
>)
    ensures
        match (r, recovery_debt(store@)) {
            (Ok(a), Ok(b)) => a == b,
            (Err(a), Err(b)) => a@ == b,
            _ => false,
        },
{
    let names = match &store.staged_names {
        Ok(names) => names,
        Err(e) => {
            return Err(e.clone());
        },
    };
    let next_present = match &store.current_next_present {
        Ok(present) => *present,
        Err(e) => {
            return Err(e.clone());
        },
    };
    if next_present || names.len() > 0 {
        return Ok(true);
    }
    let current = load_current(store)?;
    if current.retiring_identity.is_some() {
        return Ok(true);
    }
    let extras = extra_generation_names(store, &current)?;
    Ok(extras.len() > 0)
}

/// The action spares what the current document accepts and retains: what it
/// retires or takes apart is the generation that the document says is being
/// retired.
pub open spec fn is_sparing(store: StoreView, action: ActionView) -> bool {
    let state = local_install_store_observation::current_state(store);
    let current = state->Ok_0;
    match action {
        ActionView::RetireGeneration { generation_name, retirement_name } => {
            &&& state is Ok
            &&& current.retiring_identity is Some
            &&& generation_name == local_install_generation_store::generation_name(
                current.retiring_identity->0,
            )
            &&& retirement_name == local_install_generation_store::retirement_name(
                current.retiring_identity->0,
            )
        },
        ActionView::RemoveRetiredBinary { retirement_name }
        | ActionView::RemoveRetiredDocument { retirement_name }
        | ActionView::RemoveRetiredDirectory { retirement_name } => {
            &&& state is Ok
            &&& current.retiring_identity is Some
            &&& current.retiring_identity != current.accepted_identity
            &&& current.retiring_identity != current.retained_identity
            &&& retirement_name == local_install_generation_store::retirement_name(
                current.retiring_identity->0,
            )
        },
        ActionView::StageCandidate { .. } => false,
        _ => true,
    }
}

/// A step that does nothing, or performs a sparing action.
spec fn is_sparing_step(store: StoreView, step: Result<StepView, StoreErrorView>) -> bool {
    step matches Ok(StepView::Perform { action, .. }) ==> is_sparing(store, action)
}

proof fn lemma_retire_step_spares(
    store: StoreView,
    name: Seq<char>,
    identity: IdentityView,
    disposition: LocalInstallGenerationRecoveryDisposition,
)
    requires
        local_install_store_observation::current_state(store) matches Ok(current)
            && current.retiring_identity == Some(identity),
        local_install_generation_store::generation_named(name) == Ok::<
            IdentityView,
            StoreErrorView,
        >(identity),
    ensures
        is_sparing_step(store, retire_step(store, name, identity, disposition)),
{
    local_install_generation_store::law_generation_name_is_canonical(name);
}

proof fn lemma_retirement_step_spares(
    store: StoreView,
    retirement_name: Seq<char>,
    disposition: LocalInstallGenerationRecoveryDisposition,
)
    ensures
        is_sparing_step(store, retirement_step(store, retirement_name, disposition)),
{
    let step = retirement_step(store, retirement_name, disposition);
    if step is Ok {
        let identity = local_install_generation_store::retirement_named(retirement_name)->Ok_0;
        let directory = local_install_store_observation::directory_named(
            store.staged,
            retirement_name,
        )->0;
        local_install_generation_store::law_retirement_name_round_trip(identity, retirement_name);
        local_install_store_observation::law_directories_are_found_by_name(
            store.staged,
            retirement_name,
        );
        assert(step == dismantle_step(store, directory, identity, disposition));
        law_retirements_are_taken_apart_in_order(store, directory, identity, disposition);
    }
}

proof fn lemma_cleanup_step_spares(
    store: StoreView,
    disposition: LocalInstallGenerationRecoveryDisposition,
)
    ensures
        is_sparing_step(store, clear_step(store, disposition)),
        is_sparing_step(store, cleanup_step(store, disposition)),
{
    let current = local_install_store_observation::current_state(store)->Ok_0;
    if cleanup_step(store, disposition) is Ok && current.retiring_identity is Some {
        let extras = extra_names(store, current)->Ok_0;
        if extras.len() > 0 {
            let identity = local_install_generation_store::generation_named(extras[0])->Ok_0;
            lemma_retire_step_spares(store, extras[0], identity, disposition);
        }
    }
}

proof fn lemma_unreferenced_step_spares(store: StoreView)
    ensures
        is_sparing_step(store, unreferenced_step(store)),
{
    let current = local_install_store_observation::current_state(store)->Ok_0;
    let disposition = LocalInstallGenerationRecoveryDisposition::RemovedCleanupDebt;
    lemma_cleanup_step_spares(store, disposition);
    if unreferenced_step(store) is Ok {
        let extras = extra_names(store, current)->Ok_0;
        if extras.len() == 1 {
            let identity = local_install_generation_store::generation_named(extras[0])->Ok_0;
            let orphan = local_install_store_observation::loaded_generation(store, identity)->Ok_0;
            local_install_generation_store::law_generation_name_is_canonical(extras[0]);
            local_install_store_observation::law_generations_are_loaded_by_their_name(
                store,
                identity,
            );
            local_install_store_observation::law_complete_generations_match_their_documents(
                local_install_store_observation::directory_named(
                    store.generations,
                    local_install_generation_store::generation_name(identity),
                )->0,
                store.owner,
                None,
                Some(identity),
            );
            assert(orphan.generation.identity == identity);
            if current.retiring_identity == Some(identity) {
                lemma_retire_step_spares(store, extras[0], identity, disposition);
            }
        }
    }
}

proof fn lemma_inspect_step_spares(store: StoreView)
    ensures
        is_sparing_step(store, inspect_step(store)),
{
    let names = store.staged_names->Ok_0;
    let retirements = selected(names, false);
    lemma_retirement_step_spares(
        store,
        retirements[0],
        LocalInstallGenerationRecoveryDisposition::RemovedCleanupDebt,
    );
    lemma_unreferenced_step_spares(store);
    assert(is_sparing_step(store, staged_step(store, selected(names, true)[0])));
    let next = local_install_store_observation::next_state(store);
    if next is Ok && next->Ok_0 is Some {
        assert(is_sparing_step(store, next_step(store, next->Ok_0->0)));
    }
}

/// Whatever recovery retires or takes apart is what the current document says
/// is being retired: nothing that the document accepts or retains is ever taken
/// away, and recovery never stages a candidate.
pub proof fn law_recovery_takes_only_what_is_retired(phase: PhaseView, store: StoreView)
    ensures
        recovery_decision(phase, store) matches Ok(StepView::Perform { action, .. }) ==> is_sparing(
            store,
            action,
        ),
{
    match phase {
        PhaseView::Inspect => lemma_inspect_step_spares(store),
        PhaseView::Cleanup { disposition } => lemma_cleanup_step_spares(store, disposition),
        PhaseView::ClearMarker { disposition } => lemma_cleanup_step_spares(store, disposition),
        PhaseView::FinishRetirement { retirement_name, disposition } => {
            lemma_retirement_step_spares(store, retirement_name, disposition)
        },
        _ => {},
    }
}

/// The binary of a retirement goes first, then its document, then the
/// directory, each only when what is left is exactly what the step before
/// leaves, and only then is the marker cleared.
pub proof fn law_retirements_are_taken_apart_in_order(
    store: StoreView,
    directory: DirectoryView,
    identity: IdentityView,
    disposition: LocalInstallGenerationRecoveryDisposition,
)
    ensures
        ({
            let step = dismantle_step(store, directory, identity, disposition);
            let retirement_name = directory.name;
            let entries = directory.entries;
            &&& step is Ok ==> entries is Ok
            &&& step matches Ok(StepView::Perform { action, next }) ==> match action {
                ActionView::RemoveRetiredBinary { retirement_name: name } => name == retirement_name
                    && entries->Ok_0 == seq!["generation.json"@, "glaeda"@]
                    && local_install_store_observation::complete_generation(
                    directory,
                    store.owner,
                    None,
                    Some(identity),
                ) is Ok && next == (PhaseView::FinishRetirement { retirement_name, disposition }),
                ActionView::RemoveRetiredDocument { retirement_name: name } => name
                    == retirement_name && entries->Ok_0 == seq!["generation.json"@] && next == (
                PhaseView::FinishRetirement { retirement_name, disposition }),
                ActionView::RemoveRetiredDirectory { retirement_name: name } => name
                    == retirement_name && entries->Ok_0.len() == 0 && directory.still_named is Ok
                    && next == (PhaseView::ClearMarker { disposition }),
                _ => false,
            }
            &&& !(step matches Ok(end) && end is Finished)
            &&& entries is Ok && entries->Ok_0 != seq!["generation.json"@, "glaeda"@]
                && entries->Ok_0 != seq!["generation.json"@] && entries->Ok_0.len() > 0
                ==> step->Err_0.kind == LocalInstallGenerationStoreErrorKind::RecoveryRequired
            &&& entries is Ok && entries->Ok_0.len() == 0 && directory.still_named is Ok
                ==> step is Ok
        }),
{
}

/// A store owes recovery exactly when a document or a directory is staged, a
/// generation is being retired, or a generation is there that nothing names.
pub proof fn law_debt_is_what_is_staged_or_unnamed(store: StoreView)
    requires
        store.staged_names is Ok,
        store.current_next_present is Ok,
        local_install_store_observation::current_state(store) is Ok,
        extra_names(store, local_install_store_observation::current_state(store)->Ok_0) is Ok,
    ensures
        ({
            let current = local_install_store_observation::current_state(store)->Ok_0;
            recovery_debt(store) == Ok::<bool, StoreErrorView>(
                store.current_next_present->Ok_0 || store.staged_names->Ok_0.len() > 0
                    || current.retiring_identity is Some || extra_names(store, current)->Ok_0.len()
                    > 0,
            )
        }),
{
}

/// The names that nothing refers to are exactly those that are listed and are
/// neither the accepted generation's nor the retained one's.
pub proof fn law_unreferenced_names_are_the_others(
    names: Seq<Seq<char>>,
    referenced: Seq<Seq<char>>,
    name: Seq<char>,
)
    ensures
        unreferenced(names, referenced).contains(name) <==> names.contains(name)
            && !referenced.contains(name),
    decreases names.len(),
{
    if names.len() > 0 {
        let last = names.last();
        let rest = unreferenced(names.drop_last(), referenced);
        law_unreferenced_names_are_the_others(names.drop_last(), referenced, name);
        assert(names.contains(name) <==> names.drop_last().contains(name) || name == last) by {
            if names.contains(name) {
                let k = choose|k: int| 0 <= k < names.len() && names[k] == name;
                if k < names.len() - 1 {
                    assert(names.drop_last()[k] == name);
                }
            }
            if names.drop_last().contains(name) {
                let k = choose|k: int|
                    0 <= k < names.drop_last().len() && names.drop_last()[k] == name;
                assert(names[k] == name);
            }
            if name == last {
                assert(names[names.len() - 1] == name);
            }
        }
        if !referenced.contains(last) {
            let all = rest.push(last);
            assert(all.contains(name) <==> rest.contains(name) || name == last) by {
                if all.contains(name) {
                    let k = choose|k: int| 0 <= k < all.len() && all[k] == name;
                    if k < rest.len() {
                        assert(rest[k] == name);
                    }
                }
                if rest.contains(name) {
                    let k = choose|k: int| 0 <= k < rest.len() && rest[k] == name;
                    assert(all[k] == name);
                }
                assert(all[rest.len() as int] == last);
            }
        }
    }
}

/// Debt of more than one kind at once, or twice of one kind, is left to
/// inspection: recovery takes no step in it.
pub proof fn law_ambiguous_debt_is_refused(store: StoreView)
    requires
        store.staged_names is Ok,
        store.current_next_present is Ok,
        ({
            let operations = selected(store.staged_names->Ok_0, true).len();
            let retirements = selected(store.staged_names->Ok_0, false).len();
            let next: nat = if store.current_next_present->Ok_0 {
                1
            } else {
                0
            };
            operations + retirements + next > 1
        }),
    ensures
        recovery_decision(PhaseView::Inspect, store) is Err,
        recovery_decision(PhaseView::Inspect, store)->Err_0.kind
            == LocalInstallGenerationStoreErrorKind::RecoveryRequired,
{
}

/// A staged document is switched in only as the direct successor of the current
/// one, or as the current one with its retirement done; one that repeats the
/// current one is removed.
pub proof fn law_staged_documents_are_exact_successors(
    store: StoreView,
    next: LoadedCurrentView,
)
    ensures
        ({
            let current = local_install_store_observation::current_state(store)->Ok_0;
            let accepted = next.snapshot.state.accepted;
            let step = next_step(store, next);
            let clears = current.retiring_identity is Some && next.retiring_identity is None
                && next.accepted_identity == current.accepted_identity && next.retained_identity
                == current.retained_identity && next.operation == current.operation;
            let succeeds = accepted is Some && current.retiring_identity is None
                && accepted->0.predecessor == current.accepted_identity && next.retained_identity
                == current.accepted_identity && next.retiring_identity == current.retained_identity;
            &&& step is Ok <==> local_install_store_observation::current_state(store) is Ok && (
            next.bytes == current.bytes || clears || succeeds)
            &&& step matches Ok(StepView::Perform { action, .. }) ==> action == (if next.bytes
                == current.bytes {
                ActionView::RemoveCurrentNext
            } else {
                ActionView::SwitchCurrentNext
            })
            &&& !(step matches Ok(end) && end is Finished)
        }),
{
}

/// A staged generation is adopted only as the direct successor of the accepted
/// one, under an operation that the retained one does not have; a stage that
/// repeats the accepted generation is removed, and everything else is in
/// conflict.
pub proof fn law_staged_generations_are_adopted_as_successors(
    store: StoreView,
    stage_name: Seq<char>,
    loaded: LoadedGenerationView,
    current: LoadedCurrentView,
)
    ensures
        ({
            let step = adopt_step(store, stage_name, loaded, current);
            let reused = current.retained_operation is Some && current.retained_operation->0.id
                == loaded.operation.id;
            let repeated = current.accepted_identity == Some(loaded.generation.identity);
            &&& step matches Ok(StepView::Perform { action, next }) ==> {
                &&& !reused
                &&& repeated ==> current.operation == Some(loaded.operation) && action == (
                ActionView::RemoveStaged { stage_name })
                &&& !repeated ==> {
                    &&& loaded.generation.predecessor == current.accepted_identity
                    &&& next == (PhaseView::WriteCurrent {
                        document: CurrentView {
                            store_schema_version: 1,
                            accepted: Some(loaded.generation.identity),
                            retained: current.accepted_identity,
                            retiring: current.retained_identity,
                            last_operation: Some(loaded.operation),
                        },
                        cleanup: true,
                        disposition:
                            LocalInstallGenerationRecoveryDisposition::CompletedStagedGeneration,
                    })
                    &&& action == (ActionView::RemoveStaged { stage_name }) || action == (
                    ActionView::PublishStaged {
                        stage_name,
                        generation_name: local_install_generation_store::generation_name(
                            loaded.generation.identity,
                        ),
                    })
                }
            }
            &&& reused || (repeated && current.operation != Some(loaded.operation)) || (!repeated
                && loaded.generation.predecessor != current.accepted_identity) ==> step is Err
                && step->Err_0.kind == LocalInstallGenerationStoreErrorKind::Conflict
            &&& !(step matches Ok(end) && end is Finished)
        }),
{
}

/// A generation that nothing names is completed when it succeeds the accepted
/// one and retired when it is the one being retired; otherwise nothing is done.
pub proof fn law_orphans_are_completed_or_retired(
    store: StoreView,
    name: Seq<char>,
    current: LoadedCurrentView,
)
    ensures
        orphan_step(store, name, current) matches Ok(StepView::Perform { action, next })
            ==> match action {
            ActionView::StageCurrentNext { bytes } => {
                let identity = local_install_generation_store::generation_named(name)->Ok_0;
                let orphan = local_install_store_observation::loaded_generation(
                    store,
                    identity,
                )->Ok_0;
                &&& orphan.generation.predecessor == current.accepted_identity
                &&& bytes == local_install_store_documents::current_bytes(
                    CurrentView {
                        store_schema_version: 1,
                        accepted: Some(orphan.generation.identity),
                        retained: current.accepted_identity,
                        retiring: current.retained_identity,
                        last_operation: Some(orphan.operation),
                    },
                )
                &&& next == (PhaseView::SwitchCurrent {
                    cleanup: true,
                    disposition: LocalInstallGenerationRecoveryDisposition::CompletedCurrentSwitch,
                })
            },
            ActionView::RetireGeneration { generation_name, .. } => generation_name == name
                && current.retiring_identity is Some,
            _ => false,
        },
        !(orphan_step(store, name, current) matches Ok(end) && end is Finished),
{
}

/// Cleaning up ends exactly when nothing is being retired and every generation
/// that is there is named; what nothing names and nothing retires is left
/// alone.
pub proof fn law_cleanup_ends_when_nothing_is_left(
    store: StoreView,
    disposition: LocalInstallGenerationRecoveryDisposition,
)
    requires
        local_install_store_observation::current_state(store) is Ok,
        extra_names(store, local_install_store_observation::current_state(store)->Ok_0) is Ok,
    ensures
        ({
            let current = local_install_store_observation::current_state(store)->Ok_0;
            let extras = extra_names(store, current)->Ok_0;
            let step = cleanup_step(store, disposition);
            &&& step == Ok::<StepView, StoreErrorView>(StepView::Finished { disposition })
                <==> current.retiring_identity is None && extras.len() == 0
            &&& current.retiring_identity is None && extras.len() > 0 ==> step is Err
                && step->Err_0.kind == LocalInstallGenerationStoreErrorKind::RecoveryRequired
            &&& extras.len() > 1 ==> step is Err
            &&& step matches Ok(StepView::Perform { action, next }) ==> match action {
                ActionView::StageCurrentNext { bytes } => extras.len() == 0 && bytes
                    == local_install_store_documents::current_bytes(
                    CurrentView {
                        store_schema_version: 1,
                        accepted: current.accepted_identity,
                        retained: current.retained_identity,
                        retiring: None,
                        last_operation: current.operation,
                    },
                ) && next == (PhaseView::SwitchCurrent { cleanup: false, disposition }),
                ActionView::RetireGeneration { generation_name, .. } => extras == seq![
                    generation_name,
                ],
                _ => false,
            }
        }),
{
    let current = local_install_store_observation::current_state(store)->Ok_0;
    let extras = extra_names(store, current)->Ok_0;
    if extras.len() == 1 {
        assert(extras =~= seq![extras[0]]);
    }
}

/// Of the staged names, those of operations are told from the others, and none
/// is lost.
pub proof fn law_staged_names_are_told_apart(
    names: Seq<Seq<char>>,
    operations: bool,
    name: Seq<char>,
)
    ensures
        selected(names, operations).contains(name) <==> names.contains(name) && ((
        local_install_generation_store::operation_named(name) is Ok) == operations),
        selected(names, true).len() + selected(names, false).len() == names.len(),
    decreases names.len(),
{
    if names.len() > 0 {
        let last = names.last();
        let before = names.drop_last();
        let rest = selected(before, operations);
        law_staged_names_are_told_apart(before, operations, name);
        assert(names =~= before.push(last));
        lemma_push_contains(before, last, name);
        lemma_push_contains(rest, last, name);
    }
}

proof fn lemma_push_contains(names: Seq<Seq<char>>, last: Seq<char>, name: Seq<char>)
    ensures
        names.push(last).contains(name) <==> names.contains(name) || name == last,
{
    let all = names.push(last);
    if names.contains(name) {
        let k = choose|k: int| 0 <= k < names.len() && names[k] == name;
        assert(all[k] == name);
    }
    assert(all[names.len() as int] == last);
    if all.contains(name) {
        let k = choose|k: int| 0 <= k < all.len() && all[k] == name;
        if k < names.len() {
            assert(names[k] == name);
        }
    }
}

} // verus!
