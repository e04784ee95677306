//! Loading the accepted state and publishing a successor.
//!
//! A publication first recovers the store, then decides on the request, stages
//! the candidate, publishes it and switches the current document, each as one
//! change to a store that is observed anew.
use vstd::prelude::*;

use crate::local_install_generation_store;
use crate::local_install_generation_store::{
    generation_directory_name, store_error, LocalInstallGenerationPublishDisposition,
    LocalInstallGenerationPublishReceipt, LocalInstallGenerationPublishRequest,
    LocalInstallGenerationRecoveryDisposition, LocalInstallGenerationStoreError,
    LocalInstallGenerationStoreErrorKind, LocalInstallGenerationStoreSnapshot,
    LocalInstallStoreLocationClass, PublishReceiptView, RequestView, SnapshotView, StoreErrorView,
};
use crate::local_install_plan::{same_identity};
use crate::local_install_store_documents;
use crate::local_install_store_documents::{
    encode_generation_document, CurrentView, OperationRecord, OperationView,
};
use crate::local_install_store_observation;
use crate::local_install_store_observation::{
    find_directory, load_current, verify_complete_generation_directory, LoadedCurrent,
    LoadedCurrentView, StoreObservation, StoreView,
};
use crate::local_install_store_recovery;
use crate::local_install_store_recovery::{
    current_successor, has_recovery_debt, recovery_step, ActionView, PhaseView, RecoveryPhase,
    RecoveryStep, StepView, StoreAction,
};
use crate::outcome;

verus! {

/// What [`load_clean_state`] answers.
pub open spec fn clean_state(store: StoreView) -> Result<SnapshotView, StoreErrorView> {
    match local_install_store_recovery::recovery_debt(store) {
        Err(e) => Err(e),
        Ok(debt) => if debt {
            Err(
                local_install_generation_store::recovery_required(
                    "the local-install generation store requires writer recovery"@,
                ),
            )
        } else {
            match local_install_store_observation::current_state(store) {
                Err(e) => Err(e),
                Ok(current) => Ok(current.snapshot),
            }
        },
    }
}

/// Loads only a clean, fully verified atomic current state.
pub fn load_clean_state(store: &StoreObservation) -> (r: Result<
    LocalInstallGenerationStoreSnapshot,
    LocalInstallGenerationStoreError,
>)
    ensures
        outcome::is_outcome(r, clean_state(store@)),
{
    if has_recovery_debt(store)? {
        return Err(
            store_error(
                LocalInstallGenerationStoreErrorKind::RecoveryRequired,
                "the local-install generation store requires writer recovery",
            ),
        );
    }
    let current = load_current(store)?;
    Ok(current.snapshot)
}

/// Where a publication stands between two changes.
#[derive(Debug, PartialEq, Eq)]
pub enum PublicationPhase {
    /// The store is being recovered before anything is decided.
    Recover { phase: RecoveryPhase },
    /// The candidate binary of that size was verified and has to be staged.
    Stage { binary_bytes: u64 },
    /// The candidate is staged and has to be published.
    Publish,
    /// The current document is being switched, and what it superseded retired.
    Finish { phase: RecoveryPhase },
}

pub enum PublicationPhaseView {
    Recover { phase: PhaseView },
    Stage { binary_bytes: u64 },
    Publish,
    Finish { phase: PhaseView },
}

impl View for PublicationPhase {
    type V = PublicationPhaseView;

    open spec fn view(&self) -> PublicationPhaseView {
        match self {
            PublicationPhase::Recover { phase } => PublicationPhaseView::Recover { phase: phase@ },
            PublicationPhase::Stage { binary_bytes } => PublicationPhaseView::Stage {
                binary_bytes: *binary_bytes,
            },
            PublicationPhase::Publish => PublicationPhaseView::Publish,
            PublicationPhase::Finish { phase } => PublicationPhaseView::Finish { phase: phase@ },
        }
    }
}

/// What a publication does next.
#[derive(Debug, PartialEq, Eq)]
pub enum PublicationStep {
    Perform { action: StoreAction, next: PublicationPhase },
    /// The candidate binary has to be opened and verified; its size then leads
    /// to [`PublicationPhase::Stage`].
    ReviewCandidate,
    Finished { receipt: LocalInstallGenerationPublishReceipt },
}

pub enum PublicationStepView {
    Perform { action: ActionView, next: PublicationPhaseView },
    ReviewCandidate,
    Finished { receipt: PublishReceiptView },
}

impl View for PublicationStep {
    type V = PublicationStepView;

    open spec fn view(&self) -> PublicationStepView {
        match self {
            PublicationStep::Perform { action, next } => PublicationStepView::Perform {
                action: action@,
                next: next@,
            },
            PublicationStep::ReviewCandidate => PublicationStepView::ReviewCandidate,
            PublicationStep::Finished { receipt } => PublicationStepView::Finished {
                receipt: receipt@,
            },
        }
    }
}

pub open spec fn request_operation(request: RequestView) -> OperationView {
    OperationView { id: request.operation_id, request_digest: request.request_digest }
}

/// What a request asks of a recovered store: an exact replay is answered from
/// the accepted state, a reused operation or stale predecessor is refused, and
/// everything else may be staged.
pub open spec fn request_decision(
    current: LoadedCurrentView,
    request: RequestView,
    location: LocalInstallStoreLocationClass,
) -> Result<PublicationStepView, StoreErrorView> {
    if current.operation is Some && current.operation->0.id == request.operation_id {
        if current.operation->0.request_digest == request.request_digest
            && current.accepted_identity == Some(request.candidate.identity) {
            Ok(
                PublicationStepView::Finished {
                    receipt: PublishReceiptView {
                        disposition: LocalInstallGenerationPublishDisposition::Replayed,
                        location,
                        generation: request.candidate.identity,
                        state: current.snapshot,
                    },
                },
            )
        } else {
            Err(
                local_install_generation_store::conflict(
                    "the local-install operation identity was reused with changed inputs"@,
                ),
            )
        }
    } else if current.retained_operation is Some && current.retained_operation->0.id
        == request.operation_id {
        Err(
            local_install_generation_store::conflict(
                "the local-install operation identity already belongs to a retained generation"@,
            ),
        )
    } else if current.accepted_identity != request.expected_predecessor {
        Err(
            local_install_generation_store::conflict(
                "the accepted local-install generation changed since it was observed"@,
            ),
        )
    } else {
        Ok(PublicationStepView::ReviewCandidate)
    }
}

/// Decides on a request against the accepted state.
pub fn decide_request(
    current: &LoadedCurrent,
    request: &LocalInstallGenerationPublishRequest,
    location: LocalInstallStoreLocationClass,
) -> (r: Result<PublicationStep, LocalInstallGenerationStoreError>)
    ensures
        outcome::is_outcome(r, request_decision(current@, request@, location)),
{
    if let Some(operation) = &current.operation {
        if operation.id.same_as(request.operation_id()) {
            let accepted = match &current.accepted_identity {
                Some(identity) => identity.same_as(&request.candidate().identity),
                None => false,
            };
            if operation.request_digest.same_as(request.request_digest()) && accepted {
                return Ok(
                    PublicationStep::Finished {
                        receipt: LocalInstallGenerationPublishReceipt::of_parts(
                            LocalInstallGenerationPublishDisposition::Replayed,
                            location,
                            request.candidate().identity.clone(),
                            current.snapshot.clone(),
                        ),
                    },
                );
            }
            return Err(
                store_error(
                    LocalInstallGenerationStoreErrorKind::Conflict,
                    "the local-install operation identity was reused with changed inputs",
                ),
            );
        }
    }
    let retained_reuse = match &current.retained_operation {
        Some(operation) => operation.id.same_as(request.operation_id()),
        None => false,
    };
    if retained_reuse {
        return Err(
            store_error(
                LocalInstallGenerationStoreErrorKind::Conflict,
                "the local-install operation identity already belongs to a retained generation",
            ),
        );
    }
    let expected = match request.expected_predecessor() {
        Some(identity) => Some(identity.clone()),
        None => None,
    };
    if !same_identity(&current.accepted_identity, &expected) {
        return Err(
            store_error(
                LocalInstallGenerationStoreErrorKind::Conflict,
                "the accepted local-install generation changed since it was observed",
            ),
        );
    }
    Ok(PublicationStep::ReviewCandidate)
}

pub open spec fn stage_decision(request: RequestView, binary_bytes: u64) -> Result<
    PublicationStepView,
    StoreErrorView,
> {
    match local_install_store_documents::encoded_generation(request, binary_bytes) {
        Err(e) => Err(e),
        Ok(document) => Ok(
            PublicationStepView::Perform {
                action: ActionView::StageCandidate {
                    stage_name: local_install_generation_store::operation_name(
                        request.operation_id,
                    ),
                    document,
                },
                next: PublicationPhaseView::Publish,
            },
        ),
    }
}

pub open spec fn publish_decision(store: StoreView, request: RequestView) -> Result<
    PublicationStepView,
    StoreErrorView,
> {
    let stage_name = local_install_generation_store::operation_name(request.operation_id);
    let identity = request.candidate.identity;
    match local_install_store_observation::directory_named(store.staged, stage_name) {
        None => Err(
            local_install_generation_store::recovery_required(
                "the staged local-install operation changed during publication"@,
            ),
        ),
        Some(directory) => match directory.opened {
            Err(e) => Err(e),
            Ok(_) => match local_install_store_observation::complete_generation(
                directory,
                store.owner,
                Some(request.operation_id),
                Some(identity),
            ) {
                Err(e) => Err(e),
                Ok(_) => match local_install_generation_store::named_generation(identity) {
                    Err(e) => Err(e),
                    Ok(generation_name) => if local_install_store_observation::directory_named(
                        store.generations,
                        generation_name,
                    ) is Some {
                        Err(
                            local_install_generation_store::conflict(
                                "the candidate generation directory already exists"@,
                            ),
                        )
                    } else {
                        match local_install_store_observation::current_state(store) {
                            Err(e) => Err(e),
                            Ok(current) => Ok(
                                PublicationStepView::Perform {
                                    action: ActionView::PublishStaged {
                                        stage_name,
                                        generation_name,
                                    },
                                    next: PublicationPhaseView::Finish {
                                        phase: PhaseView::WriteCurrent {
                                            document:
                                                local_install_store_recovery::successor_document(
                                                current,
                                                identity,
                                                request_operation(request),
                                            ),
                                            cleanup: true,
                                            disposition:
                                                LocalInstallGenerationRecoveryDisposition::Clean,
                                        },
                                    },
                                },
                            ),
                        }
                    },
                },
            },
        },
    }
}

/// What [`publication_step`] answers.
pub open spec fn publication_decision(
    phase: PublicationPhaseView,
    store: StoreView,
    request: RequestView,
    location: LocalInstallStoreLocationClass,
) -> Result<PublicationStepView, StoreErrorView> {
    match phase {
        PublicationPhaseView::Recover { phase } => {
            match local_install_store_recovery::recovery_decision(phase, store) {
                Err(e) => Err(e),
                Ok(StepView::Perform { action, next }) => Ok(
                    PublicationStepView::Perform {
                        action,
                        next: PublicationPhaseView::Recover { phase: next },
                    },
                ),
                Ok(StepView::Finished { .. }) => {
                    match local_install_store_observation::current_state(store) {
                        Err(e) => Err(e),
                        Ok(current) => request_decision(current, request, location),
                    }
                },
            }
        },
        PublicationPhaseView::Stage { binary_bytes } => stage_decision(request, binary_bytes),
        PublicationPhaseView::Publish => publish_decision(store, request),
        PublicationPhaseView::Finish { phase } => {
            match local_install_store_recovery::recovery_decision(phase, store) {
                Err(e) => Err(e),
                Ok(StepView::Perform { action, next }) => Ok(
                    PublicationStepView::Perform {
                        action,
                        next: PublicationPhaseView::Finish { phase: next },
                    },
                ),
                Ok(StepView::Finished { .. }) => {
                    match local_install_store_observation::current_state(store) {
                        Err(e) => Err(e),
                        Ok(current) => Ok(
                            PublicationStepView::Finished {
                                receipt: PublishReceiptView {
                                    disposition: LocalInstallGenerationPublishDisposition::Published,
                                    location,
                                    generation: request.candidate.identity,
                                    state: current.snapshot,
                                },
                            },
                        ),
                    }
                },
            }
        },
    }
}

fn publish_candidate(
    store: &StoreObservation,
    request: &LocalInstallGenerationPublishRequest,
) -> (r: Result<PublicationStep, LocalInstallGenerationStoreError>)
    ensures
        outcome::is_outcome(r, publish_decision(store@, request@)),
{
    let stage_name = request.operation_id().directory_name();
    let identity = &request.candidate().identity;
    let directory = match find_directory(&store.staged, stage_name.as_str()) {
        Some(directory) => directory,
        None => {
            return Err(
                store_error(
                    LocalInstallGenerationStoreErrorKind::RecoveryRequired,
                    "the staged local-install operation changed during publication",
                ),
            );
        },
    };
    if let Err(e) = &directory.opened {
        return Err(e.clone());
    }
    verify_complete_generation_directory(
        directory,
        store.owner,
        Some(request.operation_id()),
        Some(identity),
    )?;
    let generation_name = generation_directory_name(identity)?;
    if find_directory(&store.generations, generation_name.as_str()).is_some() {
        return Err(
            store_error(
                LocalInstallGenerationStoreErrorKind::Conflict,
                "the candidate generation directory already exists",
            ),
        );
    }
    let current = load_current(store)?;
    let operation = OperationRecord {
        id: request.operation_id().clone(),
        request_digest: request.request_digest().clone(),
    };
    assert(operation@ == request_operation(request@));
    let document = current_successor(&current, identity, &operation);
    Ok(
        PublicationStep::Perform {
            action: StoreAction::PublishStaged { stage_name, generation_name },
            next: PublicationPhase::Finish {
                phase: RecoveryPhase::WriteCurrent {
                    document,
                    cleanup: true,
                    disposition: LocalInstallGenerationRecoveryDisposition::Clean,
                },
            },
        },
    )
}

/// Decides the next step of publishing one exact verified candidate.
pub fn publication_step(
    phase: PublicationPhase,
    store: &StoreObservation,
    request: &LocalInstallGenerationPublishRequest,
    location: LocalInstallStoreLocationClass,
) -> (r: Result<PublicationStep, LocalInstallGenerationStoreError>)
    ensures
        outcome::is_outcome(r, publication_decision(phase@, store@, request@, location)),
{
    match phase {
        PublicationPhase::Recover { phase } => match recovery_step(phase, store)? {
            RecoveryStep::Perform { action, next } => Ok(
                PublicationStep::Perform {
                    action,
                    next: PublicationPhase::Recover { phase: next },
                },
            ),
            RecoveryStep::Finished { disposition: _ } => {
                let current = load_current(store)?;
                decide_request(&current, request, location)
            },
        },
        PublicationPhase::Stage { binary_bytes } => {
            let document = encode_generation_document(request, binary_bytes)?;
            Ok(
                PublicationStep::Perform {
                    action: StoreAction::StageCandidate {
                        stage_name: request.operation_id().directory_name(),
                        document,
                    },
                    next: PublicationPhase::Publish,
                },
            )
        },
        PublicationPhase::Publish => publish_candidate(store, request),
        PublicationPhase::Finish { phase } => match recovery_step(phase, store)? {
            RecoveryStep::Perform { action, next } => Ok(
                PublicationStep::Perform {
                    action,
                    next: PublicationPhase::Finish { phase: next },
                },
            ),
            RecoveryStep::Finished { disposition: _ } => {
                let current = load_current(store)?;
                Ok(
                    PublicationStep::Finished {
                        receipt: LocalInstallGenerationPublishReceipt::of_parts(
                            LocalInstallGenerationPublishDisposition::Published,
                            location,
                            request.candidate().identity.clone(),
                            current.snapshot,
                        ),
                    },
                )
            },
        },
    }
}

/// Replaying a request whose generation is the accepted one changes nothing
/// and returns the accepted state.
pub proof fn law_exact_replay_changes_nothing(
    current: LoadedCurrentView,
    request: RequestView,
    location: LocalInstallStoreLocationClass,
)
    requires
        current.operation == Some(request_operation(request)),
        current.accepted_identity == Some(request.candidate.identity),
    ensures
        request_decision(current, request, location) == Ok::<PublicationStepView, StoreErrorView>(
            PublicationStepView::Finished {
                receipt: PublishReceiptView {
                    disposition: LocalInstallGenerationPublishDisposition::Replayed,
                    location,
                    generation: request.candidate.identity,
                    state: current.snapshot,
                },
            },
        ),
{
}

/// Nothing is staged unless the accepted generation is exactly the expected
/// predecessor and the operation is new to the accepted and retained ones.
pub proof fn law_only_fresh_successors_are_staged(
    current: LoadedCurrentView,
    request: RequestView,
    location: LocalInstallStoreLocationClass,
)
    requires
        request_decision(current, request, location) matches Ok(
            PublicationStepView::ReviewCandidate,
        ),
    ensures
        current.accepted_identity == request.expected_predecessor,
        current.operation matches Some(operation) ==> operation.id != request.operation_id,
        current.retained_operation matches Some(operation) ==> operation.id
            != request.operation_id,
{
}

/// Reading never goes ahead of recovery: a state is returned only where
/// recovery would find nothing to do.
pub proof fn law_clean_load_needs_no_recovery(store: StoreView)
    requires
        clean_state(store) is Ok,
        local_install_store_observation::next_state(store) == Ok::<
            Option<LoadedCurrentView>,
            StoreErrorView,
        >(None),
    ensures
        local_install_store_recovery::recovery_decision(PhaseView::Inspect, store) == Ok::<
            StepView,
            StoreErrorView,
        >(
            StepView::Finished {
                disposition: LocalInstallGenerationRecoveryDisposition::Clean,
            },
        ),
{
    let names = store.staged_names->Ok_0;
    assert(local_install_store_recovery::selected(names, true).len() == 0);
    assert(local_install_store_recovery::selected(names, false).len() == 0);
}

/// A request is answered from the state alone exactly when it is the accepted
/// one, is taken up exactly when its operation is new and it follows what is
/// accepted, and is in conflict otherwise.
pub proof fn law_requests_are_replayed_taken_up_or_refused(
    current: LoadedCurrentView,
    request: RequestView,
    location: LocalInstallStoreLocationClass,
)
    ensures
        ({
            let decision = request_decision(current, request, location);
            let known = current.operation is Some && current.operation->0.id
                == request.operation_id;
            let retained = current.retained_operation is Some && current.retained_operation->0.id
                == request.operation_id;
            &&& (decision matches Ok(step) && step is Finished) <==> known
                && current.operation->0.request_digest == request.request_digest
                && current.accepted_identity == Some(request.candidate.identity)
            &&& (decision matches Ok(step) && step is ReviewCandidate) <==> !known && !retained
                && current.accepted_identity == request.expected_predecessor
            &&& decision matches Ok(step) ==> !(step is Perform)
            &&& decision matches Err(e) ==> e.kind == LocalInstallGenerationStoreErrorKind::Conflict
            &&& decision matches Ok(PublicationStepView::Finished { receipt }) ==> receipt.location
                == location && receipt.generation == request.candidate.identity && receipt.state
                == current.snapshot && receipt.disposition
                == LocalInstallGenerationPublishDisposition::Replayed
        }),
{
}

/// A reader gets a state exactly when nothing is staged, nothing waits to be
/// retired, and every generation that is there is named; it gets the state that
/// the current document tells.
pub proof fn law_clean_states_owe_nothing(store: StoreView)
    ensures
        ({
            let current = local_install_store_observation::current_state(store);
            let extras = local_install_store_recovery::extra_names(store, current->Ok_0);
            &&& clean_state(store) is Ok <==> {
                &&& store.staged_names == Ok::<Seq<Seq<char>>, StoreErrorView>(Seq::empty())
                &&& store.current_next_present == Ok::<bool, StoreErrorView>(false)
                &&& current is Ok
                &&& current->Ok_0.retiring_identity is None
                &&& extras == Ok::<Seq<Seq<char>>, StoreErrorView>(Seq::empty())
            }
            &&& clean_state(store) matches Ok(snapshot) ==> snapshot == current->Ok_0.snapshot
            &&& (store.staged_names matches Ok(names) && names.len() > 0)
                && store.current_next_present is Ok ==> clean_state(store)->Err_0.kind
                == LocalInstallGenerationStoreErrorKind::RecoveryRequired
            &&& store.staged_names is Ok && store.current_next_present == Ok::<
                bool,
                StoreErrorView,
            >(true) ==> clean_state(store)->Err_0.kind
                == LocalInstallGenerationStoreErrorKind::RecoveryRequired
        }),
{
    let current = local_install_store_observation::current_state(store);
    if store.staged_names is Ok && store.staged_names->Ok_0.len() == 0 {
        assert(store.staged_names->Ok_0 =~= Seq::empty());
    }
    if current is Ok {
        let extras = local_install_store_recovery::extra_names(store, current->Ok_0);
        if extras is Ok && extras->Ok_0.len() == 0 {
            assert(extras->Ok_0 =~= Seq::empty());
        }
    }
}

/// A reviewed candidate is staged under the name of its operation with the
/// document of its size, and nothing else happens to the store in that step.
pub proof fn law_reviewed_candidates_are_staged(
    store: StoreView,
    request: RequestView,
    location: LocalInstallStoreLocationClass,
    binary_bytes: u64,
)
    requires
        local_install_store_documents::encoded_generation(request, binary_bytes) is Ok,
    ensures
        publication_decision(
            PublicationPhaseView::Stage { binary_bytes },
            store,
            request,
            location,
        ) == Ok::<PublicationStepView, StoreErrorView>(
            PublicationStepView::Perform {
                action: ActionView::StageCandidate {
                    stage_name: local_install_generation_store::operation_name(
                        request.operation_id,
                    ),
                    document: local_install_store_documents::generation_document_bytes(
                        request,
                        binary_bytes,
                    ),
                },
                next: PublicationPhaseView::Publish,
            },
        ),
{
}

/// A staged candidate is published exactly when it is complete with the
/// operation and identity of the request and its generation is not there yet;
/// what the store names next is this candidate after what it had accepted.
pub proof fn law_staged_candidates_are_published_once(
    store: StoreView,
    request: RequestView,
    location: LocalInstallStoreLocationClass,
)
    ensures
        ({
            let decision = publication_decision(
                PublicationPhaseView::Publish,
                store,
                request,
                location,
            );
            let stage_name = local_install_generation_store::operation_name(request.operation_id);
            let identity = request.candidate.identity;
            let staged = local_install_store_observation::directory_named(store.staged, stage_name);
            let current = local_install_store_observation::current_state(store);
            &&& decision is Ok <==> {
                &&& staged is Some && staged->0.opened is Ok
                &&& local_install_store_observation::complete_generation(
                    staged->0,
                    store.owner,
                    Some(request.operation_id),
                    Some(identity),
                ) is Ok
                &&& local_install_generation_store::is_nameable(identity)
                &&& local_install_store_observation::directory_named(
                    store.generations,
                    local_install_generation_store::generation_name(identity),
                ) is None
                &&& current is Ok
            }
            &&& decision matches Ok(step) ==> step == (PublicationStepView::Perform {
                action: ActionView::PublishStaged {
                    stage_name,
                    generation_name: local_install_generation_store::generation_name(identity),
                },
                next: PublicationPhaseView::Finish {
                    phase: PhaseView::WriteCurrent {
                        document: CurrentView {
                            store_schema_version: 1,
                            accepted: Some(identity),
                            retained: current->Ok_0.accepted_identity,
                            retiring: current->Ok_0.retained_identity,
                            last_operation: Some(
                                OperationView {
                                    id: request.operation_id,
                                    request_digest: request.request_digest,
                                },
                            ),
                        },
                        cleanup: true,
                        disposition: LocalInstallGenerationRecoveryDisposition::Clean,
                    },
                },
            })
        }),
{
}

} // verus!
