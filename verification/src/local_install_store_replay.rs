//! Repeated publications.
//!
//! Whatever a store holds, and whatever debt a publication has to recover before
//! it decides on its request: once the request was published, publishing it again
//! is answered from the accepted state.
use vstd::prelude::*;

use crate::local_install_generation_store;
use crate::local_install_generation_store::{
    LocalInstallGenerationPublishDisposition, LocalInstallGenerationRecoveryDisposition,
    LocalInstallStoreLocationClass, PublishReceiptView, RequestView, SnapshotView, StoreErrorView,
};
use crate::local_install_plan::{IdentityView, StateView};
use crate::local_install_store_documents;
use crate::local_install_store_documents::{CurrentView, LoadedGenerationView};
use crate::local_install_store_laws;
use crate::local_install_store_laws::StoreModel;
use crate::local_install_store_observation;
use crate::local_install_store_observation::{
    CurrentObservationView, LoadedCurrentView, StoreView,
};
use crate::local_install_store_publication;
use crate::local_install_store_publication::{PublicationPhaseView, PublicationStepView};
use crate::local_install_store_recovery;
use crate::local_install_store_recovery::{ActionView, PhaseView, StepView};

verus! {

/// A generation that is read is one that the store holds.
proof fn lemma_generation_is_held(store: StoreView, m: StoreModel, identity: IdentityView)
    requires
        local_install_store_laws::observes(store, m),
        local_install_store_observation::loaded_generation(store, identity) is Ok,
    ensures
        ({
            let g = local_install_store_observation::loaded_generation(store, identity)->Ok_0;
            &&& m.generations.contains(g)
            &&& g.generation.identity == identity
            &&& local_install_generation_store::is_nameable(identity)
        }),
{
    reveal(local_install_store_laws::observes);
    reveal(local_install_store_observation::loaded_generation);
    let g = choose|g: LoadedGenerationView| #[trigger]
        m.generations.contains(g) && g.generation.identity == identity;
    assert(local_install_store_laws::holds_identity(m, identity));
    assert(local_install_store_observation::loaded_generation(store, g.generation.identity) == Ok::<
        LoadedGenerationView,
        StoreErrorView,
    >(g));
}

/// A generation that the store holds is read.
proof fn lemma_held_is_read(store: StoreView, m: StoreModel, g: LoadedGenerationView)
    requires
        local_install_store_laws::observes(store, m),
        m.generations.contains(g),
    ensures
        local_install_store_observation::loaded_generation(store, g.generation.identity) == Ok::<
            LoadedGenerationView,
            StoreErrorView,
        >(g),
        local_install_generation_store::is_nameable(g.generation.identity),
{
    reveal(local_install_store_laws::observes);
    assert(local_install_store_observation::loaded_generation(store, g.generation.identity) == Ok::<
        LoadedGenerationView,
        StoreErrorView,
    >(g));
    reveal(local_install_store_observation::loaded_generation);
}

/// The document amounts to this state over the generations of the store.
#[verifier::opaque]
pub open spec fn amounts_to(m: StoreModel, d: CurrentView, c: LoadedCurrentView) -> bool {
    &&& c.accepted_identity == d.accepted
    &&& c.retained_identity == d.retained
    &&& c.retiring_identity == d.retiring
    &&& c.operation == d.last_operation
    &&& c.bytes == local_install_store_documents::current_bytes(d)
    &&& (d.accepted is None) == (d.last_operation is None)
    &&& d.accepted is None ==> d.retained is None && d.retiring is None
    &&& exists|a: Option<LoadedGenerationView>, r: Option<LoadedGenerationView>| #[trigger]
        names_parts(m, d, a, r) && c.snapshot == snapshot_of(d, a, r) && c.retained_operation == (
        match r {
            Some(value) => Some(value.operation),
            None => None,
        })
}

/// These are the generations that a document names, exactly linked.
pub open spec fn names_parts(
    m: StoreModel,
    d: CurrentView,
    a: Option<LoadedGenerationView>,
    r: Option<LoadedGenerationView>,
) -> bool {
    &&& d.accepted == local_install_store_laws::identity_of(a)
    &&& d.retained == local_install_store_laws::identity_of(r)
    &&& a matches Some(g) ==> {
        &&& m.generations.contains(g)
        &&& local_install_generation_store::is_nameable(g.generation.identity)
        &&& d.last_operation == Some(g.operation)
        &&& g.generation.predecessor == d.retained
    }
    &&& r matches Some(g) ==> {
        &&& m.generations.contains(g)
        &&& local_install_generation_store::is_nameable(g.generation.identity)
        &&& a is Some
        &&& a->0.generation.identity.number == g.generation.identity.number + 1
        &&& a->0.operation.id != g.operation.id
    }
}

pub open spec fn snapshot_of(
    d: CurrentView,
    a: Option<LoadedGenerationView>,
    r: Option<LoadedGenerationView>,
) -> SnapshotView {
    SnapshotView {
        state: StateView {
            accepted: match a {
                Some(value) => Some(value.generation),
                None => None,
            },
            retained: local_install_store_observation::retained_list(r),
        },
        last_operation: match d.last_operation {
            Some(value) => Some(value.id),
            None => None,
        },
    }
}

/// What a document that is loaded amounts to.
proof fn lemma_loaded_amounts(
    store: StoreView,
    m: StoreModel,
    document: CurrentObservationView,
    d: CurrentView,
)
    requires
        local_install_store_laws::observes(store, m),
        document.bytes == local_install_store_documents::current_bytes(d),
        local_install_store_observation::loaded_current(store, document) is Ok,
    ensures
        amounts_to(
            m,
            d,
            local_install_store_observation::loaded_current(store, document)->Ok_0,
        ),
{
    reveal(amounts_to);
    let c = local_install_store_observation::loaded_current(store, document)->Ok_0;
    let read = local_install_store_documents::decoded_current(
        document.bytes,
        document.parsed,
    )->Ok_0;
    local_install_store_documents::law_current_document_is_strict(
        document.bytes,
        document.parsed,
        document.parsed,
    );
    local_install_store_documents::law_current_documents_are_distinct(read, d);
    let parts = local_install_store_observation::loaded_parts(store, d)->Ok_0;
    if let Some(identity) = d.accepted {
        lemma_generation_is_held(store, m, identity);
    }
    if let Some(identity) = d.retained {
        lemma_generation_is_held(store, m, identity);
    }
    assert(names_parts(m, d, parts.0, parts.1));
}

/// The accepted state of an observed store.
proof fn lemma_current_amounts(store: StoreView, m: StoreModel)
    requires
        local_install_store_laws::observes(store, m),
        local_install_store_observation::current_state(store) is Ok,
    ensures
        match m.current {
            Some(d) => amounts_to(
                m,
                d,
                local_install_store_observation::current_state(store)->Ok_0,
            ),
            None => local_install_store_observation::current_state(store)->Ok_0
                == local_install_store_observation::empty_current(),
        },
{
    reveal(local_install_store_observation::current_state);
    local_install_store_laws::lemma_observed_documents(store, m);
    if let Some(d) = m.current {
        lemma_loaded_amounts(store, m, store.current->Ok_0->0, d);
    }
}

/// The staged state of an observed store.
proof fn lemma_next_amounts(store: StoreView, m: StoreModel)
    requires
        local_install_store_laws::observes(store, m),
        local_install_store_observation::next_state(store) is Ok,
    ensures
        match (m.next, local_install_store_observation::next_state(store)->Ok_0) {
            (Some(d), Some(next)) => amounts_to(m, d, next),
            (None, None) => true,
            _ => false,
        },
{
    reveal(local_install_store_observation::next_state);
    local_install_store_laws::lemma_observed_documents(store, m);
    if let Some(d) = m.next {
        lemma_loaded_amounts(store, m, store.current_next->Ok_0->0, d);
    }
}

/// Two observations of one store are read alike.
proof fn lemma_same_state(first: StoreView, second: StoreView, m: StoreModel)
    requires
        local_install_store_laws::observes(first, m),
        local_install_store_laws::observes(second, m),
        local_install_store_observation::current_state(first) is Ok,
    ensures
        local_install_store_observation::current_state(second)
            == local_install_store_observation::current_state(first),
{
    reveal(local_install_store_observation::current_state);
    local_install_store_laws::lemma_observed_documents(first, m);
    local_install_store_laws::lemma_observed_documents(second, m);
    if let Some(d) = m.current {
        let x = first.current->Ok_0->0;
        let y = second.current->Ok_0->0;
        assert(x.bytes == y.bytes);
        let read = local_install_store_documents::decoded_current(x.bytes, x.parsed)->Ok_0;
        local_install_store_documents::law_current_document_is_strict(
            x.bytes,
            x.parsed,
            y.parsed,
        );
        if let Some(identity) = read.accepted {
            lemma_generation_is_held(first, m, identity);
            lemma_held_is_read(
                second,
                m,
                local_install_store_observation::loaded_generation(first, identity)->Ok_0,
            );
        }
        if let Some(identity) = read.retained {
            lemma_generation_is_held(first, m, identity);
            lemma_held_is_read(
                second,
                m,
                local_install_store_observation::loaded_generation(first, identity)->Ok_0,
            );
        }
    }
}

/// Nothing is staged or being retired, and no current document waits.
pub open spec fn is_bare(m: StoreModel) -> bool {
    m.staged is None && m.next is None && m.retirement is None
}

/// Every generation of the store is named by the document.
pub open spec fn names_all(m: StoreModel, d: CurrentView) -> bool {
    forall|g: LoadedGenerationView| #[trigger]
        m.generations.contains(g) ==> Some(g.generation.identity) == d.accepted || Some(
            g.generation.identity,
        ) == d.retained
}

/// A generation whose name the state references is one that the state names.
proof fn lemma_referenced_is_named(
    store: StoreView,
    m: StoreModel,
    d: CurrentView,
    c: LoadedCurrentView,
    g: LoadedGenerationView,
)
    requires
        local_install_store_laws::observes(store, m),
        amounts_to(m, d, c),
        m.generations.contains(g),
    ensures
        local_install_store_recovery::referenced_names(c) is Ok,
        local_install_store_recovery::referenced_names(c)->Ok_0.contains(
            local_install_store_laws::name_of(g),
        ) <==> (Some(g.generation.identity) == d.accepted || Some(g.generation.identity)
            == d.retained),
{
    reveal(amounts_to);
    let (a, r) = choose|a: Option<LoadedGenerationView>, r: Option<LoadedGenerationView>| #[trigger]
        names_parts(m, d, a, r) && c.snapshot == snapshot_of(d, a, r);
    let referenced = local_install_store_recovery::referenced_names(c)->Ok_0;
    lemma_held_is_read(store, m, g);
    let accepted = local_install_store_recovery::named_option(d.accepted)->Ok_0;
    let retained = local_install_store_recovery::named_option(d.retained)->Ok_0;
    assert(referenced == accepted + retained);
    if let Some(identity) = d.accepted {
        assert(referenced[0] == local_install_generation_store::generation_name(identity));
        if local_install_store_laws::name_of(g) == referenced[0] {
            local_install_generation_store::law_generation_names_are_distinct(
                g.generation.identity,
                identity,
            );
        }
    }
    if let Some(identity) = d.retained {
        let at = accepted.len() as int;
        assert(referenced[at] == local_install_generation_store::generation_name(identity));
        if local_install_store_laws::name_of(g) == referenced[at] {
            local_install_generation_store::law_generation_names_are_distinct(
                g.generation.identity,
                identity,
            );
        }
    }
    if referenced.contains(local_install_store_laws::name_of(g)) {
        let i = choose|i: int|
            0 <= i < referenced.len() && referenced[i] == local_install_store_laws::name_of(g);
        assert(i == 0 || i == 1);
    }
}

/// A document names all generations exactly when none is left over.
proof fn lemma_nothing_left_over(
    store: StoreView,
    m: StoreModel,
    d: CurrentView,
    c: LoadedCurrentView,
)
    requires
        local_install_store_laws::observes(store, m),
        amounts_to(m, d, c),
    ensures
        local_install_store_recovery::extra_names(store, c) matches Ok(extras) && (extras.len() == 0
            <==> names_all(m, d)),
{
    reveal(amounts_to);
    local_install_store_laws::lemma_observed_names(store, m);
    let names = store.generation_names->Ok_0;
    let referenced = local_install_store_recovery::referenced_names(c)->Ok_0;
    let extras = local_install_store_recovery::unreferenced(names, referenced);
    local_install_store_laws::lemma_unreferenced(names, referenced);
    assert(local_install_store_recovery::referenced_names(c) is Ok) by {
        let (a, r) = choose|a: Option<LoadedGenerationView>, r: Option<LoadedGenerationView>|
            #[trigger]
            names_parts(m, d, a, r) && c.snapshot == snapshot_of(d, a, r);
    }
    if names_all(m, d) {
        assert forall|h: LoadedGenerationView| #[trigger]
            m.generations.contains(h) implies referenced.contains(
            local_install_store_laws::name_of(h),
        ) by {
            lemma_referenced_is_named(store, m, d, c, h);
        }
        local_install_store_laws::lemma_extra_names(store, m, referenced, None);
    }
    if extras.len() == 0 {
        assert forall|g: LoadedGenerationView| #[trigger]
            m.generations.contains(g) implies Some(g.generation.identity) == d.accepted || Some(
            g.generation.identity,
        ) == d.retained by {
            lemma_referenced_is_named(store, m, d, c, g);
            assert(names.contains(local_install_store_laws::name_of(g)));
            assert(!extras.contains(local_install_store_laws::name_of(g)));
        }
    }
}

/// Where one generation is left over, the document names all the others.
proof fn lemma_one_left_over(
    store: StoreView,
    m: StoreModel,
    d: CurrentView,
    c: LoadedCurrentView,
    r: LoadedGenerationView,
)
    requires
        local_install_store_laws::observes(store, m),
        amounts_to(m, d, c),
        local_install_store_recovery::extra_names(store, c) matches Ok(extras) && extras.len() == 1
            && extras[0] == local_install_store_laws::name_of(r),
        m.generations.contains(r),
    ensures
        forall|g: LoadedGenerationView| #[trigger]
            m.generations.contains(g) && g != r ==> Some(g.generation.identity) == d.accepted
                || Some(g.generation.identity) == d.retained,
{
    local_install_store_laws::lemma_observed_names(store, m);
    let names = store.generation_names->Ok_0;
    let referenced = local_install_store_recovery::referenced_names(c)->Ok_0;
    let extras = local_install_store_recovery::unreferenced(names, referenced);
    local_install_store_laws::lemma_unreferenced(names, referenced);
    lemma_held_is_read(store, m, r);
    assert forall|g: LoadedGenerationView| #[trigger]
        m.generations.contains(g) && g != r implies Some(g.generation.identity) == d.accepted
        || Some(g.generation.identity) == d.retained by {
        lemma_referenced_is_named(store, m, d, c, g);
        lemma_held_is_read(store, m, g);
        assert(names.contains(local_install_store_laws::name_of(g)));
        if extras.contains(local_install_store_laws::name_of(g)) {
            assert(local_install_store_laws::name_of(g) == extras[0]);
            local_install_generation_store::law_generation_names_are_distinct(
                g.generation.identity,
                r.generation.identity,
            );
            assert(false);
        }
    }
}

/// What an inspection that is not refused looks at first.
proof fn lemma_inspected(store: StoreView, m: StoreModel)
    requires
        local_install_store_laws::observes(store, m),
        local_install_store_recovery::inspect_step(store) is Ok,
    ensures
        m.next is None || (m.staged is None && m.retirement is None),
        m.staged is None || m.retirement is None,
        local_install_store_observation::next_state(store) is Ok,
        local_install_store_recovery::inspect_step(store) == (if m.next is Some {
            local_install_store_recovery::next_step(
                store,
                local_install_store_observation::next_state(store)->Ok_0->0,
            )
        } else if m.retirement is Some {
            local_install_store_recovery::retirement_step(
                store,
                local_install_generation_store::retirement_name(
                    (m.retirement->0).0.generation.identity,
                ),
                LocalInstallGenerationRecoveryDisposition::RemovedCleanupDebt,
            )
        } else if m.staged is Some {
            local_install_store_recovery::staged_step(
                store,
                local_install_generation_store::operation_name(m.staged->0.operation.id),
            )
        } else {
            local_install_store_recovery::unreferenced_step(store)
        }),
{
    reveal_with_fuel(local_install_store_recovery::selected, 3);
    reveal_strlit("op-");
    reveal_strlit("retire-");
    local_install_store_laws::lemma_observed_documents(store, m);
    local_install_store_laws::lemma_observed_staged(store, m);
    lemma_next_amounts(store, m);
    let names = store.staged_names->Ok_0;
    let none = Seq::<Seq<char>>::empty();
    assert(names == local_install_store_laws::staged_names(m));
    if let Some(r) = m.retirement {
        let name = local_install_generation_store::retirement_name(r.0.generation.identity);
        assert(name[0] == 'r');
        if local_install_generation_store::operation_named(name) is Ok {
            local_install_generation_store::law_operation_name_round_trip(Seq::empty(), name);
            assert(name.take(3)[0] == name[0]);
        }
    }
    match (m.staged, m.retirement) {
        (Some(g), Some(r)) => {
            assert(names.drop_last() =~= seq![names[0]]);
            assert(seq![names[0]].drop_last() =~= none);
            assert(names.last() == names[1]);
        },
        (Some(g), None) => {
            let name = local_install_generation_store::operation_name(g.operation.id);
            assert(names =~= seq![name]);
            assert(names.drop_last() =~= none);
            assert(names.last() == name);
            assert(none.push(name) =~= names);
            assert(name[0] == 'o');
            if local_install_generation_store::retirement_named(name) is Ok {
                local_install_generation_store::law_retirement_name_round_trip(
                    g.generation.identity,
                    name,
                );
                assert(false);
            }
        },
        (None, Some(r)) => {
            assert(names.drop_last() =~= none);
            assert(names.last() == names[0]);
            assert(none.push(names[0]) =~= names);
        },
        (None, None) => {
            assert(names =~= none);
        },
    }
}

/// What holds of a store between two changes of a recovery.
pub open spec fn is_recovering(phase: PhaseView, m: StoreModel) -> bool {
    match phase {
        PhaseView::Inspect => true,
        PhaseView::SwitchCurrent { .. } => m.staged is None && m.retirement is None && m.next
            is Some,
        PhaseView::FinishRetirement { .. } => m.staged is None && m.next is None,
        _ => is_bare(m),
    }
}

/// Taking a retirement apart removes one of its parts and nothing else.
proof fn lemma_dismantling(
    store: StoreView,
    m: StoreModel,
    retirement_name: Seq<char>,
    disposition: LocalInstallGenerationRecoveryDisposition,
    action: ActionView,
    next: PhaseView,
    after: StoreModel,
)
    requires
        local_install_store_recovery::retirement_step(store, retirement_name, disposition) == Ok::<
            StepView,
            StoreErrorView,
        >(StepView::Perform { action, next }),
        local_install_store_laws::is_effect(m, action, after),
    ensures
        after == (StoreModel { retirement: after.retirement, ..m }),
        next is FinishRetirement || (next is ClearMarker && after.retirement is None),
{
}

/// Adopting a staged operation takes it out of the staging directory.
proof fn lemma_adopting(
    store: StoreView,
    m: StoreModel,
    stage_name: Seq<char>,
    action: ActionView,
    next: PhaseView,
    after: StoreModel,
)
    requires
        local_install_store_recovery::staged_step(store, stage_name) == Ok::<
            StepView,
            StoreErrorView,
        >(StepView::Perform { action, next }),
        local_install_store_laws::is_effect(m, action, after),
    ensures
        m.staged is Some,
        after == (StoreModel { staged: None, generations: after.generations, ..m }),
        after.generations == m.generations || (!local_install_store_laws::holds_identity(
            m,
            m.staged->0.generation.identity,
        ) && after.generations == m.generations.insert(m.staged->0)),
        local_install_store_observation::current_state(store) matches Ok(c) && (next is Done || (
        next matches PhaseView::WriteCurrent { document, cleanup, .. } && cleanup
            && document.retained == c.accepted_identity)),
{
}

proof fn lemma_inspection_recovers(
    store: StoreView,
    m: StoreModel,
    action: ActionView,
    next: PhaseView,
    after: StoreModel,
)
    requires
        local_install_store_laws::observes(store, m),
        local_install_store_recovery::inspect_step(store) == Ok::<StepView, StoreErrorView>(
            StepView::Perform { action, next },
        ),
        local_install_store_laws::is_effect(m, action, after),
    ensures
        is_recovering(next, after),
{
    lemma_inspected(store, m);
    lemma_next_amounts(store, m);
    if m.next is None && m.retirement is Some {
        lemma_dismantling(
            store,
            m,
            local_install_generation_store::retirement_name(
                (m.retirement->0).0.generation.identity,
            ),
            LocalInstallGenerationRecoveryDisposition::RemovedCleanupDebt,
            action,
            next,
            after,
        );
    } else if m.next is None && m.staged is Some {
        lemma_adopting(
            store,
            m,
            local_install_generation_store::operation_name(m.staged->0.operation.id),
            action,
            next,
            after,
        );
    } else if m.next is None {
        lemma_orphan_recovers(store, m, action, next, after);
    }
}

proof fn lemma_orphan_recovers(
    store: StoreView,
    m: StoreModel,
    action: ActionView,
    next: PhaseView,
    after: StoreModel,
)
    requires
        is_bare(m),
        local_install_store_recovery::unreferenced_step(store) == Ok::<StepView, StoreErrorView>(
            StepView::Perform { action, next },
        ),
        local_install_store_laws::is_effect(m, action, after),
    ensures
        is_recovering(next, after),
{
}

/// Every change of a recovery keeps what holds between changes.
proof fn lemma_recovery_keeps(
    store: StoreView,
    m: StoreModel,
    phase: PhaseView,
    action: ActionView,
    next: PhaseView,
    after: StoreModel,
)
    requires
        local_install_store_laws::observes(store, m),
        is_recovering(phase, m),
        local_install_store_recovery::recovery_decision(phase, store) == Ok::<
            StepView,
            StoreErrorView,
        >(StepView::Perform { action, next }),
        local_install_store_laws::is_effect(m, action, after),
    ensures
        is_recovering(next, after),
{
    match phase {
        PhaseView::Inspect => {
            lemma_inspection_recovers(store, m, action, next, after);
        },
        PhaseView::FinishRetirement { retirement_name, disposition } => {
            lemma_dismantling(store, m, retirement_name, disposition, action, next, after);
        },
        _ => {},
    }
}

/// A recovery that has nothing left to do leaves nothing staged.
proof fn lemma_recovery_ends_bare(store: StoreView, m: StoreModel, phase: PhaseView)
    requires
        local_install_store_laws::observes(store, m),
        is_recovering(phase, m),
        local_install_store_recovery::recovery_decision(phase, store) matches Ok(
            StepView::Finished { .. },
        ),
    ensures
        is_bare(m),
{
    if phase is Inspect {
        lemma_inspected(store, m);
        lemma_next_amounts(store, m);
    }
}

/// The document accepts the candidate of a request under its operation.
pub open spec fn accepts(d: CurrentView, request: RequestView) -> bool {
    &&& d.accepted == Some(request.candidate.identity)
    &&& d.last_operation == Some(local_install_store_publication::request_operation(request))
}

/// The store accepted the candidate of a request and is left with no debt.
pub open spec fn is_published(m: StoreModel, request: RequestView) -> bool {
    &&& is_bare(m)
    &&& m.current matches Some(d) && accepts(d, request) && d.retiring is None && names_all(m, d)
}

/// What holds of a store between two changes that finish a publication.
pub open spec fn is_finishing(phase: PhaseView, m: StoreModel, request: RequestView) -> bool {
    match phase {
        PhaseView::Inspect => false,
        PhaseView::WriteCurrent { document, cleanup, .. } => cleanup && is_bare(m) && accepts(
            document,
            request,
        ),
        PhaseView::SwitchCurrent { cleanup, .. } => {
            &&& m.staged is None
            &&& m.retirement is None
            &&& m.next matches Some(d) && accepts(d, request) && (!cleanup ==> d.retiring is None
                && names_all(m, d))
        },
        PhaseView::Cleanup { .. } => is_bare(m) && (m.current matches Some(d) && accepts(
            d,
            request,
        )),
        PhaseView::FinishRetirement { .. } => {
            &&& m.staged is None
            &&& m.next is None
            &&& m.current matches Some(d) && accepts(d, request) && names_all(m, d)
        },
        PhaseView::ClearMarker { .. } => {
            &&& is_bare(m)
            &&& m.current matches Some(d) && accepts(d, request) && names_all(m, d)
        },
        PhaseView::Done { .. } => is_published(m, request),
    }
}

/// The document that is staged is the one whose bytes were written.
proof fn lemma_staged_document(
    m: StoreModel,
    document: CurrentView,
    after: StoreModel,
)
    requires
        local_install_store_laws::is_effect(
            m,
            ActionView::StageCurrentNext {
                bytes: local_install_store_documents::current_bytes(document),
            },
            after,
        ),
    ensures
        after == (StoreModel { next: Some(document), ..m }),
{
    local_install_store_documents::law_current_documents_are_distinct(after.next->0, document);
}

/// Clearing the retirement marker keeps everything else of the document.
proof fn lemma_clearing(
    store: StoreView,
    m: StoreModel,
    d: CurrentView,
    disposition: LocalInstallGenerationRecoveryDisposition,
    action: ActionView,
    next: PhaseView,
    after: StoreModel,
)
    requires
        local_install_store_laws::observes(store, m),
        m.current == Some(d),
        local_install_store_recovery::clear_step(store, disposition) == Ok::<
            StepView,
            StoreErrorView,
        >(StepView::Perform { action, next }),
        local_install_store_laws::is_effect(m, action, after),
    ensures
        next == (PhaseView::SwitchCurrent { cleanup: false, disposition }),
        after.next matches Some(n) && n.accepted == d.accepted && n.retained == d.retained
            && n.retiring is None && n.last_operation == d.last_operation,
        after == (StoreModel { next: after.next, ..m }),
{
    lemma_current_amounts(store, m);
    reveal(amounts_to);
    let c = local_install_store_observation::current_state(store)->Ok_0;
    lemma_staged_document(m, local_install_store_recovery::cleared_document(c), after);
}

proof fn lemma_cleanup_finishes(
    store: StoreView,
    m: StoreModel,
    request: RequestView,
    disposition: LocalInstallGenerationRecoveryDisposition,
    action: ActionView,
    next: PhaseView,
    after: StoreModel,
)
    requires
        local_install_store_laws::observes(store, m),
        is_bare(m),
        m.current matches Some(d) && accepts(d, request),
        local_install_store_recovery::cleanup_step(store, disposition) == Ok::<
            StepView,
            StoreErrorView,
        >(StepView::Perform { action, next }),
        local_install_store_laws::is_effect(m, action, after),
    ensures
        is_finishing(next, after, request),
{
    let d = m.current->0;
    let c = local_install_store_observation::current_state(store)->Ok_0;
    lemma_current_amounts(store, m);
    lemma_nothing_left_over(store, m, d, c);
    let extras = local_install_store_recovery::extra_names(store, c)->Ok_0;
    if extras.len() == 0 {
        lemma_clearing(store, m, d, disposition, action, next, after);
        assert(names_all(after, after.next->0));
    } else {
        let r = (after.retirement->0).0;
        lemma_one_left_over(store, m, d, c, r);
        assert(names_all(after, d));
    }
}

/// Every change that finishes a publication keeps what holds between changes.
proof fn lemma_finishing_keeps(
    store: StoreView,
    m: StoreModel,
    request: RequestView,
    phase: PhaseView,
    action: ActionView,
    next: PhaseView,
    after: StoreModel,
)
    requires
        local_install_store_laws::observes(store, m),
        is_finishing(phase, m, request),
        local_install_store_recovery::recovery_decision(phase, store) == Ok::<
            StepView,
            StoreErrorView,
        >(StepView::Perform { action, next }),
        local_install_store_laws::is_effect(m, action, after),
    ensures
        is_finishing(next, after, request),
{
    match phase {
        PhaseView::WriteCurrent { document, .. } => {
            lemma_staged_document(m, document, after);
        },
        PhaseView::Cleanup { disposition } => {
            lemma_cleanup_finishes(store, m, request, disposition, action, next, after);
        },
        PhaseView::ClearMarker { disposition } => {
            lemma_clearing(store, m, m.current->0, disposition, action, next, after);
            assert(names_all(after, after.next->0));
        },
        PhaseView::SwitchCurrent { .. } => {
            assert(after.generations == m.generations);
        },
        PhaseView::FinishRetirement { retirement_name, disposition } => {
            lemma_dismantling(store, m, retirement_name, disposition, action, next, after);
        },
        _ => {},
    }
}

/// A publication that has nothing left to do leaves no debt.
proof fn lemma_finishing_ends(
    store: StoreView,
    m: StoreModel,
    request: RequestView,
    phase: PhaseView,
)
    requires
        local_install_store_laws::observes(store, m),
        is_finishing(phase, m, request),
        local_install_store_recovery::recovery_decision(phase, store) matches Ok(
            StepView::Finished { .. },
        ),
    ensures
        is_published(m, request),
{
    match phase {
        PhaseView::Cleanup { .. } => {
            let c = local_install_store_observation::current_state(store)->Ok_0;
            lemma_current_amounts(store, m);
            lemma_nothing_left_over(store, m, m.current->0, c);
            reveal(amounts_to);
        },
        PhaseView::ClearMarker { .. } => {
            lemma_current_amounts(store, m);
            reveal(amounts_to);
        },
        _ => {},
    }
}

/// A store without debt that accepted the candidate answers its request from the
/// accepted state.
proof fn lemma_published_is_replayed(
    store: StoreView,
    m: StoreModel,
    request: RequestView,
    location: LocalInstallStoreLocationClass,
)
    requires
        local_install_store_laws::observes(store, m),
        is_published(m, request),
        local_install_store_observation::current_state(store) is Ok,
    ensures
        local_install_store_publication::publication_decision(
            PublicationPhaseView::Recover { phase: PhaseView::Inspect },
            store,
            request,
            location,
        ) == Ok::<PublicationStepView, StoreErrorView>(
            PublicationStepView::Finished {
                receipt: PublishReceiptView {
                    disposition: LocalInstallGenerationPublishDisposition::Replayed,
                    location,
                    generation: request.candidate.identity,
                    state: local_install_store_observation::current_state(store)->Ok_0.snapshot,
                },
            },
        ),
        local_install_store_publication::clean_state(store) == Ok::<SnapshotView, StoreErrorView>(
            local_install_store_observation::current_state(store)->Ok_0.snapshot,
        ),
{
    let d = m.current->0;
    let c = local_install_store_observation::current_state(store)->Ok_0;
    lemma_current_amounts(store, m);
    lemma_nothing_left_over(store, m, d, c);
    local_install_store_laws::lemma_observed_documents(store, m);
    local_install_store_laws::lemma_observed_staged(store, m);
    assert(local_install_store_observation::next_state(store) == Ok::<
        Option<LoadedCurrentView>,
        StoreErrorView,
    >(None)) by {
        reveal(local_install_store_observation::next_state);
    }
    assert(store.staged_names->Ok_0 =~= Seq::empty());
    reveal(amounts_to);
}

/// A publication between two changes: where it stands, what the store holds, and
/// what was observed of it.
pub struct Stop {
    pub phase: PublicationPhaseView,
    pub model: StoreModel,
    pub store: StoreView,
}

/// What a publication does at a stop.
pub open spec fn step_at(
    stop: Stop,
    request: RequestView,
    location: LocalInstallStoreLocationClass,
) -> Result<PublicationStepView, StoreErrorView> {
    local_install_store_laws::publication_at(stop.phase, stop.store, request, location)
}

/// The change that is named at a stop was made, or the candidate binary that is
/// asked for was verified, and the publication goes on.
pub open spec fn leads_to(
    stop: Stop,
    next: Stop,
    request: RequestView,
    location: LocalInstallStoreLocationClass,
) -> bool {
    match step_at(stop, request, location) {
        Ok(PublicationStepView::Perform { action, next: phase }) => next.phase == phase
            && local_install_store_laws::is_effect(stop.model, action, next.model),
        Ok(PublicationStepView::ReviewCandidate) => next.phase is Stage && next.model
            == stop.model,
        _ => false,
    }
}

/// A publication of a request from its beginning: whatever the store held then,
/// at every stop it is observed faithfully, and each stop leads to the next.
pub open spec fn is_run(
    stops: Seq<Stop>,
    request: RequestView,
    location: LocalInstallStoreLocationClass,
) -> bool {
    &&& stops.len() > 0
    &&& stops[0].phase == (PublicationPhaseView::Recover { phase: PhaseView::Inspect })
    &&& forall|i: int|
        0 <= i < stops.len() ==> local_install_store_laws::observes(
            (#[trigger] stops[i]).store,
            stops[i].model,
        )
    &&& forall|i: int, j: int|
        0 <= i && j == i + 1 && j < stops.len() ==> leads_to(
            #[trigger] stops[i],
            #[trigger] stops[j],
            request,
            location,
        )
}

/// The publication was answered with this receipt.
pub open spec fn is_answered(
    stops: Seq<Stop>,
    request: RequestView,
    location: LocalInstallStoreLocationClass,
    receipt: PublishReceiptView,
) -> bool {
    &&& is_run(stops, request, location)
    &&& step_at(stops.last(), request, location) == Ok::<PublicationStepView, StoreErrorView>(
        PublicationStepView::Finished { receipt },
    )
}

/// What holds at every stop of a publication.
pub open spec fn is_on_course(
    phase: PublicationPhaseView,
    m: StoreModel,
    request: RequestView,
) -> bool {
    match phase {
        PublicationPhaseView::Recover { phase } => is_recovering(phase, m),
        PublicationPhaseView::Stage { .. } => is_bare(m),
        PublicationPhaseView::Publish => m.staged is Some && m.next is None && m.retirement is None,
        PublicationPhaseView::Finish { phase } => is_finishing(phase, m, request),
    }
}

/// Every stop keeps the publication on its course.
proof fn lemma_course_is_kept(
    stop: Stop,
    next: Stop,
    request: RequestView,
    location: LocalInstallStoreLocationClass,
)
    requires
        local_install_store_laws::observes(stop.store, stop.model),
        is_on_course(stop.phase, stop.model, request),
        leads_to(stop, next, request, location),
    ensures
        is_on_course(next.phase, next.model, request),
{
    reveal(local_install_store_laws::publication_at);
    match stop.phase {
        PublicationPhaseView::Recover { phase } => {
            match local_install_store_recovery::recovery_decision(phase, stop.store) {
                Ok(StepView::Perform { action, next: inner }) => {
                    lemma_recovery_keeps(
                        stop.store,
                        stop.model,
                        phase,
                        action,
                        inner,
                        next.model,
                    );
                },
                _ => {
                    lemma_recovery_ends_bare(stop.store, stop.model, phase);
                },
            }
        },
        PublicationPhaseView::Finish { phase } => {
            match local_install_store_recovery::recovery_decision(phase, stop.store) {
                Ok(StepView::Perform { action, next: inner }) => {
                    lemma_finishing_keeps(
                        stop.store,
                        stop.model,
                        request,
                        phase,
                        action,
                        inner,
                        next.model,
                    );
                },
                _ => {},
            }
        },
        _ => {},
    }
}

proof fn lemma_run_stays_on_course(
    stops: Seq<Stop>,
    request: RequestView,
    location: LocalInstallStoreLocationClass,
    at: int,
)
    requires
        is_run(stops, request, location),
        0 <= at < stops.len(),
    ensures
        is_on_course(stops[at].phase, stops[at].model, request),
    decreases at,
{
    if at > 0 {
        lemma_run_stays_on_course(stops, request, location, at - 1);
        assert(leads_to(stops[at - 1], stops[at], request, location));
        lemma_course_is_kept(stops[at - 1], stops[at], request, location);
    }
}

/// How a publication was answered: it accepted the candidate under the operation
/// of the request, and the receipt tells the state that was read in the end.
proof fn lemma_answer(
    stops: Seq<Stop>,
    request: RequestView,
    location: LocalInstallStoreLocationClass,
    receipt: PublishReceiptView,
)
    requires
        is_answered(stops, request, location, receipt),
    ensures
        ({
            let stop = stops.last();
            &&& local_install_store_laws::observes(stop.store, stop.model)
            &&& local_install_store_observation::current_state(stop.store) matches Ok(c)
                && receipt.state == c.snapshot && c.operation == Some(
                local_install_store_publication::request_operation(request),
            )
                && c.accepted_identity == Some(request.candidate.identity)
            &&& stop.model.current matches Some(d) && accepts(d, request)
            &&& receipt.generation == request.candidate.identity
            &&& receipt.location == location
            &&& receipt.disposition == LocalInstallGenerationPublishDisposition::Published
                ==> is_published(stop.model, request)
        }),
{
    reveal(local_install_store_laws::publication_at);
    reveal(amounts_to);
    let stop = stops.last();
    assert(stop == stops[stops.len() - 1]);
    lemma_run_stays_on_course(stops, request, location, stops.len() - 1);
    match stop.phase {
        PublicationPhaseView::Recover { phase } => {
            lemma_current_amounts(stop.store, stop.model);
        },
        PublicationPhaseView::Finish { phase } => {
            lemma_finishing_ends(stop.store, stop.model, request, phase);
            lemma_current_amounts(stop.store, stop.model);
        },
        _ => {},
    }
}

/// A request that was published is replayed. Whatever the store held, and
/// whatever debt of this or another operation was recovered first: once a
/// publication ended with the candidate published, publishing it again, on the
/// same store or on one reopened at the same place, changes nothing and is
/// answered with the same generation and state. Whoever loads the store reads
/// that state too.
pub proof fn law_published_request_is_replayed(
    stops: Seq<Stop>,
    request: RequestView,
    location: LocalInstallStoreLocationClass,
    receipt: PublishReceiptView,
    reopened: StoreView,
)
    requires
        is_answered(stops, request, location, receipt),
        receipt.disposition == LocalInstallGenerationPublishDisposition::Published,
        local_install_store_laws::observes(reopened, stops.last().model),
    ensures
        local_install_store_publication::publication_decision(
            PublicationPhaseView::Recover { phase: PhaseView::Inspect },
            reopened,
            request,
            location,
        ) == Ok::<PublicationStepView, StoreErrorView>(
            PublicationStepView::Finished {
                receipt: PublishReceiptView {
                    disposition: LocalInstallGenerationPublishDisposition::Replayed,
                    ..receipt
                },
            },
        ),
        receipt.generation == request.candidate.identity,
        local_install_store_publication::clean_state(reopened) == Ok::<
            SnapshotView,
            StoreErrorView,
        >(receipt.state),
{
    let stop = stops.last();
    lemma_answer(stops, request, location, receipt);
    lemma_same_state(stop.store, reopened, stop.model);
    lemma_published_is_replayed(reopened, stop.model, request, location);
}

/// What a publication was answered with: the accepted and the retained
/// generation, which are told apart from all others by their identities.
pub struct Told {
    pub accepted: LoadedGenerationView,
    pub retained: Option<LoadedGenerationView>,
}

/// The document still tells the same.
pub open spec fn is_unmoved(d: CurrentView, told: Told) -> bool {
    &&& d.accepted == Some(told.accepted.generation.identity)
    &&& d.retained == local_install_store_laws::identity_of(told.retained)
    &&& d.last_operation == Some(told.accepted.operation)
}

/// The document accepts a successor of what was told.
pub open spec fn is_superseded(d: CurrentView, told: Told) -> bool {
    d.retained == Some(told.accepted.generation.identity)
}

pub open spec fn is_later(d: CurrentView, told: Told) -> bool {
    is_unmoved(d, told) || is_superseded(d, told)
}

/// The generations that were told are not replaced by others.
pub open spec fn keeps(m: StoreModel, told: Told) -> bool {
    forall|g: LoadedGenerationView| #[trigger]
        m.generations.contains(g) ==> (g.generation.identity == told.accepted.generation.identity
            ==> g == told.accepted) && (told.retained matches Some(r) ==> g.generation.identity
            == r.generation.identity ==> g == r)
}

/// What holds of a store that told this while it is recovered again.
pub open spec fn is_remembering(phase: PhaseView, m: StoreModel, told: Told) -> bool {
    &&& keeps(m, told)
    &&& match phase {
        PhaseView::Inspect => m.current matches Some(d) && is_unmoved(d, told),
        PhaseView::WriteCurrent { document, .. } => is_later(document, told),
        PhaseView::SwitchCurrent { .. } => m.next matches Some(d) && is_later(d, told),
        _ => m.current matches Some(d) && is_later(d, told),
    }
}

proof fn lemma_inspection_remembers(
    store: StoreView,
    m: StoreModel,
    told: Told,
    action: ActionView,
    next: PhaseView,
    after: StoreModel,
)
    requires
        local_install_store_laws::observes(store, m),
        is_remembering(PhaseView::Inspect, m, told),
        local_install_store_recovery::inspect_step(store) == Ok::<StepView, StoreErrorView>(
            StepView::Perform { action, next },
        ),
        local_install_store_laws::is_effect(m, action, after),
    ensures
        is_remembering(next, after, told),
{
    let d = m.current->0;
    lemma_inspected(store, m);
    lemma_next_amounts(store, m);
    if local_install_store_observation::current_state(store) is Ok {
        let c = local_install_store_observation::current_state(store)->Ok_0;
        lemma_current_amounts(store, m);
        reveal(amounts_to);
        let (a, r) = choose|
            a: Option<LoadedGenerationView>,
            r: Option<LoadedGenerationView>,
        | #[trigger]
            names_parts(m, d, a, r) && c.snapshot == snapshot_of(d, a, r);
        assert(local_install_store_laws::holds_identity(m, told.accepted.generation.identity));
        if let Some(value) = told.retained {
            assert(local_install_store_laws::holds_identity(m, value.generation.identity));
        }
        if m.next is None && m.retirement is Some {
            lemma_dismantling(
                store,
                m,
                local_install_generation_store::retirement_name(
                    (m.retirement->0).0.generation.identity,
                ),
                LocalInstallGenerationRecoveryDisposition::RemovedCleanupDebt,
                action,
                next,
                after,
            );
        } else if m.next is None && m.staged is Some {
            lemma_adopting(
                store,
                m,
                local_install_generation_store::operation_name(m.staged->0.operation.id),
                action,
                next,
                after,
            );
        } else if m.next is None {
            lemma_unreferenced_remembers(store, m, told, c, action, next, after);
        }
    }
}

proof fn lemma_unreferenced_remembers(
    store: StoreView,
    m: StoreModel,
    told: Told,
    c: LoadedCurrentView,
    action: ActionView,
    next: PhaseView,
    after: StoreModel,
)
    requires
        local_install_store_laws::observes(store, m),
        is_remembering(PhaseView::Inspect, m, told),
        local_install_store_observation::current_state(store) == Ok::<
            LoadedCurrentView,
            StoreErrorView,
        >(c),
        amounts_to(m, m.current->0, c),
        local_install_store_recovery::unreferenced_step(store) == Ok::<StepView, StoreErrorView>(
            StepView::Perform { action, next },
        ),
        local_install_store_laws::is_effect(m, action, after),
    ensures
        is_remembering(next, after, told),
{
    let d = m.current->0;
    let extras = local_install_store_recovery::extra_names(store, c)->Ok_0;
    reveal(amounts_to);
    if extras.len() == 0 {
        lemma_clearing(
            store,
            m,
            d,
            LocalInstallGenerationRecoveryDisposition::RemovedCleanupDebt,
            action,
            next,
            after,
        );
    } else if action is StageCurrentNext {
        let identity = local_install_generation_store::generation_named(extras[0])->Ok_0;
        let orphan = local_install_store_observation::loaded_generation(store, identity)->Ok_0;
        lemma_staged_document(
            m,
            local_install_store_recovery::successor_document(
                c,
                orphan.generation.identity,
                orphan.operation,
            ),
            after,
        );
    }
}

/// Every change of a repeated recovery keeps what was told, or accepts its
/// successor.
proof fn lemma_recovery_remembers(
    store: StoreView,
    m: StoreModel,
    told: Told,
    phase: PhaseView,
    action: ActionView,
    next: PhaseView,
    after: StoreModel,
)
    requires
        local_install_store_laws::observes(store, m),
        is_remembering(phase, m, told),
        local_install_store_recovery::recovery_decision(phase, store) == Ok::<
            StepView,
            StoreErrorView,
        >(StepView::Perform { action, next }),
        local_install_store_laws::is_effect(m, action, after),
    ensures
        is_remembering(next, after, told),
{
    match phase {
        PhaseView::Inspect => {
            lemma_inspection_remembers(store, m, told, action, next, after);
        },
        PhaseView::WriteCurrent { document, .. } => {
            lemma_staged_document(m, document, after);
        },
        PhaseView::ClearMarker { disposition } => {
            lemma_clearing(store, m, m.current->0, disposition, action, next, after);
        },
        PhaseView::Cleanup { disposition } => {
            lemma_cleanup_remembers(store, m, told, disposition, action, next, after);
        },
        PhaseView::FinishRetirement { retirement_name, disposition } => {
            lemma_dismantling(store, m, retirement_name, disposition, action, next, after);
        },
        _ => {},
    }
}

proof fn lemma_cleanup_remembers(
    store: StoreView,
    m: StoreModel,
    told: Told,
    disposition: LocalInstallGenerationRecoveryDisposition,
    action: ActionView,
    next: PhaseView,
    after: StoreModel,
)
    requires
        local_install_store_laws::observes(store, m),
        keeps(m, told),
        m.current matches Some(d) && is_later(d, told),
        local_install_store_recovery::cleanup_step(store, disposition) == Ok::<
            StepView,
            StoreErrorView,
        >(StepView::Perform { action, next }),
        local_install_store_laws::is_effect(m, action, after),
    ensures
        is_remembering(next, after, told),
{
    let c = local_install_store_observation::current_state(store)->Ok_0;
    let extras = local_install_store_recovery::extra_names(store, c)->Ok_0;
    if extras.len() == 0 {
        lemma_clearing(store, m, m.current->0, disposition, action, next, after);
    }
}

/// A repeated publication is never asked for the candidate again, and what it is
/// answered with is what was told.
proof fn lemma_remembered_answer(
    store: StoreView,
    m: StoreModel,
    told: Told,
    phase: PhaseView,
    request: RequestView,
    location: LocalInstallStoreLocationClass,
    d: CurrentView,
)
    requires
        local_install_store_laws::observes(store, m),
        is_remembering(phase, m, told),
        local_install_store_recovery::recovery_decision(phase, store) matches Ok(
            StepView::Finished { .. },
        ),
        is_unmoved(d, told),
        accepts(d, request),
    ensures
        local_install_store_publication::publication_decision(
            PublicationPhaseView::Recover { phase },
            store,
            request,
            location,
        ) matches Ok(step) ==> step == (PublicationStepView::Finished {
            receipt: PublishReceiptView {
                disposition: LocalInstallGenerationPublishDisposition::Replayed,
                location,
                generation: request.candidate.identity,
                state: snapshot_of(d, Some(told.accepted), told.retained),
            },
        }),
{
    if local_install_store_observation::current_state(store) is Ok {
        let c = local_install_store_observation::current_state(store)->Ok_0;
        let now = m.current->0;
        lemma_current_amounts(store, m);
        reveal(amounts_to);
        let (a, r) = choose|
            a: Option<LoadedGenerationView>,
            r: Option<LoadedGenerationView>,
        | #[trigger]
            names_parts(m, now, a, r) && c.snapshot == snapshot_of(now, a, r)
                && c.retained_operation == (match r {
                Some(value) => Some(value.operation),
                None => None,
            });
        if is_unmoved(now, told) {
            assert(a == Some(told.accepted));
            assert(r == told.retained);
        } else {
            assert(r == Some(told.accepted));
        }
    }
}

/// What was told by an answered publication.
proof fn lemma_told(
    store: StoreView,
    m: StoreModel,
    request: RequestView,
    d: CurrentView,
) -> (told: Told)
    requires
        local_install_store_laws::observes(store, m),
        m.current == Some(d),
        accepts(d, request),
        local_install_store_observation::current_state(store) is Ok,
    ensures
        is_remembering(PhaseView::Inspect, m, told),
        is_unmoved(d, told),
        local_install_store_observation::current_state(store)->Ok_0.snapshot == snapshot_of(
            d,
            Some(told.accepted),
            told.retained,
        ),
{
    let c = local_install_store_observation::current_state(store)->Ok_0;
    lemma_current_amounts(store, m);
    reveal(amounts_to);
    let (a, r) = choose|a: Option<LoadedGenerationView>, r: Option<LoadedGenerationView>| #[trigger]
        names_parts(m, d, a, r) && c.snapshot == snapshot_of(d, a, r);
    let told = Told { accepted: a->0, retained: r };
    assert forall|g: LoadedGenerationView| #[trigger] m.generations.contains(g) implies (
    g.generation.identity == told.accepted.generation.identity ==> g == told.accepted) && (
    told.retained matches Some(value) ==> g.generation.identity == value.generation.identity ==> g
        == value) by {
        lemma_held_is_read(store, m, g);
        lemma_held_is_read(store, m, told.accepted);
        if let Some(value) = told.retained {
            lemma_held_is_read(store, m, value);
        }
    }
    told
}

/// Every stop of a repeated publication is in its recovery.
proof fn lemma_repetition_remembers(
    stops: Seq<Stop>,
    request: RequestView,
    location: LocalInstallStoreLocationClass,
    told: Told,
    d: CurrentView,
    at: int,
)
    requires
        is_run(stops, request, location),
        is_remembering(PhaseView::Inspect, stops[0].model, told),
        is_unmoved(d, told),
        accepts(d, request),
        0 <= at < stops.len(),
    ensures
        stops[at].phase matches PublicationPhaseView::Recover { phase } && is_remembering(
            phase,
            stops[at].model,
            told,
        ),
    decreases at,
{
    if at > 0 {
        let before = stops[at - 1];
        lemma_repetition_remembers(stops, request, location, told, d, at - 1);
        assert(leads_to(before, stops[at], request, location));
        reveal(local_install_store_laws::publication_at);
        let phase = before.phase->Recover_phase;
        match local_install_store_recovery::recovery_decision(phase, before.store) {
            Ok(StepView::Perform { action, next }) => {
                lemma_recovery_remembers(
                    before.store,
                    before.model,
                    told,
                    phase,
                    action,
                    next,
                    stops[at].model,
                );
            },
            _ => {
                lemma_remembered_answer(
                    before.store,
                    before.model,
                    told,
                    phase,
                    request,
                    location,
                    d,
                );
            },
        }
    }
}

/// A publication that is repeated right after it was answered, whether it had
/// published or had itself replayed, and whatever debt the store still held: if
/// it is answered again, it is answered as a replay, with the same generation and
/// state.
pub proof fn law_answered_request_is_answered_alike(
    first: Seq<Stop>,
    second: Seq<Stop>,
    request: RequestView,
    location: LocalInstallStoreLocationClass,
    receipt: PublishReceiptView,
    again: PublishReceiptView,
)
    requires
        is_answered(first, request, location, receipt),
        is_answered(second, request, location, again),
        second[0].model == first.last().model,
    ensures
        again == (PublishReceiptView {
            disposition: LocalInstallGenerationPublishDisposition::Replayed,
            ..receipt
        }),
{
    let stop = first.last();
    let d = stop.model.current->0;
    lemma_answer(first, request, location, receipt);
    let told = lemma_told(stop.store, stop.model, request, d);
    let at = second.len() - 1;
    lemma_repetition_remembers(second, request, location, told, d, at);
    reveal(local_install_store_laws::publication_at);
    let phase = second[at].phase->Recover_phase;
    assert(local_install_store_laws::observes(second[at].store, second[at].model));
    lemma_remembered_answer(
        second[at].store,
        second[at].model,
        told,
        phase,
        request,
        location,
        d,
    );
}

} // verus!
