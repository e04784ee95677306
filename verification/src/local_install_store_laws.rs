//! Crash safety of the generation store.
//!
//! A publication moves the store through a fixed sequence of points. Whatever
//! point an interruption leaves behind, recovery takes the store forward along
//! the same sequence, one change at a time, to the accepted successor; and a
//! store in which nothing was published yet keeps what it had accepted.
use vstd::prelude::*;

use crate::local_install_generation_store;
use crate::local_install_generation_store::{
    LocalInstallGenerationPublishDisposition, LocalInstallGenerationRecoveryDisposition,
    LocalInstallStoreLocationClass, PublishReceiptView, RequestView, SnapshotView, StoreErrorView,
    LOCAL_INSTALL_GENERATION_STORE_SCHEMA_VERSION,
};
use crate::local_install_plan::{IdentityView, StateView};
use crate::local_install_store_documents;
use crate::local_install_store_documents::{CurrentView, LoadedGenerationView};
use crate::local_install_store_observation;
use crate::local_install_store_observation::{
    CurrentObservationView, DirectoryView, LoadedCurrentView, StoreView,
};
use crate::local_install_store_publication;
use crate::local_install_store_publication::{PublicationPhaseView, PublicationStepView};
use crate::local_install_store_recovery;
use crate::local_install_store_recovery::{ActionView, PhaseView, StepView};

verus! {

/// What a store holds, free of how it is spelled on disk.
#[verifier::ext_equal]
pub struct StoreModel {
    pub current: Option<CurrentView>,
    pub next: Option<CurrentView>,
    pub generations: Set<LoadedGenerationView>,
    pub staged: Option<LoadedGenerationView>,
    /// A generation being taken apart, with the number of files it has left.
    pub retirement: Option<(LoadedGenerationView, nat)>,
}

/// The observation of a document shows its bytes, whatever a JSON reader made of
/// them.
pub open spec fn shows(
    seen: Result<Option<CurrentObservationView>, StoreErrorView>,
    document: Option<CurrentView>,
) -> bool {
    match (seen, document) {
        (Ok(Some(found)), Some(current)) => found.bytes
            == local_install_store_documents::current_bytes(current),
        (Ok(None), None) => true,
        _ => false,
    }
}

pub open spec fn staged_names(m: StoreModel) -> Seq<Seq<char>> {
    let operations = match m.staged {
        Some(g) => seq![local_install_generation_store::operation_name(g.operation.id)],
        None => Seq::empty(),
    };
    let retirements = match m.retirement {
        Some(r) => seq![local_install_generation_store::retirement_name(r.0.generation.identity)],
        None => Seq::empty(),
    };
    operations + retirements
}

pub open spec fn holds_identity(m: StoreModel, identity: IdentityView) -> bool {
    exists|g: LoadedGenerationView| #[trigger]
        m.generations.contains(g) && g.generation.identity == identity
}

/// `names` lists the directory of every published generation, once.
pub open spec fn lists_generations(names: Seq<Seq<char>>, m: StoreModel) -> bool {
    &&& names.no_duplicates()
    &&& forall|g: LoadedGenerationView| #[trigger]
        m.generations.contains(g) ==> names.contains(
            local_install_generation_store::generation_name(g.generation.identity),
        )
    &&& forall|name: Seq<char>| #[trigger]
        names.contains(name) ==> exists|g: LoadedGenerationView| #[trigger]
            m.generations.contains(g) && name == local_install_generation_store::generation_name(
                g.generation.identity,
            )
}

pub open spec fn observes_staged(store: StoreView, m: StoreModel) -> bool {
    &&& store.staged_names == Ok::<Seq<Seq<char>>, StoreErrorView>(staged_names(m))
    &&& m.staged matches Some(g) ==> {
        &&& local_install_store_observation::directory_named(
            store.staged,
            local_install_generation_store::operation_name(g.operation.id),
        ) matches Some(directory) && directory.opened is Ok
            && local_install_store_observation::complete_generation(
            directory,
            store.owner,
            Some(g.operation.id),
            None,
        ) == Ok::<LoadedGenerationView, StoreErrorView>(g)
    }
    &&& match m.retirement {
        Some(r) => local_install_store_observation::directory_named(
            store.staged,
            local_install_generation_store::retirement_name(r.0.generation.identity),
        ) matches Some(directory) && directory.opened is Ok && observes_parts(
            store,
            directory,
            r.0,
            r.1,
        ),
        None => forall|identity: IdentityView|
            local_install_store_observation::directory_named(
                store.staged,
                #[trigger] local_install_generation_store::retirement_name(identity),
            ) is None,
    }
}

/// What is left of a retired generation.
#[verifier::opaque]
pub open spec fn observes_parts(
    store: StoreView,
    directory: DirectoryView,
    g: LoadedGenerationView,
    files: nat,
) -> bool {
    if files == 2 {
        local_install_store_observation::complete_generation(
            directory,
            store.owner,
            None,
            Some(g.generation.identity),
        ) == Ok::<LoadedGenerationView, StoreErrorView>(g)
    } else if files == 1 {
        &&& directory.entries == Ok::<Seq<Seq<char>>, StoreErrorView>(seq!["generation.json"@])
        &&& directory.document matches Ok(document)
            && local_install_store_documents::decoded_generation(document.bytes, document.parsed)
            == Ok::<LoadedGenerationView, StoreErrorView>(g)
    } else {
        &&& directory.entries == Ok::<Seq<Seq<char>>, StoreErrorView>(Seq::empty())
        &&& directory.still_named is Ok
    }
}

/// The observation of a store that holds exactly this, safely.
#[verifier::opaque]
pub open spec fn observes(store: StoreView, m: StoreModel) -> bool {
    &&& shows(store.current, m.current)
    &&& shows(store.current_next, m.next)
    &&& store.current_next_present == Ok::<bool, StoreErrorView>(m.next is Some)
    &&& store.generation_names matches Ok(names) && lists_generations(names, m)
    &&& forall|g: LoadedGenerationView| #[trigger]
        m.generations.contains(g) ==> local_install_store_observation::loaded_generation(
            store,
            g.generation.identity,
        ) == Ok::<LoadedGenerationView, StoreErrorView>(g)
    &&& forall|identity: IdentityView|
        !holds_identity(m, identity) ==> local_install_store_observation::directory_named(
            store.generations,
            #[trigger] local_install_generation_store::generation_name(identity),
        ) is None
    &&& observes_staged(store, m)
}

/// What performing an action does to the store.
pub open spec fn is_effect(before: StoreModel, action: ActionView, after: StoreModel) -> bool {
    match action {
        ActionView::RemoveCurrentNext => before.next is Some && after == (StoreModel {
            next: None,
            ..before
        }),
        ActionView::StageCurrentNext { bytes } => before.next is None && (after.next matches Some(
            document,
        ) && local_install_store_documents::current_bytes(document) == bytes) && after
            == (StoreModel { next: after.next, ..before }),
        ActionView::SwitchCurrentNext => before.next is Some && after == (StoreModel {
            current: before.next,
            next: None,
            ..before
        }),
        ActionView::StageCandidate { stage_name, document } => before.staged is None && (
        after.staged matches Some(g) && stage_name == local_install_generation_store::operation_name(
            g.operation.id,
        ) && g.document_bytes == document) && after == (StoreModel {
            staged: after.staged,
            ..before
        }),
        ActionView::PublishStaged { stage_name, generation_name } => {
            &&& before.staged matches Some(g) && stage_name
                == local_install_generation_store::operation_name(g.operation.id)
                && generation_name == local_install_generation_store::generation_name(
                g.generation.identity,
            ) && !holds_identity(before, g.generation.identity) && after == (StoreModel {
                staged: None,
                generations: before.generations.insert(g),
                ..before
            })
        },
        ActionView::RemoveStaged { stage_name } => {
            &&& before.staged matches Some(g) && stage_name
                == local_install_generation_store::operation_name(g.operation.id)
            &&& after == (StoreModel { staged: None, ..before })
        },
        ActionView::RetireGeneration { generation_name, retirement_name } => {
            &&& before.retirement is None
            &&& after.retirement matches Some(r) && r.1 == 2 && before.generations.contains(r.0)
                && generation_name == local_install_generation_store::generation_name(
                r.0.generation.identity,
            ) && retirement_name == local_install_generation_store::retirement_name(
                r.0.generation.identity,
            ) && after == (StoreModel {
                retirement: after.retirement,
                generations: before.generations.remove(r.0),
                ..before
            })
        },
        ActionView::RemoveRetiredBinary { retirement_name } => {
            &&& before.retirement matches Some(r) && r.1 == 2 && retirement_name
                == local_install_generation_store::retirement_name(r.0.generation.identity) && after
                == (StoreModel { retirement: Some((r.0, 1)), ..before })
        },
        ActionView::RemoveRetiredDocument { retirement_name } => {
            &&& before.retirement matches Some(r) && r.1 == 1 && retirement_name
                == local_install_generation_store::retirement_name(r.0.generation.identity) && after
                == (StoreModel { retirement: Some((r.0, 0)), ..before })
        },
        ActionView::RemoveRetiredDirectory { retirement_name } => {
            &&& before.retirement matches Some(r) && r.1 == 0 && retirement_name
                == local_install_generation_store::retirement_name(r.0.generation.identity) && after
                == (StoreModel { retirement: None, ..before })
        },
    }
}

/// A candidate over the accepted generation, which may be the first, and the
/// retained one, which may be missing.
pub struct Transition {
    pub accepted: Option<LoadedGenerationView>,
    pub retained: Option<LoadedGenerationView>,
    pub candidate: LoadedGenerationView,
}

pub open spec fn identity_of(g: Option<LoadedGenerationView>) -> Option<IdentityView> {
    match g {
        Some(value) => Some(value.generation.identity),
        None => None,
    }
}

/// A generation whose own document was accepted.
pub open spec fn is_stored(g: LoadedGenerationView) -> bool {
    &&& local_install_generation_store::is_nameable(g.generation.identity)
    &&& local_install_store_documents::stored_operation(g.operation) is Ok
    &&& local_install_generation_store::successor_number(g.generation.predecessor)
        == g.generation.identity.number
}

impl Transition {
    pub open spec fn old_document(self) -> Option<CurrentView> {
        match self.accepted {
            Some(accepted) => Some(
                CurrentView {
                    store_schema_version: LOCAL_INSTALL_GENERATION_STORE_SCHEMA_VERSION,
                    accepted: Some(accepted.generation.identity),
                    retained: identity_of(self.retained),
                    retiring: None,
                    last_operation: Some(accepted.operation),
                },
            ),
            None => None,
        }
    }

    /// The document that accepts the candidate, with or without the marker
    /// that retires what was retained.
    pub open spec fn new_document(self, marked: bool) -> CurrentView {
        CurrentView {
            store_schema_version: LOCAL_INSTALL_GENERATION_STORE_SCHEMA_VERSION,
            accepted: Some(self.candidate.generation.identity),
            retained: identity_of(self.accepted),
            retiring: if marked {
                identity_of(self.retained)
            } else {
                None
            },
            last_operation: Some(self.candidate.operation),
        }
    }

    /// Exact successive generations under distinct operations.
    pub open spec fn is_valid(self) -> bool {
        &&& is_stored(self.candidate)
        &&& self.candidate.generation.predecessor == identity_of(self.accepted)
        &&& match self.accepted {
            Some(accepted) => is_stored(accepted) && accepted.generation.predecessor == identity_of(
                self.retained,
            ) && accepted.operation.id != self.candidate.operation.id,
            None => self.retained is None,
        }
        &&& match self.retained {
            Some(retained) => is_stored(retained) && retained.operation.id
                != self.accepted->0.operation.id && retained.operation.id
                != self.candidate.operation.id,
            None => true,
        }
    }

    pub open spec fn old_generations(self) -> Set<LoadedGenerationView> {
        Set::new(|g: LoadedGenerationView| self.accepted == Some(g) || self.retained == Some(g))
    }

    pub open spec fn new_generations(self) -> Set<LoadedGenerationView> {
        Set::new(|g: LoadedGenerationView| self.accepted == Some(g) || g == self.candidate)
    }
}

/// The documents of a transition stay within their byte limit.
proof fn lemma_documents_fit(t: Transition)
    requires
        t.is_valid(),
    ensures
        local_install_store_documents::encoded_current(t.new_document(true)) is Ok,
        local_install_store_documents::encoded_current(t.new_document(false)) is Ok,
        t.old_document() matches Some(document)
            ==> local_install_store_documents::encoded_current(document) is Ok,
{
    local_install_store_documents::law_current_documents_fit(t.new_document(true));
    local_install_store_documents::law_current_documents_fit(t.new_document(false));
    if let Some(document) = t.old_document() {
        local_install_store_documents::law_current_documents_fit(document);
    }
}

/// The points that a publication passes, in order.
pub enum Point {
    Before,
    Staged,
    Published,
    NextStaged,
    Switched,
    Retiring,
    BinaryRemoved,
    DocumentRemoved,
    Dismantled,
    ClearStaged,
    After,
}

pub open spec fn changes_left(point: Point) -> nat {
    match point {
        Point::Before => 10,
        Point::Staged => 9,
        Point::Published => 8,
        Point::NextStaged => 7,
        Point::Switched => 6,
        Point::Retiring => 5,
        Point::BinaryRemoved => 4,
        Point::DocumentRemoved => 3,
        Point::Dismantled => 2,
        Point::ClearStaged => 1,
        Point::After => 0,
    }
}

pub open spec fn point_after(point: Point) -> Point {
    match point {
        Point::Before => Point::Staged,
        Point::Staged => Point::Published,
        Point::Published => Point::NextStaged,
        Point::NextStaged => Point::Switched,
        Point::Switched => Point::Retiring,
        Point::Retiring => Point::BinaryRemoved,
        Point::BinaryRemoved => Point::DocumentRemoved,
        Point::DocumentRemoved => Point::Dismantled,
        Point::Dismantled => Point::ClearStaged,
        Point::ClearStaged => Point::After,
        Point::After => Point::After,
    }
}

/// Without a generation to retire, the switch is the last point.
pub open spec fn is_reached(t: Transition, point: Point) -> bool {
    t.retained is Some || changes_left(point) >= changes_left(Point::Switched)
}

pub open spec fn model_at(t: Transition, point: Point) -> StoreModel {
    let marked = Some(t.new_document(true));
    let all = t.old_generations().insert(t.candidate);
    match point {
        Point::Before => StoreModel {
            current: t.old_document(),
            next: None,
            generations: t.old_generations(),
            staged: None,
            retirement: None,
        },
        Point::Staged => StoreModel {
            current: t.old_document(),
            next: None,
            generations: t.old_generations(),
            staged: Some(t.candidate),
            retirement: None,
        },
        Point::Published => StoreModel {
            current: t.old_document(),
            next: None,
            generations: all,
            staged: None,
            retirement: None,
        },
        Point::NextStaged => StoreModel {
            current: t.old_document(),
            next: marked,
            generations: all,
            staged: None,
            retirement: None,
        },
        Point::Switched => StoreModel {
            current: marked,
            next: None,
            generations: all,
            staged: None,
            retirement: None,
        },
        Point::Retiring => StoreModel {
            current: marked,
            next: None,
            generations: t.new_generations(),
            staged: None,
            retirement: Some((t.retained->0, 2)),
        },
        Point::BinaryRemoved => StoreModel {
            current: marked,
            next: None,
            generations: t.new_generations(),
            staged: None,
            retirement: Some((t.retained->0, 1)),
        },
        Point::DocumentRemoved => StoreModel {
            current: marked,
            next: None,
            generations: t.new_generations(),
            staged: None,
            retirement: Some((t.retained->0, 0)),
        },
        Point::Dismantled => StoreModel {
            current: marked,
            next: None,
            generations: t.new_generations(),
            staged: None,
            retirement: None,
        },
        Point::ClearStaged => StoreModel {
            current: marked,
            next: Some(t.new_document(false)),
            generations: t.new_generations(),
            staged: None,
            retirement: None,
        },
        Point::After => StoreModel {
            current: Some(t.new_document(false)),
            next: None,
            generations: t.new_generations(),
            staged: None,
            retirement: None,
        },
    }
}

/// The phases in which a recovery can stand at a point.
pub open spec fn fits(t: Transition, phase: PhaseView, point: Point) -> bool {
    match phase {
        PhaseView::Inspect => true,
        PhaseView::WriteCurrent { document, cleanup, .. } => point is Published && document
            == t.new_document(true) && cleanup,
        PhaseView::SwitchCurrent { cleanup, .. } => if cleanup {
            point is NextStaged
        } else {
            point is ClearStaged
        },
        PhaseView::Cleanup { .. } => point is Switched || point is After,
        PhaseView::FinishRetirement { retirement_name, .. } => t.retained is Some && retirement_name
            == local_install_generation_store::retirement_name(t.retained->0.generation.identity)
            && (point is Retiring || point is BinaryRemoved || point is DocumentRemoved),
        PhaseView::ClearMarker { .. } => point is Dismantled,
        PhaseView::Done { .. } => point is After,
    }
}

/// Whether nothing is left to do at a point.
pub open spec fn is_settled(t: Transition, point: Point) -> bool {
    point is Before || point is After || (point is Switched && t.retained is None)
}

proof fn lemma_directory_name(directories: Seq<DirectoryView>, name: Seq<char>)
    ensures
        local_install_store_observation::directory_named(directories, name) matches Some(d)
            ==> d.name == name,
    decreases directories.len(),
{
    if directories.len() > 0 && directories[0].name != name {
        lemma_directory_name(directories.skip(1), name);
    }
}

pub(crate) proof fn lemma_unreferenced(names: Seq<Seq<char>>, referenced: Seq<Seq<char>>)
    requires
        names.no_duplicates(),
    ensures
        local_install_store_recovery::unreferenced(names, referenced).no_duplicates(),
        forall|x: Seq<char>|
            local_install_store_recovery::unreferenced(names, referenced).contains(x) <==> (
            #[trigger] names.contains(x) && !referenced.contains(x)),
    decreases names.len(),
{
    let result = local_install_store_recovery::unreferenced(names, referenced);
    if names.len() > 0 {
        let front = names.drop_last();
        let rest = local_install_store_recovery::unreferenced(front, referenced);
        assert(front.no_duplicates());
        lemma_unreferenced(front, referenced);
        assert(!front.contains(names.last())) by {
            if front.contains(names.last()) {
                let i = choose|i: int| 0 <= i < front.len() && front[i] == names.last();
                assert(names[i] == names[names.len() - 1]);
            }
        }
        assert forall|x: Seq<char>| result.contains(x) <==> (#[trigger] names.contains(x)
            && !referenced.contains(x)) by {
            assert(names =~= front.push(names.last()));
            if names.contains(x) && x != names.last() {
                let i = choose|i: int| 0 <= i < names.len() && names[i] == x;
                assert(front[i] == x);
                assert(front.contains(x));
            }
            if front.contains(x) {
                let i = choose|i: int| 0 <= i < front.len() && front[i] == x;
                assert(names[i] == x);
            }
            if rest.contains(x) {
                let i = choose|i: int| 0 <= i < rest.len() && rest[i] == x;
                assert(result[i] == x);
            }
            if result.contains(x) && x != names.last() {
                let i = choose|i: int| 0 <= i < result.len() && result[i] == x;
                assert(rest[i] == x);
            }
            if !referenced.contains(names.last()) {
                assert(result[result.len() - 1] == names.last());
            }
            assert(names[names.len() - 1] == names.last());
        }
        assert(result.no_duplicates()) by {
            if !referenced.contains(names.last()) {
                assert(!rest.contains(names.last()));
                assert forall|i: int, j: int|
                    0 <= i < result.len() && 0 <= j < result.len() && i != j implies result[i]
                    != result[j] by {
                    if i == rest.len() {
                        assert(rest[j] == result[j]);
                        assert(rest.contains(rest[j]));
                    } else if j == rest.len() {
                        assert(rest[i] == result[i]);
                        assert(rest.contains(rest[i]));
                    }
                }
            }
        }
    }
}

pub open spec fn state_of(
    c: CurrentView,
    accepted: LoadedGenerationView,
    retained: Option<LoadedGenerationView>,
) -> LoadedCurrentView {
    LoadedCurrentView {
        snapshot: SnapshotView {
            state: StateView {
                accepted: Some(accepted.generation),
                retained: local_install_store_observation::retained_list(retained),
            },
            last_operation: Some(accepted.operation.id),
        },
        operation: c.last_operation,
        retained_operation: match retained {
            Some(value) => Some(value.operation),
            None => None,
        },
        accepted_identity: c.accepted,
        retained_identity: c.retained,
        retiring_identity: c.retiring,
        bytes: local_install_store_documents::current_bytes(c),
    }
}

proof fn lemma_stored_identity(identity: IdentityView)
    requires
        local_install_generation_store::is_nameable(identity),
    ensures
        local_install_store_documents::stored_identity(identity) == Ok::<
            IdentityView,
            StoreErrorView,
        >(identity),
{
}

/// A consistent document over generations that load is itself loaded.
proof fn lemma_loads(
    store: StoreView,
    document: CurrentObservationView,
    c: CurrentView,
    accepted: LoadedGenerationView,
    retained: Option<LoadedGenerationView>,
)
    requires
        c.store_schema_version == LOCAL_INSTALL_GENERATION_STORE_SCHEMA_VERSION,
        local_install_store_documents::encoded_current(c) is Ok,
        c.accepted == Some(accepted.generation.identity),
        c.retained == identity_of(retained),
        c.last_operation == Some(accepted.operation),
        is_stored(accepted),
        accepted.generation.predecessor == identity_of(retained),
        local_install_store_observation::loaded_generation(store, accepted.generation.identity)
            == Ok::<LoadedGenerationView, StoreErrorView>(accepted),
        retained matches Some(r) ==> is_stored(r) && r.operation.id != accepted.operation.id
            && local_install_store_observation::loaded_generation(store, r.generation.identity)
            == Ok::<LoadedGenerationView, StoreErrorView>(r),
        c.retiring matches Some(identity) ==> local_install_generation_store::is_nameable(identity)
            && retained is Some && retained->0.generation.predecessor == c.retiring,
        document.bytes == local_install_store_documents::current_bytes(c),
    ensures
        local_install_store_observation::loaded_current(store, document) == Ok::<
            LoadedCurrentView,
            StoreErrorView,
        >(state_of(c, accepted, retained)),
{
    local_install_store_documents::law_current_document_round_trip(c, document.parsed);
    lemma_stored_identity(accepted.generation.identity);
    if let Some(r) = retained {
        lemma_stored_identity(r.generation.identity);
        assert(accepted.generation.identity.number == r.generation.identity.number + 1);
    }
    if let Some(identity) = c.retiring {
        lemma_stored_identity(identity);
    }
    assert(local_install_store_observation::loaded_parts(store, c) == Ok::<
        (Option<LoadedGenerationView>, Option<LoadedGenerationView>),
        StoreErrorView,
    >((Some(accepted), retained)));
}

pub open spec fn accepts_candidate(point: Point) -> bool {
    changes_left(point) <= changes_left(Point::Switched)
}

pub open spec fn current_at(t: Transition, point: Point) -> LoadedCurrentView {
    if accepts_candidate(point) {
        state_of(t.new_document(!(point is After)), t.candidate, t.accepted)
    } else {
        match t.accepted {
            Some(accepted) => state_of(t.old_document()->0, accepted, t.retained),
            None => local_install_store_observation::empty_current(),
        }
    }
}

pub open spec fn next_at(t: Transition, point: Point) -> Option<LoadedCurrentView> {
    match point {
        Point::NextStaged => Some(state_of(t.new_document(true), t.candidate, t.accepted)),
        Point::ClearStaged => Some(state_of(t.new_document(false), t.candidate, t.accepted)),
        _ => None,
    }
}

pub(crate) proof fn lemma_observed_documents(store: StoreView, m: StoreModel)
    requires
        observes(store, m),
    ensures
        shows(store.current, m.current),
        shows(store.current_next, m.next),
        store.current_next_present == Ok::<bool, StoreErrorView>(m.next is Some),
{
    reveal(observes);
}

pub(crate) proof fn lemma_observed_staged(store: StoreView, m: StoreModel)
    requires
        observes(store, m),
    ensures
        observes_staged(store, m),
{
    reveal(observes);
}

/// The document is read as this state.
#[verifier::opaque]
spec fn loads_as(store: StoreView, c: CurrentView, state: LoadedCurrentView) -> bool {
    forall|document: CurrentObservationView|
        document.bytes == local_install_store_documents::current_bytes(c) ==> (
        #[trigger] local_install_store_observation::loaded_current(store, document)) == Ok::<
            LoadedCurrentView,
            StoreErrorView,
        >(state)
}

proof fn lemma_current_is(store: StoreView, c: CurrentView, state: LoadedCurrentView)
    requires
        loads_as(store, c, state),
    ensures
        shows(store.current, Some(c)) ==> local_install_store_observation::current_state(store) == Ok::<
            LoadedCurrentView,
            StoreErrorView,
        >(state),
        shows(store.current_next, Some(c)) ==> local_install_store_observation::next_state(store) == Ok::<
            Option<LoadedCurrentView>,
            StoreErrorView,
        >(Some(state)),
{
    reveal(local_install_store_observation::current_state);
    reveal(local_install_store_observation::next_state);
    reveal(loads_as);
}

/// The published generation is read as this one.
#[verifier::opaque]
spec fn publishes(store: StoreView, g: LoadedGenerationView) -> bool {
    local_install_store_observation::loaded_generation(store, g.generation.identity) == Ok::<
        LoadedGenerationView,
        StoreErrorView,
    >(g)
}

proof fn lemma_observed_generation(store: StoreView, m: StoreModel, g: LoadedGenerationView)
    requires
        observes(store, m),
        m.generations.contains(g),
    ensures
        publishes(store, g),
{
    reveal(observes);
    reveal(publishes);
}

proof fn lemma_observed_absence(store: StoreView, m: StoreModel, identity: IdentityView)
    requires
        observes(store, m),
        !holds_identity(m, identity),
    ensures
        local_install_store_observation::directory_named(
            store.generations,
            local_install_generation_store::generation_name(identity),
        ) is None,
{
    reveal(observes);
}

pub(crate) proof fn lemma_observed_names(store: StoreView, m: StoreModel)
    requires
        observes(store, m),
    ensures
        store.generation_names matches Ok(names) && lists_generations(names, m),
{
    reveal(observes);
}

proof fn lemma_old_loads(store: StoreView, t: Transition)
    requires
        t.is_valid(),
        t.accepted matches Some(a) ==> publishes(store, a),
        t.retained matches Some(r) ==> publishes(store, r),
    ensures
        t.accepted matches Some(a) ==> loads_as(
            store,
            t.old_document()->0,
            state_of(t.old_document()->0, a, t.retained),
        ),
{
    reveal(loads_as);
    reveal(publishes);
    lemma_documents_fit(t);
    if let Some(a) = t.accepted {
        let c = t.old_document()->0;
        assert forall|document: CurrentObservationView|
            document.bytes == local_install_store_documents::current_bytes(c) implies (
        #[trigger] local_install_store_observation::loaded_current(store, document)) == Ok::<
            LoadedCurrentView,
            StoreErrorView,
        >(state_of(c, a, t.retained)) by {
            lemma_loads(store, document, c, a, t.retained);
        }
    }
}

proof fn lemma_new_loads(store: StoreView, t: Transition, marked: bool)
    requires
        t.is_valid(),
        t.accepted matches Some(a) ==> publishes(store, a),
        publishes(store, t.candidate),
    ensures
        loads_as(
            store,
            t.new_document(marked),
            state_of(t.new_document(marked), t.candidate, t.accepted),
        ),
{
    reveal(loads_as);
    reveal(publishes);
    lemma_documents_fit(t);
    let c = t.new_document(marked);
    assert forall|document: CurrentObservationView|
        document.bytes == local_install_store_documents::current_bytes(c) implies (
    #[trigger] local_install_store_observation::loaded_current(store, document)) == Ok::<
        LoadedCurrentView,
        StoreErrorView,
    >(state_of(c, t.candidate, t.accepted)) by {
        lemma_loads(store, document, c, t.candidate, t.accepted);
    }
}

proof fn lemma_no_next(store: StoreView)
    requires
        store.current_next == Ok::<Option<CurrentObservationView>, StoreErrorView>(None),
    ensures
        local_install_store_observation::next_state(store) == Ok::<
            Option<LoadedCurrentView>,
            StoreErrorView,
        >(None),
{
    reveal(local_install_store_observation::next_state);
}

/// Both documents of the store are read as the states of the point.
proof fn lemma_old_state(store: StoreView, t: Transition, point: Point)
    requires
        t.is_valid(),
        !accepts_candidate(point),
        observes(store, model_at(t, point)),
    ensures
        local_install_store_observation::current_state(store) == Ok::<
            LoadedCurrentView,
            StoreErrorView,
        >(current_at(t, point)),
{
    reveal(local_install_store_observation::current_state);
    let m = model_at(t, point);
    lemma_observed_documents(store, m);
    match t.accepted {
        Some(accepted) => {
            assert(m.generations.contains(accepted));
            lemma_observed_generation(store, m, accepted);
            if let Some(retained) = t.retained {
                assert(m.generations.contains(retained));
                lemma_observed_generation(store, m, retained);
            }
            lemma_old_loads(store, t);
            lemma_current_is(
                store,
                t.old_document()->0,
                state_of(t.old_document()->0, accepted, t.retained),
            );
        },
        None => {},
    }
}

proof fn lemma_new_state(store: StoreView, t: Transition, point: Point, marked: bool)
    requires
        t.is_valid(),
        !(point is Before || point is Staged),
        observes(store, model_at(t, point)),
    ensures
        model_at(t, point).current == Some(t.new_document(marked))
            ==> local_install_store_observation::current_state(store) == Ok::<
            LoadedCurrentView,
            StoreErrorView,
        >(state_of(t.new_document(marked), t.candidate, t.accepted)),
        model_at(t, point).next == Some(t.new_document(marked))
            ==> local_install_store_observation::next_state(store) == Ok::<
            Option<LoadedCurrentView>,
            StoreErrorView,
        >(Some(state_of(t.new_document(marked), t.candidate, t.accepted))),
{
    let m = model_at(t, point);
    lemma_observed_documents(store, m);
    if let Some(accepted) = t.accepted {
        assert(m.generations.contains(accepted));
        lemma_observed_generation(store, m, accepted);
    }
    assert(m.generations.contains(t.candidate));
    lemma_observed_generation(store, m, t.candidate);
    lemma_new_loads(store, t, marked);
    lemma_current_is(
        store,
        t.new_document(marked),
        state_of(t.new_document(marked), t.candidate, t.accepted),
    );
}

proof fn lemma_states(store: StoreView, t: Transition, point: Point)
    requires
        t.is_valid(),
        is_reached(t, point),
        observes(store, model_at(t, point)),
    ensures
        local_install_store_observation::current_state(store) == Ok::<
            LoadedCurrentView,
            StoreErrorView,
        >(current_at(t, point)),
        local_install_store_observation::next_state(store) == Ok::<
            Option<LoadedCurrentView>,
            StoreErrorView,
        >(next_at(t, point)),
{
    let m = model_at(t, point);
    lemma_observed_documents(store, m);
    if accepts_candidate(point) {
        lemma_new_state(store, t, point, !(point is After));
    } else {
        lemma_old_state(store, t, point);
    }
    if point is NextStaged {
        lemma_new_state(store, t, point, true);
    } else if point is ClearStaged {
        lemma_new_state(store, t, point, false);
    } else {
        lemma_no_next(store);
    }
}

/// The generation that the current document does not name at a point.
pub open spec fn extra_at(t: Transition, point: Point) -> Option<LoadedGenerationView> {
    match point {
        Point::Published | Point::NextStaged => Some(t.candidate),
        Point::Switched => t.retained,
        _ => None,
    }
}

proof fn lemma_only(names: Seq<Seq<char>>, x: Seq<char>)
    requires
        names.no_duplicates(),
        forall|y: Seq<char>| names.contains(y) <==> y == x,
    ensures
        names == seq![x],
{
    assert(names.contains(x));
    let i = choose|i: int| 0 <= i < names.len() && names[i] == x;
    if names.len() > 1 {
        let j: int = if i == 0 {
            1
        } else {
            0
        };
        assert(names.contains(names[j]));
        assert(false);
    }
    assert(names =~= seq![x]);
}

proof fn lemma_none(names: Seq<Seq<char>>)
    requires
        forall|y: Seq<char>| !names.contains(y),
    ensures
        names.len() == 0,
{
    if names.len() > 0 {
        assert(names.contains(names[0]));
    }
}

pub open spec fn name_of(g: LoadedGenerationView) -> Seq<char> {
    local_install_generation_store::generation_name(g.generation.identity)
}

proof fn lemma_names_differ(a: LoadedGenerationView, b: LoadedGenerationView)
    requires
        is_stored(a),
        is_stored(b),
        a.generation.identity.number != b.generation.identity.number,
    ensures
        name_of(a) != name_of(b),
{
    if name_of(a) == name_of(b) {
        local_install_generation_store::law_generation_names_are_distinct(
            a.generation.identity,
            b.generation.identity,
        );
    }
}

proof fn lemma_numbers(t: Transition)
    requires
        t.is_valid(),
    ensures
        t.accepted matches Some(a) ==> t.candidate.generation.identity.number
            == a.generation.identity.number + 1 && name_of(a) != name_of(t.candidate),
        t.retained matches Some(r) ==> t.accepted->0.generation.identity.number
            == r.generation.identity.number + 1 && name_of(r) != name_of(t.candidate) && name_of(r)
            != name_of(t.accepted->0),
{
    if let Some(a) = t.accepted {
        lemma_names_differ(a, t.candidate);
        if let Some(r) = t.retained {
            lemma_names_differ(r, t.candidate);
            lemma_names_differ(r, a);
        }
    }
}

/// The generations that the current document names at a point.
spec fn named_at(t: Transition, point: Point) -> (
    Option<LoadedGenerationView>,
    Option<LoadedGenerationView>,
) {
    if accepts_candidate(point) {
        (Some(t.candidate), t.accepted)
    } else {
        (t.accepted, t.retained)
    }
}

proof fn lemma_referenced(t: Transition, point: Point)
    requires
        t.is_valid(),
    ensures
        local_install_store_recovery::referenced_names(current_at(t, point)) matches Ok(referenced)
            && forall|x: Seq<char>|
            referenced.contains(x) <==> ((named_at(t, point).0 matches Some(g) && x == name_of(g))
                || (named_at(t, point).1 matches Some(g) && x == name_of(g))),
{
    let referenced = local_install_store_recovery::referenced_names(current_at(t, point))->Ok_0;
    match named_at(t, point) {
        (Some(a), Some(b)) => {
            assert(referenced =~= seq![name_of(a), name_of(b)]);
            assert(referenced[0] == name_of(a) && referenced[1] == name_of(b));
        },
        (Some(a), None) => {
            assert(referenced =~= seq![name_of(a)]);
            assert(referenced[0] == name_of(a));
        },
        _ => {
            assert(referenced =~= Seq::empty());
        },
    }
}

pub(crate) proof fn lemma_extra_names(
    store: StoreView,
    m: StoreModel,
    referenced: Seq<Seq<char>>,
    extra: Option<LoadedGenerationView>,
)
    requires
        observes(store, m),
        forall|h: LoadedGenerationView| #[trigger]
            m.generations.contains(h) ==> referenced.contains(name_of(h)) || extra == Some(h),
        extra matches Some(g) ==> m.generations.contains(g) && !referenced.contains(name_of(g)),
    ensures
        store.generation_names is Ok,
        local_install_store_recovery::unreferenced(store.generation_names->Ok_0, referenced) == (
        match extra {
            Some(g) => seq![name_of(g)],
            None => Seq::<Seq<char>>::empty(),
        }),
{
    lemma_observed_names(store, m);
    let names = store.generation_names->Ok_0;
    let extras = local_install_store_recovery::unreferenced(names, referenced);
    lemma_unreferenced(names, referenced);
    match extra {
        Some(g) => {
            assert forall|y: Seq<char>| extras.contains(y) <==> y == name_of(g) by {
                if extras.contains(y) {
                    assert(names.contains(y));
                    let h = choose|h: LoadedGenerationView| #[trigger]
                        m.generations.contains(h) && y == name_of(h);
                    assert(m.generations.contains(h));
                }
                assert(names.contains(name_of(g)));
            }
            lemma_only(extras, name_of(g));
        },
        None => {
            assert forall|y: Seq<char>| !extras.contains(y) by {
                if extras.contains(y) {
                    assert(names.contains(y));
                    let h = choose|h: LoadedGenerationView| #[trigger]
                        m.generations.contains(h) && y == name_of(h);
                    assert(m.generations.contains(h));
                }
            }
            lemma_none(extras);
            assert(extras =~= Seq::empty());
        },
    }
}

proof fn lemma_extras(store: StoreView, t: Transition, point: Point)
    requires
        t.is_valid(),
        is_reached(t, point),
        observes(store, model_at(t, point)),
    ensures
        local_install_store_recovery::extra_names(store, current_at(t, point)) == Ok::<
            Seq<Seq<char>>,
            StoreErrorView,
        >(
            match extra_at(t, point) {
                Some(g) => seq![local_install_generation_store::generation_name(
                    g.generation.identity,
                )],
                None => Seq::empty(),
            },
        ),
{
    lemma_numbers(t);
    lemma_referenced(t, point);
    let m = model_at(t, point);
    let referenced = local_install_store_recovery::referenced_names(current_at(t, point))->Ok_0;
    assert forall|h: LoadedGenerationView| #[trigger]
        m.generations.contains(h) implies referenced.contains(name_of(h)) || extra_at(t, point)
        == Some(h) by {}
    lemma_extra_names(store, m, referenced, extra_at(t, point));
}

proof fn lemma_selected(store: StoreView, t: Transition, point: Point)
    requires
        t.is_valid(),
        is_reached(t, point),
        observes(store, model_at(t, point)),
    ensures
        ({
            let names = store.staged_names->Ok_0;
            let m = model_at(t, point);
            &&& local_install_store_recovery::selected(names, true) == (match m.staged {
                Some(g) => seq![local_install_generation_store::operation_name(g.operation.id)],
                None => Seq::<Seq<char>>::empty(),
            })
            &&& local_install_store_recovery::selected(names, false) == (match m.retirement {
                Some(r) => seq![local_install_generation_store::retirement_name(
                    r.0.generation.identity,
                )],
                None => Seq::<Seq<char>>::empty(),
            })
        }),
{
    reveal_with_fuel(local_install_store_recovery::selected, 3);
    let m = model_at(t, point);
    lemma_observed_staged(store, m);
    let names = store.staged_names->Ok_0;
    let none = Seq::<Seq<char>>::empty();
    match (m.staged, m.retirement) {
        (Some(g), _) => {
            assert(names =~= seq![local_install_generation_store::operation_name(g.operation.id)]);
            local_install_generation_store::law_operation_name_round_trip(g.operation.id, names[0]);
            assert(names.drop_last() =~= none);
            assert(names.last() == names[0]);
            assert(none.push(names[0]) =~= names);
        },
        (None, Some(r)) => {
            assert(names =~= seq![
                local_install_generation_store::retirement_name(r.0.generation.identity),
            ]);
            local_install_generation_store::law_retirement_name_round_trip(
                r.0.generation.identity,
                names[0],
            );
            local_install_generation_store::law_staged_names_are_disjoint(names[0]);
            assert(names.drop_last() =~= none);
            assert(names.last() == names[0]);
            assert(none.push(names[0]) =~= names);
        },
        (None, None) => {
            assert(names =~= none);
        },
    }
}

proof fn lemma_inspect(store: StoreView, t: Transition, point: Point)
    requires
        t.is_valid(),
        is_reached(t, point),
        observes(store, model_at(t, point)),
    ensures
        local_install_store_recovery::inspect_step(store) == (match point {
            Point::NextStaged | Point::ClearStaged => local_install_store_recovery::next_step(
                store,
                next_at(t, point)->0,
            ),
            Point::Retiring
            | Point::BinaryRemoved
            | Point::DocumentRemoved => local_install_store_recovery::retirement_step(
                store,
                local_install_generation_store::retirement_name(
                    t.retained->0.generation.identity,
                ),
                LocalInstallGenerationRecoveryDisposition::RemovedCleanupDebt,
            ),
            Point::Staged => local_install_store_recovery::staged_step(
                store,
                local_install_generation_store::operation_name(t.candidate.operation.id),
            ),
            _ => local_install_store_recovery::unreferenced_step(store),
        }),
{
    lemma_states(store, t, point);
    lemma_selected(store, t, point);
    lemma_observed_documents(store, model_at(t, point));
    lemma_observed_staged(store, model_at(t, point));
}

/// A phase that is settled ends the recovery.
proof fn lemma_settled(store: StoreView, t: Transition, phase: PhaseView, point: Point)
    requires
        t.is_valid(),
        is_reached(t, point),
        observes(store, model_at(t, point)),
        fits(t, phase, point),
        is_settled(t, point),
    ensures
        local_install_store_recovery::recovery_decision(phase, store) matches Ok(
            StepView::Finished { .. },
        ),
{
    lemma_states(store, t, point);
    lemma_extras(store, t, point);
    lemma_inspect(store, t, point);
}

spec fn steps_to(
    t: Transition,
    point: Point,
    step: Result<StepView, StoreErrorView>,
) -> bool {
    step matches Ok(StepView::Perform { action, next }) && is_effect(
        model_at(t, point),
        action,
        model_at(t, point_after(point)),
    ) && fits(t, next, point_after(point))
}

proof fn lemma_write_moves(
    t: Transition,
    point: Point,
    disposition: LocalInstallGenerationRecoveryDisposition,
)
    requires
        t.is_valid(),
        point is Published || point is Dismantled,
    ensures
        steps_to(
            t,
            point,
            local_install_store_recovery::write_step(
                t.new_document(point is Published),
                point is Published,
                disposition,
            ),
        ),
{
    let marked = point is Published;
    lemma_documents_fit(t);
    assert(local_install_store_documents::encoded_current(t.new_document(marked)) == Ok::<
        Seq<u8>,
        StoreErrorView,
    >(local_install_store_documents::current_bytes(t.new_document(marked))));
}

proof fn lemma_staged_moves(store: StoreView, t: Transition)
    requires
        t.is_valid(),
        observes(store, model_at(t, Point::Staged)),
    ensures
        steps_to(t, Point::Staged, local_install_store_recovery::inspect_step(store)),
{
    let m = model_at(t, Point::Staged);
    lemma_numbers(t);
    lemma_states(store, t, Point::Staged);
    lemma_inspect(store, t, Point::Staged);
    lemma_observed_staged(store, m);
    local_install_generation_store::law_operation_name_round_trip(
        t.candidate.operation.id,
        Seq::empty(),
    );
    assert(!holds_identity(m, t.candidate.generation.identity));
    lemma_observed_absence(store, m, t.candidate.generation.identity);
    let after = model_at(t, Point::Published);
    assert(after =~= (StoreModel {
        staged: None,
        generations: m.generations.insert(t.candidate),
        ..m
    }));
}

proof fn lemma_published_moves(store: StoreView, t: Transition)
    requires
        t.is_valid(),
        observes(store, model_at(t, Point::Published)),
    ensures
        steps_to(t, Point::Published, local_install_store_recovery::inspect_step(store)),
{
    let m = model_at(t, Point::Published);
    lemma_numbers(t);
    lemma_states(store, t, Point::Published);
    lemma_extras(store, t, Point::Published);
    lemma_inspect(store, t, Point::Published);
    local_install_generation_store::law_generation_name_round_trip(
        t.candidate.generation.identity,
    );
    assert(m.generations.contains(t.candidate));
    lemma_observed_generation(store, m, t.candidate);
    reveal(publishes);
    lemma_write_moves(
        t,
        Point::Published,
        LocalInstallGenerationRecoveryDisposition::CompletedCurrentSwitch,
    );
}

proof fn lemma_document_is_nonempty(c: CurrentView)
    ensures
        local_install_store_documents::current_bytes(c).len() > 0,
{
    let rendered = crate::canonical_json::rendered(local_install_store_documents::current_json(c));
    assert(rendered.len() > 0);
    vstd::utf8::encode_utf8_decode_utf8(rendered);
    let bytes = local_install_store_documents::current_bytes(c);
    if bytes.len() == 0 {
        assert(bytes =~= Seq::empty());
        assert(vstd::utf8::decode_utf8(bytes).len() == 0);
    }
}

proof fn lemma_next_moves(store: StoreView, t: Transition, point: Point)
    requires
        t.is_valid(),
        is_reached(t, point),
        point is NextStaged || point is ClearStaged,
        observes(store, model_at(t, point)),
    ensures
        steps_to(t, point, local_install_store_recovery::inspect_step(store)),
{
    lemma_numbers(t);
    lemma_states(store, t, point);
    lemma_inspect(store, t, point);
    let current = current_at(t, point);
    let next = next_at(t, point)->0;
    assert(next.bytes != current.bytes) by {
        if next.bytes == current.bytes {
            if point is ClearStaged {
                local_install_store_documents::law_current_documents_are_distinct(
                    t.new_document(false),
                    t.new_document(true),
                );
            } else if t.accepted is Some {
                local_install_store_documents::law_current_documents_are_distinct(
                    t.new_document(true),
                    t.old_document()->0,
                );
            } else {
                lemma_document_is_nonempty(t.new_document(true));
            }
        }
    }
}

proof fn lemma_retire_moves(
    store: StoreView,
    t: Transition,
    disposition: LocalInstallGenerationRecoveryDisposition,
)
    requires
        t.is_valid(),
        t.retained is Some,
        observes(store, model_at(t, Point::Switched)),
    ensures
        steps_to(
            t,
            Point::Switched,
            local_install_store_recovery::retire_step(
                store,
                name_of(t.retained->0),
                t.retained->0.generation.identity,
                disposition,
            ),
        ),
{
    reveal(local_install_store_observation::loaded_generation);
    let m = model_at(t, Point::Switched);
    let retained = t.retained->0;
    lemma_numbers(t);
    assert(m.generations.contains(retained));
    lemma_observed_generation(store, m, retained);
    reveal(publishes);
    lemma_observed_staged(store, m);
    let rname = local_install_generation_store::retirement_name(retained.generation.identity);
    assert(local_install_store_observation::directory_named(store.staged, rname) is None);
    let after = model_at(t, Point::Retiring);
    assert(after.generations =~= m.generations.remove(retained));
    assert(after =~= (StoreModel {
        retirement: after.retirement,
        generations: m.generations.remove(retained),
        ..m
    }));
}

proof fn lemma_switched_moves(store: StoreView, t: Transition)
    requires
        t.is_valid(),
        t.retained is Some,
        observes(store, model_at(t, Point::Switched)),
    ensures
        steps_to(t, Point::Switched, local_install_store_recovery::inspect_step(store)),
{
    let m = model_at(t, Point::Switched);
    let retained = t.retained->0;
    lemma_numbers(t);
    lemma_states(store, t, Point::Switched);
    lemma_extras(store, t, Point::Switched);
    lemma_inspect(store, t, Point::Switched);
    local_install_generation_store::law_generation_name_round_trip(retained.generation.identity);
    assert(m.generations.contains(retained));
    lemma_observed_generation(store, m, retained);
    reveal(publishes);
    lemma_retire_moves(
        store,
        t,
        LocalInstallGenerationRecoveryDisposition::RemovedCleanupDebt,
    );
}

proof fn lemma_cleanup_moves(
    store: StoreView,
    t: Transition,
    disposition: LocalInstallGenerationRecoveryDisposition,
)
    requires
        t.is_valid(),
        t.retained is Some,
        observes(store, model_at(t, Point::Switched)),
    ensures
        steps_to(t, Point::Switched, local_install_store_recovery::cleanup_step(store, disposition)),
{
    let m = model_at(t, Point::Switched);
    let retained = t.retained->0;
    lemma_numbers(t);
    lemma_states(store, t, Point::Switched);
    lemma_extras(store, t, Point::Switched);
    local_install_generation_store::law_generation_name_round_trip(retained.generation.identity);
    assert(m.generations.contains(retained));
    lemma_observed_generation(store, m, retained);
    reveal(publishes);
    lemma_retire_moves(store, t, disposition);
}

proof fn lemma_dismantle(
    store: StoreView,
    directory: DirectoryView,
    g: LoadedGenerationView,
    files: nat,
    disposition: LocalInstallGenerationRecoveryDisposition,
)
    requires
        files <= 2,
        observes_parts(store, directory, g, files),
    ensures
        local_install_store_recovery::dismantle_step(
            store,
            directory,
            g.generation.identity,
            disposition,
        ) == Ok::<StepView, StoreErrorView>(
            if files == 2 {
                StepView::Perform {
                    action: ActionView::RemoveRetiredBinary { retirement_name: directory.name },
                    next: PhaseView::FinishRetirement {
                        retirement_name: directory.name,
                        disposition,
                    },
                }
            } else if files == 1 {
                StepView::Perform {
                    action: ActionView::RemoveRetiredDocument { retirement_name: directory.name },
                    next: PhaseView::FinishRetirement {
                        retirement_name: directory.name,
                        disposition,
                    },
                }
            } else {
                StepView::Perform {
                    action: ActionView::RemoveRetiredDirectory { retirement_name: directory.name },
                    next: PhaseView::ClearMarker { disposition },
                }
            },
        ),
{
    reveal(local_install_store_observation::complete_generation);
    reveal(observes_parts);
    assert(seq!["generation.json"@].len() == 1);
    assert(local_install_store_observation::complete_entries().len() == 2);
}

/// A retirement in progress is the one that is taken apart.
proof fn lemma_retirement_directory(
    store: StoreView,
    t: Transition,
    point: Point,
    disposition: LocalInstallGenerationRecoveryDisposition,
)
    requires
        t.is_valid(),
        t.retained is Some,
        point is Retiring || point is BinaryRemoved || point is DocumentRemoved,
        observes(store, model_at(t, point)),
    ensures
        ({
            let rname = local_install_generation_store::retirement_name(
                t.retained->0.generation.identity,
            );
            let found = local_install_store_observation::directory_named(store.staged, rname);
            let left = model_at(t, point).retirement->0;
            &&& found is Some
            &&& found->0.name == rname
            &&& observes_parts(store, found->0, t.retained->0, left.1)
            &&& local_install_store_recovery::retirement_step(store, rname, disposition)
                == local_install_store_recovery::dismantle_step(
                store,
                found->0,
                t.retained->0.generation.identity,
                disposition,
            )
        }),
{
    let m = model_at(t, point);
    let retained = t.retained->0;
    let rname = local_install_generation_store::retirement_name(retained.generation.identity);
    lemma_numbers(t);
    lemma_states(store, t, point);
    lemma_observed_staged(store, m);
    local_install_generation_store::law_retirement_name_round_trip(
        retained.generation.identity,
        rname,
    );
    lemma_directory_name(store.staged, rname);
}

proof fn lemma_retirement_moves(
    store: StoreView,
    t: Transition,
    point: Point,
    disposition: LocalInstallGenerationRecoveryDisposition,
)
    requires
        t.is_valid(),
        t.retained is Some,
        point is Retiring || point is BinaryRemoved || point is DocumentRemoved,
        observes(store, model_at(t, point)),
    ensures
        steps_to(
            t,
            point,
            local_install_store_recovery::retirement_step(
                store,
                local_install_generation_store::retirement_name(
                    t.retained->0.generation.identity,
                ),
                disposition,
            ),
        ),
{
    let m = model_at(t, point);
    let retained = t.retained->0;
    let rname = local_install_generation_store::retirement_name(retained.generation.identity);
    let left = m.retirement->0;
    let directory = local_install_store_observation::directory_named(store.staged, rname)->0;
    lemma_retirement_directory(store, t, point, disposition);
    lemma_dismantle(store, directory, retained, left.1, disposition);
}

proof fn lemma_clear_moves(
    store: StoreView,
    t: Transition,
    disposition: LocalInstallGenerationRecoveryDisposition,
)
    requires
        t.is_valid(),
        t.retained is Some,
        observes(store, model_at(t, Point::Dismantled)),
    ensures
        steps_to(t, Point::Dismantled, local_install_store_recovery::clear_step(store, disposition)),
{
    lemma_states(store, t, Point::Dismantled);
    lemma_write_moves(t, Point::Dismantled, disposition);
    assert(local_install_store_recovery::cleared_document(current_at(t, Point::Dismantled))
        == t.new_document(false));
}

proof fn lemma_dismantled_moves(store: StoreView, t: Transition)
    requires
        t.is_valid(),
        t.retained is Some,
        observes(store, model_at(t, Point::Dismantled)),
    ensures
        steps_to(t, Point::Dismantled, local_install_store_recovery::inspect_step(store)),
{
    lemma_states(store, t, Point::Dismantled);
    lemma_extras(store, t, Point::Dismantled);
    lemma_inspect(store, t, Point::Dismantled);
    lemma_clear_moves(
        store,
        t,
        LocalInstallGenerationRecoveryDisposition::RemovedCleanupDebt,
    );
}

/// Recovery never refuses a store that a publication left behind, at whatever
/// point it was interrupted: it either has nothing left to do, which is so only
/// before the candidate was staged and once its acceptance is complete, or it
/// makes the one change that leads to the next point.
pub proof fn law_recovery_moves_forward(
    store: StoreView,
    t: Transition,
    phase: PhaseView,
    point: Point,
)
    requires
        t.is_valid(),
        is_reached(t, point),
        observes(store, model_at(t, point)),
        fits(t, phase, point),
    ensures
        match local_install_store_recovery::recovery_decision(phase, store) {
            Ok(StepView::Finished { .. }) => is_settled(t, point),
            Ok(StepView::Perform { action, next }) => {
                &&& !is_settled(t, point)
                &&& is_reached(t, point_after(point))
                &&& changes_left(point_after(point)) < changes_left(point)
                &&& is_effect(model_at(t, point), action, model_at(t, point_after(point)))
                &&& fits(t, next, point_after(point))
            },
            Err(_) => false,
        },
{
    if is_settled(t, point) {
        lemma_settled(store, t, phase, point);
    } else {
        assert(steps_to(
            t,
            point,
            local_install_store_recovery::recovery_decision(phase, store),
        )) by {
            match phase {
                PhaseView::Inspect => {
                    match point {
                        Point::Staged => {
                            lemma_staged_moves(store, t);
                        },
                        Point::Published => {
                            lemma_published_moves(store, t);
                        },
                        Point::NextStaged | Point::ClearStaged => {
                            lemma_next_moves(store, t, point);
                        },
                        Point::Switched => {
                            lemma_switched_moves(store, t);
                        },
                        Point::Retiring | Point::BinaryRemoved | Point::DocumentRemoved => {
                            lemma_inspect(store, t, point);
                            lemma_retirement_moves(
                                store,
                                t,
                                point,
                                LocalInstallGenerationRecoveryDisposition::RemovedCleanupDebt,
                            );
                        },
                        Point::Dismantled => {
                            lemma_dismantled_moves(store, t);
                        },
                        Point::Before | Point::After => {},
                    }
                },
                PhaseView::WriteCurrent { document, cleanup, disposition } => {
                    lemma_write_moves(t, point, disposition);
                },
                PhaseView::SwitchCurrent { .. } => {},
                PhaseView::Cleanup { disposition } => {
                    lemma_cleanup_moves(store, t, disposition);
                },
                PhaseView::FinishRetirement { retirement_name, disposition } => {
                    lemma_retirement_moves(store, t, point, disposition);
                },
                PhaseView::ClearMarker { disposition } => {
                    lemma_clear_moves(store, t, disposition);
                },
                PhaseView::Done { .. } => {},
            }
        }
    }
}

/// Where a recovery ends that starts at a point: nothing was begun, or the
/// acceptance of the candidate is complete.
pub open spec fn end_point(t: Transition, point: Point) -> Point {
    if point is Before {
        Point::Before
    } else if t.retained is None {
        Point::Switched
    } else {
        Point::After
    }
}

/// One step of a recovery.
#[verifier::opaque]
pub open spec fn decision_at(phase: PhaseView, store: StoreView) -> Result<
    StepView,
    StoreErrorView,
> {
    local_install_store_recovery::recovery_decision(phase, store)
}

proof fn lemma_decision_at(store: StoreView, t: Transition, phase: PhaseView, point: Point)
    requires
        t.is_valid(),
        is_reached(t, point),
        observes(store, model_at(t, point)),
        fits(t, phase, point),
    ensures
        match decision_at(phase, store) {
            Ok(StepView::Finished { .. }) => is_settled(t, point),
            Ok(StepView::Perform { action, next }) => {
                &&& !is_settled(t, point)
                &&& is_reached(t, point_after(point))
                &&& fits(t, next, point_after(point))
            },
            Err(_) => false,
        },
{
    reveal(decision_at);
    law_recovery_moves_forward(store, t, phase, point);
}

/// Where the steps of a recovery lead, if none is refused: at each point the
/// store is observed, one change is made, and the store is observed again.
pub open spec fn recovered(
    observed: spec_fn(Point) -> StoreView,
    phase: PhaseView,
    point: Point,
) -> Option<Point>
    decreases changes_left(point),
{
    match decision_at(phase, observed(point)) {
        Ok(StepView::Finished { .. }) => Some(point),
        Ok(StepView::Perform { action, next }) => if point is After {
            None
        } else {
            recovered(observed, next, point_after(point))
        },
        Err(_) => None,
    }
}

/// At whatever point a publication was interrupted, recovery ends after finitely
/// many changes and is never refused: the store is as it was before if nothing
/// was staged, and otherwise holds the accepted candidate without any debt.
pub proof fn law_recovery_converges(
    observed: spec_fn(Point) -> StoreView,
    t: Transition,
    phase: PhaseView,
    point: Point,
)
    requires
        t.is_valid(),
        is_reached(t, point),
        fits(t, phase, point),
        forall|p: Point| is_reached(t, p) ==> observes(#[trigger] observed(p), model_at(t, p)),
    ensures
        recovered(observed, phase, point) == Some(end_point(t, point)),
        is_settled(t, end_point(t, point)),
    decreases changes_left(point),
{
    lemma_decision_at(observed(point), t, phase, point);
    match decision_at(phase, observed(point)) {
        Ok(StepView::Perform { action, next }) => {
            law_recovery_converges(observed, t, next, point_after(point));
        },
        _ => {},
    }
}

/// A store at any point holds a state that loads: the generation that was
/// accepted before up to the switch, and the candidate from then on.
pub proof fn law_every_point_loads_old_or_new(store: StoreView, t: Transition, point: Point)
    requires
        t.is_valid(),
        is_reached(t, point),
        observes(store, model_at(t, point)),
    ensures
        local_install_store_observation::current_state(store) matches Ok(current)
            && current.accepted_identity == (if accepts_candidate(point) {
            Some(t.candidate.generation.identity)
        } else {
            identity_of(t.accepted)
        }),
{
    lemma_states(store, t, point);
}

/// Readers see whole generations only: a settled store is read as the state that
/// its publication left, and a store at any other point is not read at all until
/// it was recovered.
pub proof fn law_readers_never_see_half_a_publication(store: StoreView, t: Transition, point: Point)
    requires
        t.is_valid(),
        is_reached(t, point),
        observes(store, model_at(t, point)),
    ensures
        local_install_store_publication::clean_state(store) == (if is_settled(t, point) {
            Ok(current_at(t, point).snapshot)
        } else {
            Err(
                local_install_generation_store::recovery_required(
                    "the local-install generation store requires writer recovery"@,
                ),
            )
        }),
        current_at(t, point).snapshot.state.accepted == (if accepts_candidate(point) {
            Some(t.candidate.generation)
        } else {
            match t.accepted {
                Some(accepted) => Some(accepted.generation),
                None => None,
            }
        }),
{
    lemma_states(store, t, point);
    lemma_extras(store, t, point);
    lemma_observed_documents(store, model_at(t, point));
    reveal(observes);
}

/// A settled store keeps exactly the generations that its current document
/// names: what was superseded is removed, and nothing else is.
pub proof fn law_settled_store_keeps_what_it_names(t: Transition, point: Point)
    requires
        t.is_valid(),
        is_reached(t, point),
        is_settled(t, point),
    ensures
        model_at(t, point).staged is None,
        model_at(t, point).retirement is None,
        model_at(t, point).next is None,
        forall|g: LoadedGenerationView|
            model_at(t, point).generations.contains(g) <==> (Some(g.generation.identity)
                == current_at(t, point).accepted_identity || Some(g.generation.identity)
                == current_at(t, point).retained_identity) && (t.accepted == Some(g) || t.retained
                == Some(g) || t.candidate == g),
{
    lemma_numbers(t);
}

/// The request that publishes the candidate of a transition.
pub open spec fn is_request_of(t: Transition, request: RequestView) -> bool {
    &&& request.candidate == t.candidate.generation
    &&& request.expected_predecessor == t.candidate.generation.predecessor
    &&& local_install_store_publication::request_operation(request) == t.candidate.operation
    &&& local_install_store_documents::encoded_generation(request, t.candidate.artifact_bytes)
        == Ok::<Seq<u8>, StoreErrorView>(t.candidate.document_bytes)
}

/// The phases in which a publication can stand at a point.
pub open spec fn publication_fits(t: Transition, phase: PublicationPhaseView, point: Point) -> bool {
    match phase {
        PublicationPhaseView::Recover { phase } => phase is Inspect && point is Before,
        PublicationPhaseView::Stage { binary_bytes } => point is Before && binary_bytes
            == t.candidate.artifact_bytes,
        PublicationPhaseView::Publish => point is Staged,
        PublicationPhaseView::Finish { phase } => fits(t, phase, point) && !(phase is Inspect),
    }
}

proof fn lemma_complete_with_identity(
    directory: DirectoryView,
    owner: (u32, u32),
    g: LoadedGenerationView,
)
    requires
        local_install_store_observation::complete_generation(
            directory,
            owner,
            Some(g.operation.id),
            None,
        ) == Ok::<LoadedGenerationView, StoreErrorView>(g),
    ensures
        local_install_store_observation::complete_generation(
            directory,
            owner,
            Some(g.operation.id),
            Some(g.generation.identity),
        ) == Ok::<LoadedGenerationView, StoreErrorView>(g),
{
    reveal(local_install_store_observation::complete_generation);
}

proof fn lemma_publish_moves(store: StoreView, t: Transition, request: RequestView)
    requires
        t.is_valid(),
        observes(store, model_at(t, Point::Staged)),
        is_request_of(t, request),
    ensures
        local_install_store_publication::publish_decision(store, request) matches Ok(
            PublicationStepView::Perform { action, next },
        ) && is_effect(model_at(t, Point::Staged), action, model_at(t, Point::Published))
            && publication_fits(t, next, Point::Published),
{
    let m = model_at(t, Point::Staged);
    let stage_name = local_install_generation_store::operation_name(t.candidate.operation.id);
    lemma_numbers(t);
    lemma_states(store, t, Point::Staged);
    lemma_observed_staged(store, m);
    let directory = local_install_store_observation::directory_named(store.staged, stage_name)->0;
    lemma_complete_with_identity(directory, store.owner, t.candidate);
    assert(!holds_identity(m, t.candidate.generation.identity));
    lemma_observed_absence(store, m, t.candidate.generation.identity);
    assert(model_at(t, Point::Published) =~= (StoreModel {
        staged: None,
        generations: m.generations.insert(t.candidate),
        ..m
    }));
}

/// The state that a publication leaves behind: the candidate is accepted under
/// its operation, and of the earlier generations the one before it is retained.
pub open spec fn published_state(t: Transition) -> SnapshotView {
    SnapshotView {
        state: StateView {
            accepted: Some(t.candidate.generation),
            retained: match t.accepted {
                Some(accepted) => seq![accepted.generation],
                None => Seq::empty(),
            },
        },
        last_operation: Some(t.candidate.operation.id),
    }
}

pub open spec fn published_receipt(
    t: Transition,
    location: LocalInstallStoreLocationClass,
    disposition: LocalInstallGenerationPublishDisposition,
) -> PublishReceiptView {
    PublishReceiptView {
        disposition,
        location,
        generation: t.candidate.generation.identity,
        state: published_state(t),
    }
}

/// A publication passes exactly these points: over a clean store it asks for
/// the candidate binary and then makes one change after the other, each leading
/// to the next point, until the acceptance of the candidate is complete. So an
/// interruption between two changes leaves one of the points that recovery
/// takes forward.
pub proof fn law_publication_passes_the_points(
    store: StoreView,
    t: Transition,
    request: RequestView,
    location: LocalInstallStoreLocationClass,
    phase: PublicationPhaseView,
    point: Point,
)
    requires
        t.is_valid(),
        is_reached(t, point),
        observes(store, model_at(t, point)),
        is_request_of(t, request),
        publication_fits(t, phase, point),
    ensures
        match local_install_store_publication::publication_decision(
            phase,
            store,
            request,
            location,
        ) {
            Ok(PublicationStepView::ReviewCandidate) => phase is Recover,
            Ok(PublicationStepView::Perform { action, next }) => {
                &&& is_reached(t, point_after(point))
                &&& is_effect(model_at(t, point), action, model_at(t, point_after(point)))
                &&& publication_fits(t, next, point_after(point))
            },
            Ok(PublicationStepView::Finished { receipt }) => {
                &&& point == end_point(t, Point::Staged)
                &&& receipt == published_receipt(
                    t,
                    location,
                    LocalInstallGenerationPublishDisposition::Published,
                )
            },
            Err(_) => false,
        },
{
    lemma_states(store, t, point);
    match phase {
        PublicationPhaseView::Recover { phase: inner } => {
            lemma_settled(store, t, inner, point);
        },
        PublicationPhaseView::Stage { .. } => {},
        PublicationPhaseView::Publish => {
            lemma_publish_moves(store, t, request);
        },
        PublicationPhaseView::Finish { phase: inner } => {
            law_recovery_moves_forward(store, t, inner, point);
            lemma_never_inspects(store, inner);
            if accepts_candidate(point) {
                lemma_published_state(t, point);
            }
        },
    }
}

/// One step of a publication.
#[verifier::opaque]
pub open spec fn publication_at(
    phase: PublicationPhaseView,
    store: StoreView,
    request: RequestView,
    location: LocalInstallStoreLocationClass,
) -> Result<PublicationStepView, StoreErrorView> {
    local_install_store_publication::publication_decision(phase, store, request, location)
}

proof fn lemma_publication_at(
    store: StoreView,
    t: Transition,
    request: RequestView,
    location: LocalInstallStoreLocationClass,
    phase: PublicationPhaseView,
    point: Point,
)
    requires
        t.is_valid(),
        is_reached(t, point),
        observes(store, model_at(t, point)),
        is_request_of(t, request),
        publication_fits(t, phase, point),
    ensures
        match publication_at(phase, store, request, location) {
            Ok(PublicationStepView::ReviewCandidate) => phase is Recover,
            Ok(PublicationStepView::Perform { action, next }) => {
                &&& is_reached(t, point_after(point))
                &&& !(point is After)
                &&& !(next is Recover)
                &&& publication_fits(t, next, point_after(point))
            },
            Ok(PublicationStepView::Finished { receipt }) => {
                &&& point == end_point(t, Point::Staged)
                &&& receipt == published_receipt(
                    t,
                    location,
                    LocalInstallGenerationPublishDisposition::Published,
                )
            },
            Err(_) => false,
        },
{
    reveal(publication_at);
    law_publication_passes_the_points(store, t, request, location, phase, point);
    if point is After {
        match phase {
            PublicationPhaseView::Finish { phase: inner } => {
                law_recovery_moves_forward(store, t, inner, point);
            },
            _ => {},
        }
    }
}

/// The receipt that the steps of a publication lead to and the point at which
/// it is given, if none is refused: the candidate binary that is asked for has
/// `binary_bytes`, and between two changes the store is observed again.
pub open spec fn publication_end(
    observed: spec_fn(Point) -> StoreView,
    request: RequestView,
    location: LocalInstallStoreLocationClass,
    binary_bytes: u64,
    phase: PublicationPhaseView,
    point: Point,
) -> Option<(PublishReceiptView, Point)>
    decreases
            changes_left(point),
            (if phase is Recover {
                1nat
            } else {
                0nat
            }),
{
    match publication_at(phase, observed(point), request, location) {
        Ok(PublicationStepView::ReviewCandidate) => if phase is Recover {
            publication_end(
                observed,
                request,
                location,
                binary_bytes,
                PublicationPhaseView::Stage { binary_bytes },
                point,
            )
        } else {
            None
        },
        Ok(PublicationStepView::Perform { action, next }) => if point is After {
            None
        } else {
            publication_end(
                observed,
                request,
                location,
                binary_bytes,
                next,
                point_after(point),
            )
        },
        Ok(PublicationStepView::Finished { receipt }) => Some((receipt, point)),
        Err(_) => None,
    }
}

/// Publishing the exact successor of what a clean store accepted succeeds. Its
/// receipt names the candidate as the accepted generation, the one before it as
/// the only retained generation, and the operation as the last one.
pub proof fn law_publication_accepts_its_candidate(
    observed: spec_fn(Point) -> StoreView,
    t: Transition,
    request: RequestView,
    location: LocalInstallStoreLocationClass,
    phase: PublicationPhaseView,
    point: Point,
)
    requires
        t.is_valid(),
        is_reached(t, point),
        is_request_of(t, request),
        publication_fits(t, phase, point),
        forall|p: Point| is_reached(t, p) ==> observes(#[trigger] observed(p), model_at(t, p)),
    ensures
        publication_end(
            observed,
            request,
            location,
            t.candidate.artifact_bytes,
            phase,
            point,
        ) == Some(
            (
                published_receipt(
                    t,
                    location,
                    LocalInstallGenerationPublishDisposition::Published,
                ),
                end_point(t, Point::Staged),
            ),
        ),
    decreases
            changes_left(point),
            (if phase is Recover {
                1nat
            } else {
                0nat
            }),
{
    lemma_publication_at(observed(point), t, request, location, phase, point);
    match publication_at(phase, observed(point), request, location) {
        Ok(PublicationStepView::ReviewCandidate) => {
            law_publication_accepts_its_candidate(
                observed,
                t,
                request,
                location,
                PublicationPhaseView::Stage { binary_bytes: t.candidate.artifact_bytes },
                point,
            );
        },
        Ok(PublicationStepView::Perform { action, next }) => {
            law_publication_accepts_its_candidate(
                observed,
                t,
                request,
                location,
                next,
                point_after(point),
            );
        },
        _ => {},
    }
}

/// What a publication leaves behind: the store holds the candidate and the
/// generation before it and no other, nothing is staged or left to retire, and
/// whoever loads it next reads the state that the receipt told.
pub proof fn law_publication_leaves_one_predecessor(
    observed: spec_fn(Point) -> StoreView,
    t: Transition,
    request: RequestView,
    location: LocalInstallStoreLocationClass,
)
    requires
        t.is_valid(),
        is_request_of(t, request),
        forall|p: Point| is_reached(t, p) ==> observes(#[trigger] observed(p), model_at(t, p)),
    ensures
        publication_end(
            observed,
            request,
            location,
            t.candidate.artifact_bytes,
            PublicationPhaseView::Recover { phase: PhaseView::Inspect },
            Point::Before,
        ) matches Some((receipt, end)) && {
            &&& receipt == published_receipt(
                t,
                location,
                LocalInstallGenerationPublishDisposition::Published,
            )
            &&& receipt.state.last_operation == Some(request.operation_id)
            &&& local_install_store_publication::clean_state(observed(end)) == Ok::<
                SnapshotView,
                StoreErrorView,
            >(receipt.state)
            &&& model_at(t, end).staged is None
            &&& model_at(t, end).next is None
            &&& model_at(t, end).retirement is None
            &&& forall|g: LoadedGenerationView|
                model_at(t, end).generations.contains(g) <==> (g == t.candidate || t.accepted
                    == Some(g))
        },
{
    law_publication_accepts_its_candidate(
        observed,
        t,
        request,
        location,
        PublicationPhaseView::Recover { phase: PhaseView::Inspect },
        Point::Before,
    );
    let end = end_point(t, Point::Staged);
    lemma_published_state(t, end);
    law_readers_never_see_half_a_publication(observed(end), t, end);
}

proof fn lemma_published_state(t: Transition, point: Point)
    requires
        accepts_candidate(point),
    ensures
        current_at(t, point).snapshot == published_state(t),
{
    match t.accepted {
        Some(accepted) => {
            assert(current_at(t, point).snapshot.state.retained =~= seq![accepted.generation]);
        },
        None => {},
    }
}

/// Publishing again what a settled store accepted, from whatever observation of
/// it, changes nothing and is answered with the state that was published.
pub proof fn law_accepted_request_is_replayed(
    store: StoreView,
    t: Transition,
    request: RequestView,
    location: LocalInstallStoreLocationClass,
    phase: PhaseView,
    point: Point,
)
    requires
        t.is_valid(),
        is_reached(t, point),
        is_settled(t, point),
        accepts_candidate(point),
        fits(t, phase, point),
        observes(store, model_at(t, point)),
        is_request_of(t, request),
    ensures
        local_install_store_publication::publication_decision(
            PublicationPhaseView::Recover { phase },
            store,
            request,
            location,
        ) == Ok::<PublicationStepView, StoreErrorView>(
            PublicationStepView::Finished {
                receipt: published_receipt(
                    t,
                    location,
                    LocalInstallGenerationPublishDisposition::Replayed,
                ),
            },
        ),
        current_at(t, point).snapshot == published_state(t),
{
    lemma_states(store, t, point);
    lemma_settled(store, t, phase, point);
    lemma_published_state(t, point);
    local_install_store_publication::law_exact_replay_changes_nothing(
        current_at(t, point),
        request,
        location,
    );
}

proof fn lemma_replay_at(
    store: StoreView,
    t: Transition,
    request: RequestView,
    location: LocalInstallStoreLocationClass,
    phase: PhaseView,
    point: Point,
)
    requires
        t.is_valid(),
        is_reached(t, point),
        !(point is Before),
        fits(t, phase, point),
        observes(store, model_at(t, point)),
        is_request_of(t, request),
    ensures
        match publication_at(PublicationPhaseView::Recover { phase }, store, request, location) {
            Ok(PublicationStepView::Perform { action, next }) => {
                &&& !is_settled(t, point)
                &&& is_reached(t, point_after(point))
                &&& next matches PublicationPhaseView::Recover { phase: inner } && fits(
                    t,
                    inner,
                    point_after(point),
                )
            },
            Ok(PublicationStepView::Finished { receipt }) => {
                &&& is_settled(t, point)
                &&& receipt == published_receipt(
                    t,
                    location,
                    LocalInstallGenerationPublishDisposition::Replayed,
                )
            },
            _ => false,
        },
{
    reveal(publication_at);
    if is_settled(t, point) {
        law_accepted_request_is_replayed(store, t, request, location, phase, point);
    } else {
        law_recovery_moves_forward(store, t, phase, point);
    }
}

/// Publishing again after an interruption at any point from the staged candidate
/// on completes what was begun and is answered as a replay, with the state that
/// the uninterrupted publication would have told.
pub proof fn law_interrupted_publication_is_replayed(
    observed: spec_fn(Point) -> StoreView,
    t: Transition,
    request: RequestView,
    location: LocalInstallStoreLocationClass,
    binary_bytes: u64,
    phase: PhaseView,
    point: Point,
)
    requires
        t.is_valid(),
        is_reached(t, point),
        !(point is Before),
        fits(t, phase, point),
        is_request_of(t, request),
        forall|p: Point| is_reached(t, p) ==> observes(#[trigger] observed(p), model_at(t, p)),
    ensures
        publication_end(
            observed,
            request,
            location,
            binary_bytes,
            PublicationPhaseView::Recover { phase },
            point,
        ) == Some(
            (
                published_receipt(t, location, LocalInstallGenerationPublishDisposition::Replayed),
                end_point(t, point),
            ),
        ),
    decreases changes_left(point),
{
    lemma_replay_at(observed(point), t, request, location, phase, point);
    match publication_at(
        PublicationPhaseView::Recover { phase },
        observed(point),
        request,
        location,
    ) {
        Ok(PublicationStepView::Perform { action, next }) => {
            law_interrupted_publication_is_replayed(
                observed,
                t,
                request,
                location,
                binary_bytes,
                next->Recover_phase,
                point_after(point),
            );
        },
        _ => {},
    }
}

/// A publication that is repeated, on the same store or on one reopened at the
/// same place, is answered as a replay of the same generation and state, and
/// leaves the store at the same point.
pub proof fn law_repeated_publication_is_replayed(
    observed: spec_fn(Point) -> StoreView,
    reopened: spec_fn(Point) -> StoreView,
    t: Transition,
    request: RequestView,
    location: LocalInstallStoreLocationClass,
)
    requires
        t.is_valid(),
        is_request_of(t, request),
        forall|p: Point| is_reached(t, p) ==> observes(#[trigger] observed(p), model_at(t, p)),
        forall|p: Point| is_reached(t, p) ==> observes(#[trigger] reopened(p), model_at(t, p)),
    ensures
        ({
            let start = PublicationPhaseView::Recover { phase: PhaseView::Inspect };
            let bytes = t.candidate.artifact_bytes;
            publication_end(observed, request, location, bytes, start, Point::Before) matches Some(
                (receipt, end),
            ) && receipt.disposition == LocalInstallGenerationPublishDisposition::Published
                && receipt.generation == request.candidate.identity && publication_end(
                reopened,
                request,
                location,
                bytes,
                start,
                end,
            ) == Some(
                (
                    PublishReceiptView {
                        disposition: LocalInstallGenerationPublishDisposition::Replayed,
                        ..receipt
                    },
                    end,
                ),
            )
        }),
{
    law_publication_accepts_its_candidate(
        observed,
        t,
        request,
        location,
        PublicationPhaseView::Recover { phase: PhaseView::Inspect },
        Point::Before,
    );
    law_interrupted_publication_is_replayed(
        reopened,
        t,
        request,
        location,
        t.candidate.artifact_bytes,
        PhaseView::Inspect,
        end_point(t, Point::Staged),
    );
}

/// Debt of another operation is recovered before a request is decided: at every
/// point that an interrupted publication leaves behind, publishing the exact
/// successor of its candidate first makes the one change that leads to the next
/// point, and once the debt is settled the store is as if the successor were
/// published over a clean one, and its candidate is asked for.
pub proof fn law_other_debt_is_recovered_first(
    store: StoreView,
    t: Transition,
    successor: Transition,
    request: RequestView,
    location: LocalInstallStoreLocationClass,
    phase: PhaseView,
    point: Point,
)
    requires
        t.is_valid(),
        successor.is_valid(),
        successor.accepted == Some(t.candidate),
        successor.retained == t.accepted,
        is_reached(t, point),
        !(point is Before),
        observes(store, model_at(t, point)),
        fits(t, phase, point),
        is_request_of(successor, request),
    ensures
        match local_install_store_publication::publication_decision(
            PublicationPhaseView::Recover { phase },
            store,
            request,
            location,
        ) {
            Ok(PublicationStepView::Perform { action, next }) => {
                &&& !is_settled(t, point)
                &&& is_reached(t, point_after(point))
                &&& is_effect(model_at(t, point), action, model_at(t, point_after(point)))
                &&& next matches PublicationPhaseView::Recover { phase: inner } && fits(
                    t,
                    inner,
                    point_after(point),
                )
            },
            Ok(PublicationStepView::ReviewCandidate) => {
                &&& is_settled(t, point)
                &&& model_at(t, point) == model_at(successor, Point::Before)
            },
            _ => false,
        },
{
    law_recovery_moves_forward(store, t, phase, point);
    if is_settled(t, point) {
        lemma_settled_is_before(t, successor, point);
        lemma_states(store, successor, Point::Before);
    }
}

/// A settled transition is where its successor begins.
proof fn lemma_settled_is_before(t: Transition, successor: Transition, point: Point)
    requires
        t.is_valid(),
        successor.accepted == Some(t.candidate),
        successor.retained == t.accepted,
        is_reached(t, point),
        is_settled(t, point),
        !(point is Before),
    ensures
        model_at(t, point) == model_at(successor, Point::Before),
{
    let here = model_at(t, point);
    let there = model_at(successor, Point::Before);
    assert(here.generations =~= there.generations);
    assert(here.current == there.current);
}

/// The receipt that a publication leads to which first recovers the debt of
/// another operation, and the point of its own at which it is given: `observed`
/// is what is seen of the store while the debt is recovered, and `later` what is
/// seen of it from then on.
pub open spec fn publication_over_debt(
    observed: spec_fn(Point) -> StoreView,
    later: spec_fn(Point) -> StoreView,
    request: RequestView,
    location: LocalInstallStoreLocationClass,
    binary_bytes: u64,
    phase: PhaseView,
    point: Point,
) -> Option<(PublishReceiptView, Point)>
    decreases changes_left(point),
{
    match publication_at(
        PublicationPhaseView::Recover { phase },
        observed(point),
        request,
        location,
    ) {
        Ok(
            PublicationStepView::Perform { action, next: PublicationPhaseView::Recover { phase } },
        ) => if point is After {
            None
        } else {
            publication_over_debt(
                observed,
                later,
                request,
                location,
                binary_bytes,
                phase,
                point_after(point),
            )
        },
        Ok(PublicationStepView::ReviewCandidate) => publication_end(
            later,
            request,
            location,
            binary_bytes,
            PublicationPhaseView::Stage { binary_bytes },
            Point::Before,
        ),
        _ => None,
    }
}

/// Publishing the exact successor of a candidate whose own publication was
/// interrupted, at whatever point, recovers that publication and then succeeds.
pub proof fn law_publication_over_debt_accepts_its_candidate(
    observed: spec_fn(Point) -> StoreView,
    later: spec_fn(Point) -> StoreView,
    t: Transition,
    successor: Transition,
    request: RequestView,
    location: LocalInstallStoreLocationClass,
    phase: PhaseView,
    point: Point,
)
    requires
        t.is_valid(),
        successor.is_valid(),
        successor.accepted == Some(t.candidate),
        successor.retained == t.accepted,
        is_reached(t, point),
        !(point is Before),
        fits(t, phase, point),
        is_request_of(successor, request),
        forall|p: Point| is_reached(t, p) ==> observes(#[trigger] observed(p), model_at(t, p)),
        forall|p: Point|
            is_reached(successor, p) ==> observes(#[trigger] later(p), model_at(successor, p)),
    ensures
        publication_over_debt(
            observed,
            later,
            request,
            location,
            successor.candidate.artifact_bytes,
            phase,
            point,
        ) == Some(
            (
                published_receipt(
                    successor,
                    location,
                    LocalInstallGenerationPublishDisposition::Published,
                ),
                end_point(successor, Point::Staged),
            ),
        ),
    decreases changes_left(point),
{
    law_other_debt_is_recovered_first(
        observed(point),
        t,
        successor,
        request,
        location,
        phase,
        point,
    );
    reveal(publication_at);
    match local_install_store_publication::publication_decision(
        PublicationPhaseView::Recover { phase },
        observed(point),
        request,
        location,
    ) {
        Ok(PublicationStepView::Perform { action, next }) => {
            law_publication_over_debt_accepts_its_candidate(
                observed,
                later,
                t,
                successor,
                request,
                location,
                next->Recover_phase,
                point_after(point),
            );
        },
        _ => {
            law_publication_accepts_its_candidate(
                later,
                successor,
                request,
                location,
                PublicationPhaseView::Stage { binary_bytes: successor.candidate.artifact_bytes },
                Point::Before,
            );
        },
    }
}

/// A publication that first recovered the debt of another operation is replayed
/// like any other: repeated, on the same store or on one reopened at the same
/// place, it is answered with the same generation and state at the same point.
pub proof fn law_publication_over_debt_is_replayed(
    observed: spec_fn(Point) -> StoreView,
    later: spec_fn(Point) -> StoreView,
    reopened: spec_fn(Point) -> StoreView,
    t: Transition,
    successor: Transition,
    request: RequestView,
    location: LocalInstallStoreLocationClass,
    point: Point,
)
    requires
        t.is_valid(),
        successor.is_valid(),
        successor.accepted == Some(t.candidate),
        successor.retained == t.accepted,
        is_reached(t, point),
        !(point is Before),
        is_request_of(successor, request),
        forall|p: Point| is_reached(t, p) ==> observes(#[trigger] observed(p), model_at(t, p)),
        forall|p: Point|
            is_reached(successor, p) ==> observes(#[trigger] later(p), model_at(successor, p)),
        forall|p: Point|
            is_reached(successor, p) ==> observes(#[trigger] reopened(p), model_at(successor, p)),
    ensures
        ({
            let bytes = successor.candidate.artifact_bytes;
            publication_over_debt(
                observed,
                later,
                request,
                location,
                bytes,
                PhaseView::Inspect,
                point,
            ) matches Some((receipt, end)) && receipt.disposition
                == LocalInstallGenerationPublishDisposition::Published && receipt.generation
                == request.candidate.identity && publication_end(
                reopened,
                request,
                location,
                bytes,
                PublicationPhaseView::Recover { phase: PhaseView::Inspect },
                end,
            ) == Some(
                (
                    PublishReceiptView {
                        disposition: LocalInstallGenerationPublishDisposition::Replayed,
                        ..receipt
                    },
                    end,
                ),
            )
        }),
{
    law_publication_over_debt_accepts_its_candidate(
        observed,
        later,
        t,
        successor,
        request,
        location,
        PhaseView::Inspect,
        point,
    );
    law_interrupted_publication_is_replayed(
        reopened,
        successor,
        request,
        location,
        successor.candidate.artifact_bytes,
        PhaseView::Inspect,
        end_point(successor, Point::Staged),
    );
}

/// Only a restart inspects the store from scratch.
proof fn lemma_never_inspects(store: StoreView, phase: PhaseView)
    requires
        !(phase is Inspect),
    ensures
        local_install_store_recovery::recovery_decision(phase, store) matches Ok(
            StepView::Perform { action, next },
        ) ==> !(next is Inspect),
{
}

/// An operation whose staging was interrupted is refused by recovery, which
/// changes nothing.
pub proof fn law_incomplete_stage_is_refused(
    store: StoreView,
    stage_name: Seq<char>,
    directory: DirectoryView,
    entries: Seq<Seq<char>>,
)
    requires
        store.staged_names == Ok::<Seq<Seq<char>>, StoreErrorView>(seq![stage_name]),
        local_install_generation_store::operation_named(stage_name) is Ok,
        store.current_next_present == Ok::<bool, StoreErrorView>(false),
        store.current_next == Ok::<Option<CurrentObservationView>, StoreErrorView>(None),
        local_install_store_observation::directory_named(store.staged, stage_name) == Some(
            directory,
        ),
        directory.opened is Ok,
        directory.entries == Ok::<Seq<Seq<char>>, StoreErrorView>(entries),
        entries != local_install_store_observation::complete_entries(),
    ensures
        local_install_store_recovery::recovery_decision(PhaseView::Inspect, store) == Err::<
            StepView,
            StoreErrorView,
        >(
            local_install_generation_store::recovery_required(
                "the local-install generation directory is incomplete"@,
            ),
        ),
{
    reveal(local_install_store_observation::next_state);
    reveal(local_install_store_observation::complete_generation);
    let names = seq![stage_name];
    let none = Seq::<Seq<char>>::empty();
    reveal_with_fuel(local_install_store_recovery::selected, 3);
    assert(names.drop_last() =~= none);
    assert(names.last() == stage_name);
    assert(local_install_store_recovery::selected(names, true) =~= names);
    assert(local_install_store_recovery::selected(names, false) =~= none);
}

} // verus!
