//! Pure interference admission for owner-local execution intents.
//!
//! This module decides only whether a candidate is compatible with current node hold/drain,
//! pressure, quiet-window, and active-conflict observations. It grants no work authority, creates no
//! queue, acquires no lease, and performs no process/cgroup/filesystem mutation. Existing execution
//! capacity/admission remains independently decisive.
use vstd::prelude::*;

verus! {

#[derive(Debug, Clone, Copy, PartialEq, Eq, Structural)]
pub enum LocalInterferenceClass {
    Coexist,
    Yieldable,
    QuietRequired,
}

#[derive(Debug, Clone, Copy, PartialEq, Eq, Structural)]
pub enum NodeControlState {
    Available,
    Draining,
    Held,
}

#[derive(Debug, Clone, Copy, PartialEq, Eq, Structural)]
pub enum LocalPressureClass {
    Low,
    Moderate,
    High,
    Unknown,
}

/// Compatibility is local profile evidence, not a caller-selected promise.
#[derive(Debug, Clone, Copy, PartialEq, Eq, Structural)]
pub enum QuietCompatibility {
    Compatible,
    Conflicting,
    Unknown,
}

#[derive(Debug, Clone, Copy, PartialEq, Eq, Structural)]
pub struct QuietLeaseObservation {
    pub generation: u64,
    pub expires_at_unix_millis: u64,
}

#[derive(Debug, Clone, Copy, PartialEq, Eq, Structural)]
pub struct ActiveInterferenceSummary {
    /// Active work that conflicts with a quiet window and is not declared yieldable.
    pub conflicting_non_yieldable: u32,
    /// Active work that conflicts with a quiet window but may drain/yield before it begins.
    pub conflicting_yieldable: u32,
}

impl Default for ActiveInterferenceSummary {
    fn default() -> (summary: Self)
        ensures
            summary.conflicting_non_yieldable == 0,
            summary.conflicting_yieldable == 0,
    {
        ActiveInterferenceSummary { conflicting_non_yieldable: 0, conflicting_yieldable: 0 }
    }
}

#[derive(Debug, Clone, Copy, PartialEq, Eq, Structural)]
pub struct LocalInterferenceRequest {
    pub interference_class: LocalInterferenceClass,
    pub quiet_compatibility: QuietCompatibility,
}

#[derive(Debug, Clone, Copy, PartialEq, Eq)]
pub struct LocalInterferenceObservation {
    pub observed_at_unix_millis: u64,
    pub node_control: NodeControlState,
    pub pressure: LocalPressureClass,
    pub quiet_lease: Option<QuietLeaseObservation>,
    pub active: ActiveInterferenceSummary,
}

#[derive(Debug, Clone, Copy, PartialEq, Eq, Structural)]
pub enum LocalAdmissionDisposition {
    AdmitNow,
    Wait,
    Refuse,
}

#[derive(Debug, Clone, Copy, PartialEq, Eq, Structural)]
pub enum LocalAdmissionReason {
    Compatible,
    NodeDraining,
    NodeHeld,
    PressureHigh,
    PressureUnknownForQuietWindow,
    QuietLeaseAlreadyActive,
    QuietLeaseConflict,
    QuietLeaseCompatibilityUnknown,
    NonYieldableWorkActive,
    YieldableWorkMustDrain,
}

#[derive(Debug, Clone, Copy, PartialEq, Eq)]
pub struct LocalInterferenceDecision {
    pub disposition: LocalAdmissionDisposition,
    pub reason: LocalAdmissionReason,
    pub active_quiet_lease_generation: Option<u64>,
    pub requires_new_quiet_lease: bool,
    pub requires_yieldable_drain: bool,
    pub grants_authority: bool,
    pub authorizes_preemption: bool,
    pub authorizes_execution: bool,
}

/// The generation of the quiet lease that has not expired yet.
pub open spec fn quiet_generation(observation: LocalInterferenceObservation) -> Option<u64> {
    match observation.quiet_lease {
        Some(lease) => if observation.observed_at_unix_millis < lease.expires_at_unix_millis {
            Some(lease.generation)
        } else {
            None
        },
        None => None,
    }
}

/// The reason that decides: node control first, then an active quiet lease,
/// then pressure, then what a new quiet window would conflict with.
pub open spec fn admission_reason(
    request: LocalInterferenceRequest,
    observation: LocalInterferenceObservation,
) -> LocalAdmissionReason {
    let quiet = quiet_generation(observation) is Some;
    let wants_quiet = request.interference_class == LocalInterferenceClass::QuietRequired;
    if observation.node_control == NodeControlState::Held {
        LocalAdmissionReason::NodeHeld
    } else if observation.node_control == NodeControlState::Draining {
        LocalAdmissionReason::NodeDraining
    } else if quiet && wants_quiet {
        LocalAdmissionReason::QuietLeaseAlreadyActive
    } else if quiet && request.quiet_compatibility == QuietCompatibility::Conflicting {
        LocalAdmissionReason::QuietLeaseConflict
    } else if quiet && request.quiet_compatibility == QuietCompatibility::Unknown {
        LocalAdmissionReason::QuietLeaseCompatibilityUnknown
    } else if observation.pressure == LocalPressureClass::High {
        LocalAdmissionReason::PressureHigh
    } else if wants_quiet && observation.pressure == LocalPressureClass::Unknown {
        LocalAdmissionReason::PressureUnknownForQuietWindow
    } else if wants_quiet && observation.active.conflicting_non_yieldable > 0 {
        LocalAdmissionReason::NonYieldableWorkActive
    } else if wants_quiet && observation.active.conflicting_yieldable > 0 {
        LocalAdmissionReason::YieldableWorkMustDrain
    } else {
        LocalAdmissionReason::Compatible
    }
}

/// A held node refuses, no conflict admits, everything else waits.
pub open spec fn reason_disposition(reason: LocalAdmissionReason) -> LocalAdmissionDisposition {
    match reason {
        LocalAdmissionReason::NodeHeld => LocalAdmissionDisposition::Refuse,
        LocalAdmissionReason::Compatible => LocalAdmissionDisposition::AdmitNow,
        _ => LocalAdmissionDisposition::Wait,
    }
}

/// What [`compile_local_interference_admission`] answers.
pub open spec fn admission(
    request: LocalInterferenceRequest,
    observation: LocalInterferenceObservation,
) -> LocalInterferenceDecision {
    let reason = admission_reason(request, observation);
    LocalInterferenceDecision {
        disposition: reason_disposition(reason),
        reason,
        active_quiet_lease_generation: quiet_generation(observation),
        requires_new_quiet_lease: reason == LocalAdmissionReason::Compatible
            && request.interference_class == LocalInterferenceClass::QuietRequired,
        requires_yieldable_drain: reason == LocalAdmissionReason::YieldableWorkMustDrain,
        grants_authority: false,
        authorizes_preemption: false,
        authorizes_execution: false,
    }
}

/// Compile one content-free local interference decision.
///
/// `AdmitNow` means only that this interference gate sees no current conflict. Source/work
/// authority, capacity, resource-profile, workspace, and execution admission remain separate gates.
pub fn compile_local_interference_admission(
    request: LocalInterferenceRequest,
    observation: LocalInterferenceObservation,
) -> (r: LocalInterferenceDecision)
    ensures
        r == admission(request, observation),
{
    if observation.node_control == NodeControlState::Held {
        return decision(
            LocalAdmissionDisposition::Refuse,
            LocalAdmissionReason::NodeHeld,
            active_quiet_generation(observation),
            false,
            false,
        );
    }
    if observation.node_control == NodeControlState::Draining {
        return decision(
            LocalAdmissionDisposition::Wait,
            LocalAdmissionReason::NodeDraining,
            active_quiet_generation(observation),
            false,
            false,
        );
    }
    let active_quiet = active_quiet_generation(observation);
    let wants_quiet = request.interference_class == LocalInterferenceClass::QuietRequired;
    if let Some(generation) = active_quiet {
        if wants_quiet {
            return decision(
                LocalAdmissionDisposition::Wait,
                LocalAdmissionReason::QuietLeaseAlreadyActive,
                Some(generation),
                false,
                false,
            );
        }
        match request.quiet_compatibility {
            QuietCompatibility::Compatible => {},
            QuietCompatibility::Conflicting => {
                return decision(
                    LocalAdmissionDisposition::Wait,
                    LocalAdmissionReason::QuietLeaseConflict,
                    Some(generation),
                    false,
                    false,
                );
            },
            QuietCompatibility::Unknown => {
                return decision(
                    LocalAdmissionDisposition::Wait,
                    LocalAdmissionReason::QuietLeaseCompatibilityUnknown,
                    Some(generation),
                    false,
                    false,
                );
            },
        }
    }
    if observation.pressure == LocalPressureClass::High {
        return decision(
            LocalAdmissionDisposition::Wait,
            LocalAdmissionReason::PressureHigh,
            active_quiet,
            false,
            false,
        );
    }
    if wants_quiet {
        if observation.pressure == LocalPressureClass::Unknown {
            return decision(
                LocalAdmissionDisposition::Wait,
                LocalAdmissionReason::PressureUnknownForQuietWindow,
                active_quiet,
                false,
                false,
            );
        }
        if observation.active.conflicting_non_yieldable > 0 {
            return decision(
                LocalAdmissionDisposition::Wait,
                LocalAdmissionReason::NonYieldableWorkActive,
                active_quiet,
                false,
                false,
            );
        }
        if observation.active.conflicting_yieldable > 0 {
            return decision(
                LocalAdmissionDisposition::Wait,
                LocalAdmissionReason::YieldableWorkMustDrain,
                active_quiet,
                false,
                true,
            );
        }
        return decision(
            LocalAdmissionDisposition::AdmitNow,
            LocalAdmissionReason::Compatible,
            active_quiet,
            true,
            false,
        );
    }
    decision(
        LocalAdmissionDisposition::AdmitNow,
        LocalAdmissionReason::Compatible,
        active_quiet,
        false,
        false,
    )
}

fn active_quiet_generation(observation: LocalInterferenceObservation) -> (generation: Option<u64>)
    ensures
        generation == quiet_generation(observation),
{
    match observation.quiet_lease {
        Some(lease) => if observation.observed_at_unix_millis < lease.expires_at_unix_millis {
            Some(lease.generation)
        } else {
            None
        },
        None => None,
    }
}

/// A decision, which never grants or authorizes anything by itself.
pub fn decision(
    disposition: LocalAdmissionDisposition,
    reason: LocalAdmissionReason,
    active_quiet_lease_generation: Option<u64>,
    requires_new_quiet_lease: bool,
    requires_yieldable_drain: bool,
) -> (r: LocalInterferenceDecision)
    ensures
        r == (LocalInterferenceDecision {
            disposition,
            reason,
            active_quiet_lease_generation,
            requires_new_quiet_lease,
            requires_yieldable_drain,
            grants_authority: false,
            authorizes_preemption: false,
            authorizes_execution: false,
        }),
{
    LocalInterferenceDecision {
        disposition,
        reason,
        active_quiet_lease_generation,
        requires_new_quiet_lease,
        requires_yieldable_drain,
        grants_authority: false,
        authorizes_preemption: false,
        authorizes_execution: false,
    }
}

/// No decision carries authority of its own.
pub proof fn law_decisions_carry_no_authority(
    request: LocalInterferenceRequest,
    observation: LocalInterferenceObservation,
)
    ensures
        !admission(request, observation).grants_authority,
        !admission(request, observation).authorizes_preemption,
        !admission(request, observation).authorizes_execution,
{
}

/// While a quiet lease lasts, only work that is locally proven compatible and
/// wants no quiet window of its own is admitted.
pub proof fn law_quiet_lease_fences_other_work(
    request: LocalInterferenceRequest,
    observation: LocalInterferenceObservation,
)
    requires
        quiet_generation(observation) is Some,
        admission(request, observation).disposition == LocalAdmissionDisposition::AdmitNow,
    ensures
        request.quiet_compatibility == QuietCompatibility::Compatible,
        request.interference_class != LocalInterferenceClass::QuietRequired,
        !admission(request, observation).requires_new_quiet_lease,
{
}

/// A lease fences nothing from the moment it expires: only the generation that
/// is no longer reported tells it from no lease at all.
pub proof fn law_expired_lease_fences_nothing(
    request: LocalInterferenceRequest,
    observation: LocalInterferenceObservation,
    lease: QuietLeaseObservation,
)
    requires
        observation.quiet_lease == Some(lease),
        lease.expires_at_unix_millis <= observation.observed_at_unix_millis,
    ensures
        admission(request, observation) == admission(
            request,
            LocalInterferenceObservation { quiet_lease: None, ..observation },
        ),
{
}

/// High pressure admits nothing, whatever is asked for.
pub proof fn law_high_pressure_admits_nothing(
    request: LocalInterferenceRequest,
    observation: LocalInterferenceObservation,
)
    requires
        observation.pressure == LocalPressureClass::High,
    ensures
        admission(request, observation).disposition != LocalAdmissionDisposition::AdmitNow,
{
}

/// A new quiet window is asked for only when nothing that conflicts with it is
/// active and pressure is known and not high.
pub proof fn law_quiet_window_needs_a_clear_node(
    request: LocalInterferenceRequest,
    observation: LocalInterferenceObservation,
)
    requires
        admission(request, observation).requires_new_quiet_lease,
    ensures
        observation.node_control == NodeControlState::Available,
        quiet_generation(observation) is None,
        observation.active.conflicting_non_yieldable == 0,
        observation.active.conflicting_yieldable == 0,
        observation.pressure == LocalPressureClass::Low || observation.pressure
            == LocalPressureClass::Moderate,
{
}

/// The quiet lease that fences the node at the time of the observation.
pub open spec fn is_fenced(observation: LocalInterferenceObservation) -> bool {
    observation.quiet_lease matches Some(lease) && observation.observed_at_unix_millis
        < lease.expires_at_unix_millis
}

/// Work is admitted exactly when the node is available and not under high
/// pressure and, where a quiet lease fences it, the work is known to be
/// compatible and wants no quiet of its own; work that does want quiet needs a
/// known pressure and nothing in conflict, yieldable or not.
pub proof fn law_work_is_admitted_on_a_clear_node(
    request: LocalInterferenceRequest,
    observation: LocalInterferenceObservation,
)
    ensures
        ({
            let decision = admission(request, observation);
            let wants_quiet = request.interference_class == LocalInterferenceClass::QuietRequired;
            &&& decision.disposition == LocalAdmissionDisposition::AdmitNow <==> {
                &&& observation.node_control == NodeControlState::Available
                &&& observation.pressure != LocalPressureClass::High
                &&& is_fenced(observation) ==> request.quiet_compatibility
                    == QuietCompatibility::Compatible && !wants_quiet
                &&& wants_quiet ==> observation.pressure != LocalPressureClass::Unknown
                    && observation.active.conflicting_non_yieldable == 0
                    && observation.active.conflicting_yieldable == 0
            }
            &&& decision.disposition == LocalAdmissionDisposition::Refuse
                <==> observation.node_control == NodeControlState::Held
            &&& decision.requires_new_quiet_lease <==> decision.disposition
                == LocalAdmissionDisposition::AdmitNow && wants_quiet
            &&& decision.requires_yieldable_drain <==> {
                &&& observation.node_control == NodeControlState::Available
                &&& wants_quiet && !is_fenced(observation)
                &&& observation.pressure == LocalPressureClass::Low || observation.pressure
                    == LocalPressureClass::Moderate
                &&& observation.active.conflicting_non_yieldable == 0
                &&& observation.active.conflicting_yieldable > 0
            }
            &&& decision.active_quiet_lease_generation == (if is_fenced(observation) {
                Some(observation.quiet_lease->0.generation)
            } else {
                None
            })
        }),
{
}

/// The reason that is given names something that stands against the work, and
/// there is none to give exactly when the work is admitted.
pub proof fn law_reasons_stand_against_the_work(
    request: LocalInterferenceRequest,
    observation: LocalInterferenceObservation,
)
    ensures
        ({
            let reason = admission(request, observation).reason;
            let wants_quiet = request.interference_class == LocalInterferenceClass::QuietRequired;
            match reason {
                LocalAdmissionReason::Compatible => admission(request, observation).disposition
                    == LocalAdmissionDisposition::AdmitNow,
                LocalAdmissionReason::NodeHeld => observation.node_control
                    == NodeControlState::Held,
                LocalAdmissionReason::NodeDraining => observation.node_control
                    == NodeControlState::Draining,
                LocalAdmissionReason::QuietLeaseAlreadyActive => is_fenced(observation)
                    && wants_quiet,
                LocalAdmissionReason::QuietLeaseConflict => is_fenced(observation)
                    && request.quiet_compatibility == QuietCompatibility::Conflicting,
                LocalAdmissionReason::QuietLeaseCompatibilityUnknown => is_fenced(observation)
                    && request.quiet_compatibility == QuietCompatibility::Unknown,
                LocalAdmissionReason::PressureHigh => observation.pressure
                    == LocalPressureClass::High,
                LocalAdmissionReason::PressureUnknownForQuietWindow => wants_quiet
                    && observation.pressure == LocalPressureClass::Unknown,
                LocalAdmissionReason::NonYieldableWorkActive => wants_quiet
                    && observation.active.conflicting_non_yieldable > 0,
                LocalAdmissionReason::YieldableWorkMustDrain => wants_quiet
                    && observation.active.conflicting_yieldable > 0
                    && observation.active.conflicting_non_yieldable == 0,
            }
        }),
        admission(request, observation).reason == LocalAdmissionReason::NodeDraining
            <==> observation.node_control == NodeControlState::Draining,
        observation.node_control == NodeControlState::Available && is_fenced(observation)
            && request.interference_class == LocalInterferenceClass::QuietRequired ==> admission(
            request,
            observation,
        ).reason == LocalAdmissionReason::QuietLeaseAlreadyActive,
{
}

} // verus!
