//! Planning of transitions between the availability modes of a Mac worker.
use vstd::prelude::*;

use crate::outcome;
use crate::scan;
use crate::text;

verus! {

pub const MAC_AVAILABILITY_SCHEMA_VERSION: u8 = 1;

#[derive(Debug, Clone, Copy, PartialEq, Eq, Structural)]
pub enum AvailabilityRequest {
    Active,
    Away,
    Off,
    Auto,
}

#[derive(Debug, Clone, Copy, PartialEq, Eq, Structural)]
pub enum EffectiveAvailabilityMode {
    Active,
    Away,
    Off,
}

#[derive(Debug, Clone, Copy, PartialEq, Eq, Structural)]
pub enum VmPowerState {
    Running,
    Stopped,
    Unknown,
}

#[derive(Debug, Clone, Copy, PartialEq, Eq, Structural)]
pub enum JobActivity {
    Idle,
    Active,
    Unknown,
}

#[derive(Debug, Clone, Copy, PartialEq, Eq, Structural)]
pub enum ObservationFreshness {
    Fresh,
    Stale,
}

#[derive(Debug, Clone, Copy, PartialEq, Eq, Structural)]
pub enum HostPowerSource {
    Ac,
    Battery,
    Unknown,
}

#[derive(Debug, Clone, Copy, PartialEq, Eq, Structural)]
pub enum MemoryPressure {
    Normal,
    Elevated,
    Critical,
    Unknown,
}

#[derive(Debug, Clone, Copy, PartialEq, Eq, Structural)]
pub struct MacVmProfile {
    pub cpus: u8,
    pub memory_mib: u32,
    pub max_concurrent_jobs: u8,
}

/// The profile of a Mac that somebody is working on.
pub open spec fn interactive_profile() -> MacVmProfile {
    MacVmProfile { cpus: 4, memory_mib: 3072, max_concurrent_jobs: 1 }
}

/// The profile of a Mac that nobody is working on.
pub open spec fn unattended_profile() -> MacVmProfile {
    MacVmProfile { cpus: 8, memory_mib: 8192, max_concurrent_jobs: 1 }
}

pub fn active_profile() -> (profile: MacVmProfile)
    ensures
        profile == interactive_profile(),
{
    MacVmProfile { cpus: 4, memory_mib: 3072, max_concurrent_jobs: 1 }
}

pub fn away_profile() -> (profile: MacVmProfile)
    ensures
        profile == unattended_profile(),
{
    MacVmProfile { cpus: 8, memory_mib: 8192, max_concurrent_jobs: 1 }
}

#[derive(Debug, Clone, Copy, PartialEq, Eq, Structural)]
pub struct MacAvailabilityObservation {
    pub effective_mode: EffectiveAvailabilityMode,
    pub vm_power: VmPowerState,
    pub job_activity: JobActivity,
    pub freshness: ObservationFreshness,
    pub host_power: HostPowerSource,
    pub memory_pressure: MemoryPressure,
    pub operator_hold: bool,
}

#[derive(Debug, Clone, Copy, PartialEq, Eq, Structural)]
pub enum AvailabilityDisposition {
    NoChange,
    Ready,
    Blocked,
    ManualPolicyRequired,
}

#[derive(Debug, Clone, Copy, PartialEq, Eq, Structural)]
pub enum AvailabilityBlockerKind {
    ActiveJob,
    AutoPolicyUnavailable,
    BatteryPower,
    CriticalMemoryPressure,
    ElevatedMemoryPressure,
    InconsistentEffectiveState,
    OperatorHold,
    StaleObservation,
    UnknownJobActivity,
    UnknownMemoryPressure,
    UnknownPowerSource,
    UnknownVmPower,
}

#[derive(Debug, Clone, PartialEq, Eq)]
pub struct AvailabilityBlocker {
    pub kind: AvailabilityBlockerKind,
    pub message: String,
}

pub struct BlockerView {
    pub kind: AvailabilityBlockerKind,
    pub message: Seq<char>,
}

impl View for AvailabilityBlocker {
    type V = BlockerView;

    open spec fn view(&self) -> BlockerView {
        BlockerView { kind: self.kind, message: self.message@ }
    }
}

#[derive(Debug, Clone, Copy, PartialEq, Eq, Structural)]
pub enum AvailabilityActionKind {
    ApplyProfile,
    DrainRunner,
    StartVm,
    StopVm,
    VerifyTransition,
}

#[derive(Debug, Clone, PartialEq, Eq)]
pub struct AvailabilityAction {
    pub kind: AvailabilityActionKind,
    pub summary: String,
}

pub struct ActionView {
    pub kind: AvailabilityActionKind,
    pub summary: Seq<char>,
}

impl View for AvailabilityAction {
    type V = ActionView;

    open spec fn view(&self) -> ActionView {
        ActionView { kind: self.kind, summary: self.summary@ }
    }
}

#[derive(Debug, Clone, PartialEq, Eq)]
pub struct MacAvailabilityPlan {
    pub schema_version: u8,
    pub effective_mode: EffectiveAvailabilityMode,
    pub requested_mode: AvailabilityRequest,
    pub disposition: AvailabilityDisposition,
    pub target_profile: Option<MacVmProfile>,
    pub actions: Vec<AvailabilityAction>,
    pub blockers: Vec<AvailabilityBlocker>,
}

pub struct PlanView {
    pub schema_version: u8,
    pub effective_mode: EffectiveAvailabilityMode,
    pub requested_mode: AvailabilityRequest,
    pub disposition: AvailabilityDisposition,
    pub target_profile: Option<MacVmProfile>,
    pub actions: Seq<ActionView>,
    pub blockers: Seq<BlockerView>,
}

impl View for MacAvailabilityPlan {
    type V = PlanView;

    open spec fn view(&self) -> PlanView {
        PlanView {
            schema_version: self.schema_version,
            effective_mode: self.effective_mode,
            requested_mode: self.requested_mode,
            disposition: self.disposition,
            target_profile: self.target_profile,
            actions: outcome::seq_view(self.actions@),
            blockers: outcome::seq_view(self.blockers@),
        }
    }
}

/// A blocker where it applies.
pub open spec fn blocked_if(
    applies: bool,
    kind: AvailabilityBlockerKind,
    message: Seq<char>,
) -> Seq<BlockerView> {
    if applies {
        seq![BlockerView { kind, message }]
    } else {
        Seq::empty()
    }
}

pub open spec fn is_consistent_state(
    effective_mode: EffectiveAvailabilityMode,
    vm_power: VmPowerState,
) -> bool {
    if effective_mode == EffectiveAvailabilityMode::Off {
        vm_power == VmPowerState::Stopped
    } else {
        vm_power == VmPowerState::Running
    }
}

pub open spec fn matches_effective(
    requested_mode: AvailabilityRequest,
    effective_mode: EffectiveAvailabilityMode,
) -> bool {
    match effective_mode {
        EffectiveAvailabilityMode::Active => requested_mode == AvailabilityRequest::Active,
        EffectiveAvailabilityMode::Away => requested_mode == AvailabilityRequest::Away,
        EffectiveAvailabilityMode::Off => requested_mode == AvailabilityRequest::Off,
    }
}

/// What blocks every transition, whatever is requested.
pub open spec fn standing_blockers(o: MacAvailabilityObservation) -> Seq<BlockerView> {
    let off = o.effective_mode == EffectiveAvailabilityMode::Off;
    blocked_if(
        o.freshness == ObservationFreshness::Stale,
        AvailabilityBlockerKind::StaleObservation,
        "availability evidence is stale; refresh host and job observations before planning a transition"@,
    ) + blocked_if(
        o.operator_hold,
        AvailabilityBlockerKind::OperatorHold,
        "an operator hold blocks availability transitions"@,
    ) + blocked_if(
        o.vm_power == VmPowerState::Unknown,
        AvailabilityBlockerKind::UnknownVmPower,
        "the Lima VM power state is unknown"@,
    ) + blocked_if(
        !is_consistent_state(o.effective_mode, o.vm_power),
        AvailabilityBlockerKind::InconsistentEffectiveState,
        "the effective availability mode conflicts with the observed VM power state"@,
    ) + blocked_if(
        off && o.job_activity == JobActivity::Active,
        AvailabilityBlockerKind::InconsistentEffectiveState,
        "the VM is off but runner job activity is reported as active"@,
    ) + blocked_if(
        off && o.job_activity == JobActivity::Unknown,
        AvailabilityBlockerKind::UnknownJobActivity,
        "the VM is off but runner job activity is unknown; prove the listener idle"@,
    )
}

/// What the host lacks for starting the requested mode.
pub open spec fn capacity_blockers(
    o: MacAvailabilityObservation,
    requested_mode: AvailabilityRequest,
) -> Seq<BlockerView> {
    if requested_mode == AvailabilityRequest::Away {
        blocked_if(
            o.host_power == HostPowerSource::Battery,
            AvailabilityBlockerKind::BatteryPower,
            "away mode requires AC power in the initial policy"@,
        ) + blocked_if(
            o.host_power == HostPowerSource::Unknown,
            AvailabilityBlockerKind::UnknownPowerSource,
            "away mode requires a known host power source"@,
        ) + blocked_if(
            o.memory_pressure == MemoryPressure::Elevated,
            AvailabilityBlockerKind::ElevatedMemoryPressure,
            "away mode is blocked while macOS memory pressure is elevated"@,
        ) + blocked_if(
            o.memory_pressure == MemoryPressure::Critical,
            AvailabilityBlockerKind::CriticalMemoryPressure,
            "away mode is blocked while macOS memory pressure is critical"@,
        ) + blocked_if(
            o.memory_pressure == MemoryPressure::Unknown,
            AvailabilityBlockerKind::UnknownMemoryPressure,
            "away mode requires a known memory-pressure observation"@,
        )
    } else {
        blocked_if(
            o.memory_pressure == MemoryPressure::Critical,
            AvailabilityBlockerKind::CriticalMemoryPressure,
            "starting the interactive VM is blocked while macOS memory pressure is critical"@,
        ) + blocked_if(
            o.memory_pressure == MemoryPressure::Unknown,
            AvailabilityBlockerKind::UnknownMemoryPressure,
            "starting the interactive VM requires a known memory-pressure observation"@,
        )
    }
}

/// What a running job blocks.
pub open spec fn job_blockers(
    o: MacAvailabilityObservation,
    requested_mode: AvailabilityRequest,
) -> Seq<BlockerView> {
    let changes = o.effective_mode != EffectiveAvailabilityMode::Off && !matches_effective(
        requested_mode,
        o.effective_mode,
    );
    blocked_if(
        changes && o.job_activity == JobActivity::Active,
        AvailabilityBlockerKind::ActiveJob,
        "an active runner job blocks VM stop, restart, or profile replacement"@,
    ) + blocked_if(
        changes && o.job_activity == JobActivity::Unknown,
        AvailabilityBlockerKind::UnknownJobActivity,
        "runner job activity is unknown; prove the listener idle before changing availability"@,
    )
}

pub open spec fn profile_of(requested_mode: AvailabilityRequest) -> Option<MacVmProfile> {
    match requested_mode {
        AvailabilityRequest::Active => Some(interactive_profile()),
        AvailabilityRequest::Away => Some(unattended_profile()),
        _ => None,
    }
}

pub open spec fn step(kind: AvailabilityActionKind, summary: Seq<char>) -> ActionView {
    ActionView { kind, summary }
}

/// The steps from one mode to another: drain and stop what runs, apply the
/// profile and start what is asked for, and verify.
pub open spec fn actions_between(
    effective_mode: EffectiveAvailabilityMode,
    requested_mode: AvailabilityRequest,
) -> Seq<ActionView> {
    let stops = effective_mode != EffectiveAvailabilityMode::Off;
    let starts = requested_mode != AvailabilityRequest::Off;
    if requested_mode == AvailabilityRequest::Auto || matches_effective(
        requested_mode,
        effective_mode,
    ) {
        Seq::empty()
    } else {
        (if stops {
            seq![
                step(
                    AvailabilityActionKind::DrainRunner,
                    "drain the runner and prove no job is active"@,
                ),
                step(
                    AvailabilityActionKind::StopVm,
                    if starts {
                        "stop the Lima VM before changing its resource profile"@
                    } else {
                        "stop the Lima VM"@
                    },
                ),
            ]
        } else {
            Seq::empty()
        }) + (if starts {
            seq![
                step(
                    AvailabilityActionKind::ApplyProfile,
                    if requested_mode == AvailabilityRequest::Active {
                        "apply the interactive Lima profile"@
                    } else {
                        "apply the away Lima profile"@
                    },
                ),
                step(AvailabilityActionKind::StartVm, "start the Lima VM"@),
                step(
                    AvailabilityActionKind::VerifyTransition,
                    "freshly verify VM profile and runner admission state"@,
                ),
            ]
        } else {
            seq![
                step(
                    AvailabilityActionKind::VerifyTransition,
                    "freshly verify the VM is stopped and admission remains disabled"@,
                ),
            ]
        })
    }
}

/// What [`plan_availability_transition`] answers.
pub open spec fn availability_plan(
    o: MacAvailabilityObservation,
    requested_mode: AvailabilityRequest,
) -> PlanView {
    let standing = standing_blockers(o);
    let auto = requested_mode == AvailabilityRequest::Auto;
    let blockers = if auto && standing.len() == 0 {
        blocked_if(
            true,
            AvailabilityBlockerKind::AutoPolicyUnavailable,
            "auto mode requires reviewed idle, power, memory, dwell-time, and job-drain policy that is not implemented yet"@,
        )
    } else if auto || (standing.len() == 0 && matches_effective(requested_mode, o.effective_mode)) {
        standing
    } else {
        standing + (if requested_mode == AvailabilityRequest::Off {
            Seq::empty()
        } else {
            capacity_blockers(o, requested_mode)
        }) + job_blockers(o, requested_mode)
    };
    let disposition = if auto && standing.len() == 0 {
        AvailabilityDisposition::ManualPolicyRequired
    } else if blockers.len() > 0 {
        AvailabilityDisposition::Blocked
    } else if matches_effective(requested_mode, o.effective_mode) {
        AvailabilityDisposition::NoChange
    } else {
        AvailabilityDisposition::Ready
    };
    PlanView {
        schema_version: MAC_AVAILABILITY_SCHEMA_VERSION,
        effective_mode: o.effective_mode,
        requested_mode,
        disposition,
        target_profile: profile_of(requested_mode),
        actions: if disposition == AvailabilityDisposition::Ready {
            actions_between(o.effective_mode, requested_mode)
        } else {
            Seq::empty()
        },
        blockers,
    }
}

fn push_if(
    blockers: &mut Vec<AvailabilityBlocker>,
    applies: bool,
    kind: AvailabilityBlockerKind,
    message: &str,
)
    ensures
        outcome::seq_view(final(blockers)@) == outcome::seq_view(old(blockers)@) + blocked_if(
            applies,
            kind,
            message@,
        ),
{
    let ghost before = outcome::seq_view(blockers@);
    if applies {
        blockers.push(AvailabilityBlocker { kind, message: message.to_owned() });
    }
    assert(outcome::seq_view(blockers@) =~= before + blocked_if(applies, kind, message@));
}

fn push_standing_blockers(o: MacAvailabilityObservation) -> (blockers: Vec<AvailabilityBlocker>)
    ensures
        outcome::seq_view(blockers@) == standing_blockers(o),
{
    let mut blockers: Vec<AvailabilityBlocker> = Vec::new();
    let off = o.effective_mode == EffectiveAvailabilityMode::Off;
    push_if(
        &mut blockers,
        o.freshness == ObservationFreshness::Stale,
        AvailabilityBlockerKind::StaleObservation,
        "availability evidence is stale; refresh host and job observations before planning a transition",
    );
    push_if(
        &mut blockers,
        o.operator_hold,
        AvailabilityBlockerKind::OperatorHold,
        "an operator hold blocks availability transitions",
    );
    push_if(
        &mut blockers,
        o.vm_power == VmPowerState::Unknown,
        AvailabilityBlockerKind::UnknownVmPower,
        "the Lima VM power state is unknown",
    );
    push_if(
        &mut blockers,
        !effective_state_is_consistent(o.effective_mode, o.vm_power),
        AvailabilityBlockerKind::InconsistentEffectiveState,
        "the effective availability mode conflicts with the observed VM power state",
    );
    push_if(
        &mut blockers,
        off && o.job_activity == JobActivity::Active,
        AvailabilityBlockerKind::InconsistentEffectiveState,
        "the VM is off but runner job activity is reported as active",
    );
    push_if(
        &mut blockers,
        off && o.job_activity == JobActivity::Unknown,
        AvailabilityBlockerKind::UnknownJobActivity,
        "the VM is off but runner job activity is unknown; prove the listener idle",
    );
    assert(outcome::seq_view(blockers@) =~= standing_blockers(o));
    blockers
}

fn classify_start_capacity(
    o: MacAvailabilityObservation,
    requested_mode: AvailabilityRequest,
    blockers: &mut Vec<AvailabilityBlocker>,
)
    ensures
        outcome::seq_view(final(blockers)@) == outcome::seq_view(old(blockers)@)
            + capacity_blockers(o, requested_mode),
{
    let ghost before = outcome::seq_view(blockers@);
    if requested_mode == AvailabilityRequest::Away {
        push_if(
            blockers,
            o.host_power == HostPowerSource::Battery,
            AvailabilityBlockerKind::BatteryPower,
            "away mode requires AC power in the initial policy",
        );
        push_if(
            blockers,
            o.host_power == HostPowerSource::Unknown,
            AvailabilityBlockerKind::UnknownPowerSource,
            "away mode requires a known host power source",
        );
        push_if(
            blockers,
            o.memory_pressure == MemoryPressure::Elevated,
            AvailabilityBlockerKind::ElevatedMemoryPressure,
            "away mode is blocked while macOS memory pressure is elevated",
        );
        push_if(
            blockers,
            o.memory_pressure == MemoryPressure::Critical,
            AvailabilityBlockerKind::CriticalMemoryPressure,
            "away mode is blocked while macOS memory pressure is critical",
        );
        push_if(
            blockers,
            o.memory_pressure == MemoryPressure::Unknown,
            AvailabilityBlockerKind::UnknownMemoryPressure,
            "away mode requires a known memory-pressure observation",
        );
    } else {
        push_if(
            blockers,
            o.memory_pressure == MemoryPressure::Critical,
            AvailabilityBlockerKind::CriticalMemoryPressure,
            "starting the interactive VM is blocked while macOS memory pressure is critical",
        );
        push_if(
            blockers,
            o.memory_pressure == MemoryPressure::Unknown,
            AvailabilityBlockerKind::UnknownMemoryPressure,
            "starting the interactive VM requires a known memory-pressure observation",
        );
    }
    assert(outcome::seq_view(blockers@) =~= before + capacity_blockers(o, requested_mode));
}

fn classify_job_barrier(
    o: MacAvailabilityObservation,
    requested_mode: AvailabilityRequest,
    blockers: &mut Vec<AvailabilityBlocker>,
)
    ensures
        outcome::seq_view(final(blockers)@) == outcome::seq_view(old(blockers)@) + job_blockers(
            o,
            requested_mode,
        ),
{
    let ghost before = outcome::seq_view(blockers@);
    let changes = o.effective_mode != EffectiveAvailabilityMode::Off && !request_matches_effective(
        requested_mode,
        o.effective_mode,
    );
    push_if(
        blockers,
        changes && o.job_activity == JobActivity::Active,
        AvailabilityBlockerKind::ActiveJob,
        "an active runner job blocks VM stop, restart, or profile replacement",
    );
    push_if(
        blockers,
        changes && o.job_activity == JobActivity::Unknown,
        AvailabilityBlockerKind::UnknownJobActivity,
        "runner job activity is unknown; prove the listener idle before changing availability",
    );
    assert(outcome::seq_view(blockers@) =~= before + job_blockers(o, requested_mode));
}

fn action(kind: AvailabilityActionKind, summary: &str) -> (r: AvailabilityAction)
    ensures
        r@ == step(kind, summary@),
{
    AvailabilityAction { kind, summary: summary.to_owned() }
}

fn transition_actions(
    effective_mode: EffectiveAvailabilityMode,
    requested_mode: AvailabilityRequest,
) -> (actions: Vec<AvailabilityAction>)
    ensures
        outcome::seq_view(actions@) == actions_between(effective_mode, requested_mode),
{
    let mut actions: Vec<AvailabilityAction> = Vec::new();
    if requested_mode == AvailabilityRequest::Auto || request_matches_effective(
        requested_mode,
        effective_mode,
    ) {
        assert(outcome::seq_view(actions@) =~= Seq::empty());
        return actions;
    }
    let starts = requested_mode != AvailabilityRequest::Off;
    if effective_mode != EffectiveAvailabilityMode::Off {
        actions.push(
            action(
                AvailabilityActionKind::DrainRunner,
                "drain the runner and prove no job is active",
            ),
        );
        actions.push(
            action(
                AvailabilityActionKind::StopVm,
                if starts {
                    "stop the Lima VM before changing its resource profile"
                } else {
                    "stop the Lima VM"
                },
            ),
        );
    }
    if starts {
        actions.push(
            action(
                AvailabilityActionKind::ApplyProfile,
                if requested_mode == AvailabilityRequest::Active {
                    "apply the interactive Lima profile"
                } else {
                    "apply the away Lima profile"
                },
            ),
        );
        actions.push(action(AvailabilityActionKind::StartVm, "start the Lima VM"));
        actions.push(
            action(
                AvailabilityActionKind::VerifyTransition,
                "freshly verify VM profile and runner admission state",
            ),
        );
    } else {
        actions.push(
            action(
                AvailabilityActionKind::VerifyTransition,
                "freshly verify the VM is stopped and admission remains disabled",
            ),
        );
    }
    assert(outcome::seq_view(actions@) =~= actions_between(effective_mode, requested_mode));
    actions
}

fn requested_profile(requested_mode: AvailabilityRequest) -> (profile: Option<MacVmProfile>)
    ensures
        profile == profile_of(requested_mode),
{
    match requested_mode {
        AvailabilityRequest::Active => Some(active_profile()),
        AvailabilityRequest::Away => Some(away_profile()),
        AvailabilityRequest::Off | AvailabilityRequest::Auto => None,
    }
}

fn request_matches_effective(
    requested_mode: AvailabilityRequest,
    effective_mode: EffectiveAvailabilityMode,
) -> (r: bool)
    ensures
        r == matches_effective(requested_mode, effective_mode),
{
    match effective_mode {
        EffectiveAvailabilityMode::Active => requested_mode == AvailabilityRequest::Active,
        EffectiveAvailabilityMode::Away => requested_mode == AvailabilityRequest::Away,
        EffectiveAvailabilityMode::Off => requested_mode == AvailabilityRequest::Off,
    }
}

fn effective_state_is_consistent(
    effective_mode: EffectiveAvailabilityMode,
    vm_power: VmPowerState,
) -> (r: bool)
    ensures
        r == is_consistent_state(effective_mode, vm_power),
{
    if effective_mode == EffectiveAvailabilityMode::Off {
        vm_power == VmPowerState::Stopped
    } else {
        vm_power == VmPowerState::Running
    }
}

fn plan(
    o: MacAvailabilityObservation,
    requested_mode: AvailabilityRequest,
    disposition: AvailabilityDisposition,
    actions: Vec<AvailabilityAction>,
    blockers: Vec<AvailabilityBlocker>,
) -> (r: MacAvailabilityPlan)
    ensures
        r@ == (PlanView {
            schema_version: MAC_AVAILABILITY_SCHEMA_VERSION,
            effective_mode: o.effective_mode,
            requested_mode,
            disposition,
            target_profile: profile_of(requested_mode),
            actions: outcome::seq_view(actions@),
            blockers: outcome::seq_view(blockers@),
        }),
{
    MacAvailabilityPlan {
        schema_version: MAC_AVAILABILITY_SCHEMA_VERSION,
        effective_mode: o.effective_mode,
        requested_mode,
        disposition,
        target_profile: requested_profile(requested_mode),
        actions,
        blockers,
    }
}

/// Plans the transition to a requested availability mode, or says what blocks
/// it.
pub fn plan_availability_transition(
    observation: MacAvailabilityObservation,
    requested_mode: AvailabilityRequest,
) -> (r: MacAvailabilityPlan)
    ensures
        r@ == availability_plan(observation, requested_mode),
{
    let mut blockers = push_standing_blockers(observation);
    let none: Vec<AvailabilityAction> = Vec::new();
    assert(outcome::seq_view(none@) =~= Seq::empty());
    let ghost standing = outcome::seq_view(blockers@);
    if requested_mode == AvailabilityRequest::Auto {
        if blockers.len() == 0 {
            push_if(
                &mut blockers,
                true,
                AvailabilityBlockerKind::AutoPolicyUnavailable,
                "auto mode requires reviewed idle, power, memory, dwell-time, and job-drain policy that is not implemented yet",
            );
            assert(outcome::seq_view(blockers@) =~= availability_plan(
                observation,
                requested_mode,
            ).blockers);
            return plan(
                observation,
                requested_mode,
                AvailabilityDisposition::ManualPolicyRequired,
                none,
                blockers,
            );
        }
        return plan(
            observation,
            requested_mode,
            AvailabilityDisposition::Blocked,
            none,
            blockers,
        );
    }
    if request_matches_effective(requested_mode, observation.effective_mode) && blockers.len() == 0 {
        return plan(
            observation,
            requested_mode,
            AvailabilityDisposition::NoChange,
            none,
            blockers,
        );
    }
    if requested_mode != AvailabilityRequest::Off {
        classify_start_capacity(observation, requested_mode, &mut blockers);
    } else {
        assert(standing + Seq::empty() =~= standing);
    }
    classify_job_barrier(observation, requested_mode, &mut blockers);
    if blockers.len() > 0 {
        return plan(
            observation,
            requested_mode,
            AvailabilityDisposition::Blocked,
            none,
            blockers,
        );
    }
    assert(standing.len() == 0);
    plan(
        observation,
        requested_mode,
        AvailabilityDisposition::Ready,
        transition_actions(observation.effective_mode, requested_mode),
        blockers,
    )
}

pub open spec fn mode_name(mode: EffectiveAvailabilityMode) -> Seq<char> {
    match mode {
        EffectiveAvailabilityMode::Active => "Active"@,
        EffectiveAvailabilityMode::Away => "Away"@,
        EffectiveAvailabilityMode::Off => "Off"@,
    }
}

pub open spec fn request_name(request: AvailabilityRequest) -> Seq<char> {
    match request {
        AvailabilityRequest::Active => "Active"@,
        AvailabilityRequest::Away => "Away"@,
        AvailabilityRequest::Off => "Off"@,
        AvailabilityRequest::Auto => "Auto"@,
    }
}

pub open spec fn disposition_name(disposition: AvailabilityDisposition) -> Seq<char> {
    match disposition {
        AvailabilityDisposition::NoChange => "NoChange"@,
        AvailabilityDisposition::Ready => "Ready"@,
        AvailabilityDisposition::Blocked => "Blocked"@,
        AvailabilityDisposition::ManualPolicyRequired => "ManualPolicyRequired"@,
    }
}

pub open spec fn listed_actions(actions: Seq<ActionView>) -> Seq<char>
    decreases actions.len(),
{
    if actions.len() == 0 {
        Seq::empty()
    } else {
        listed_actions(actions.drop_last()) + "- "@ + actions.last().summary + "\n"@
    }
}

pub open spec fn listed_blockers(blockers: Seq<BlockerView>) -> Seq<char>
    decreases blockers.len(),
{
    if blockers.len() == 0 {
        Seq::empty()
    } else {
        listed_blockers(blockers.drop_last()) + "- "@ + blockers.last().message + "\n"@
    }
}

pub open spec fn profile_line(profile: Option<MacVmProfile>) -> Seq<char> {
    match profile {
        Some(value) => "Target profile: "@ + text::decimal(value.cpus as nat) + " CPU, "@
            + text::decimal(value.memory_mib as nat) + " MiB RAM, "@ + text::decimal(
            value.max_concurrent_jobs as nat,
        ) + " concurrent job(s)\n"@,
        None => Seq::empty(),
    }
}

/// What [`render_human`] prints.
pub open spec fn human_text(plan: PlanView) -> Seq<char> {
    "Mac availability transition: "@ + mode_name(plan.effective_mode) + " -> "@ + request_name(
        plan.requested_mode,
    ) + "\nDisposition: "@ + disposition_name(plan.disposition) + "\n"@ + profile_line(
        plan.target_profile,
    ) + (if plan.actions.len() > 0 {
        "Actions:\n"@ + listed_actions(plan.actions)
    } else {
        Seq::empty()
    }) + (if plan.blockers.len() > 0 {
        "Blockers:\n"@ + listed_blockers(plan.blockers)
    } else {
        Seq::empty()
    })
}

fn mode_text(mode: EffectiveAvailabilityMode) -> (name: &'static str)
    ensures
        name@ == mode_name(mode),
{
    match mode {
        EffectiveAvailabilityMode::Active => "Active",
        EffectiveAvailabilityMode::Away => "Away",
        EffectiveAvailabilityMode::Off => "Off",
    }
}

fn request_text(request: AvailabilityRequest) -> (name: &'static str)
    ensures
        name@ == request_name(request),
{
    match request {
        AvailabilityRequest::Active => "Active",
        AvailabilityRequest::Away => "Away",
        AvailabilityRequest::Off => "Off",
        AvailabilityRequest::Auto => "Auto",
    }
}

fn disposition_text(disposition: AvailabilityDisposition) -> (name: &'static str)
    ensures
        name@ == disposition_name(disposition),
{
    match disposition {
        AvailabilityDisposition::NoChange => "NoChange",
        AvailabilityDisposition::Ready => "Ready",
        AvailabilityDisposition::Blocked => "Blocked",
        AvailabilityDisposition::ManualPolicyRequired => "ManualPolicyRequired",
    }
}

fn profile_text(profile: Option<MacVmProfile>) -> (line: String)
    ensures
        line@ == profile_line(profile),
{
    let mut line = String::new();
    if let Some(value) = profile {
        line.append("Target profile: ");
        line.append(text::decimal_text(value.cpus as u64).as_str());
        line.append(" CPU, ");
        line.append(text::decimal_text(value.memory_mib as u64).as_str());
        line.append(" MiB RAM, ");
        line.append(text::decimal_text(value.max_concurrent_jobs as u64).as_str());
        line.append(" concurrent job(s)\n");
    }
    assert(line@ =~= profile_line(profile));
    line
}

fn actions_text(actions: &Vec<AvailabilityAction>) -> (lines: String)
    ensures
        lines@ == listed_actions(outcome::seq_view(actions@)),
{
    let ghost all = outcome::seq_view(actions@);
    let mut lines = String::new();
    let mut i: usize = 0;
    assert(all.take(0) =~= Seq::empty());
    while i < actions.len()
        invariant
            i <= actions@.len(),
            all == outcome::seq_view(actions@),
            lines@ == listed_actions(all.take(i as int)),
        decreases actions@.len() - i,
    {
        assert(all.take(i as int + 1).drop_last() =~= all.take(i as int));
        assert(all.take(i as int + 1).last() == actions@[i as int]@);
        lines.append("- ");
        lines.append(actions[i].summary.as_str());
        lines.append("\n");
        i += 1;
    }
    assert(all.take(i as int) =~= all);
    lines
}

fn blockers_text(blockers: &Vec<AvailabilityBlocker>) -> (lines: String)
    ensures
        lines@ == listed_blockers(outcome::seq_view(blockers@)),
{
    let ghost all = outcome::seq_view(blockers@);
    let mut lines = String::new();
    let mut i: usize = 0;
    assert(all.take(0) =~= Seq::empty());
    while i < blockers.len()
        invariant
            i <= blockers@.len(),
            all == outcome::seq_view(blockers@),
            lines@ == listed_blockers(all.take(i as int)),
        decreases blockers@.len() - i,
    {
        assert(all.take(i as int + 1).drop_last() =~= all.take(i as int));
        assert(all.take(i as int + 1).last() == blockers@[i as int]@);
        lines.append("- ");
        lines.append(blockers[i].message.as_str());
        lines.append("\n");
        i += 1;
    }
    assert(all.take(i as int) =~= all);
    lines
}

/// The plan for a human reader.
pub fn render_human(plan: &MacAvailabilityPlan) -> (output: String)
    ensures
        output@ == human_text(plan@),
{
    let mut output = "Mac availability transition: ".to_owned();
    output.append(mode_text(plan.effective_mode));
    output.append(" -> ");
    output.append(request_text(plan.requested_mode));
    output.append("\nDisposition: ");
    output.append(disposition_text(plan.disposition));
    output.append("\n");
    output.append(profile_text(plan.target_profile).as_str());
    let ghost head = output@;
    if plan.actions.len() > 0 {
        output.append("Actions:\n");
        output.append(actions_text(&plan.actions).as_str());
        assert(output@ =~= head + ("Actions:\n"@ + listed_actions(plan@.actions)));
    } else {
        assert(output@ =~= head + Seq::empty());
    }
    let ghost middle = output@;
    if plan.blockers.len() > 0 {
        output.append("Blockers:\n");
        output.append(blockers_text(&plan.blockers).as_str());
        assert(output@ =~= middle + ("Blockers:\n"@ + listed_blockers(plan@.blockers)));
    } else {
        assert(output@ =~= middle + Seq::empty());
    }
    output
}

/// Actions are planned only where nothing blocks, and a plan that is ready has
/// steps to take, the last of which verifies.
#[verifier::rlimit(50)]
pub proof fn law_only_unblocked_plans_act(
    o: MacAvailabilityObservation,
    requested_mode: AvailabilityRequest,
)
    ensures
        ({
            let plan = availability_plan(o, requested_mode);
            &&& plan.blockers.len() > 0 ==> plan.actions.len() == 0
            &&& plan.disposition == AvailabilityDisposition::Ready <==> plan.actions.len() > 0
            &&& plan.actions.len() > 0 ==> plan.actions.last().kind
                == AvailabilityActionKind::VerifyTransition
            &&& plan.blockers.len() == 0 <==> plan.disposition == AvailabilityDisposition::Ready
                || plan.disposition == AvailabilityDisposition::NoChange
        }),
{
    let plan = availability_plan(o, requested_mode);
    let auto_blocker = blocked_if(
        true,
        AvailabilityBlockerKind::AutoPolicyUnavailable,
        "auto mode requires reviewed idle, power, memory, dwell-time, and job-drain policy that is not implemented yet"@,
    );
    assert(auto_blocker.len() == 1);
    if plan.disposition == AvailabilityDisposition::Ready {
        assert(standing_blockers(o).len() == 0);
    }
}

/// Stale evidence or an operator hold blocks every request, a matching one
/// included.
#[verifier::rlimit(50)]
pub proof fn law_stale_or_held_always_blocks(
    o: MacAvailabilityObservation,
    requested_mode: AvailabilityRequest,
)
    requires
        o.freshness == ObservationFreshness::Stale || o.operator_hold,
    ensures
        availability_plan(o, requested_mode).disposition == AvailabilityDisposition::Blocked,
{
    assert(standing_blockers(o).len() > 0);
}

/// Whatever stops, restarts or replaces a running VM first proves that no job
/// is active.
#[verifier::rlimit(50)]
pub proof fn law_running_vm_is_drained_first(
    o: MacAvailabilityObservation,
    requested_mode: AvailabilityRequest,
)
    requires
        availability_plan(o, requested_mode).disposition == AvailabilityDisposition::Ready,
        o.effective_mode != EffectiveAvailabilityMode::Off,
    ensures
        o.job_activity == JobActivity::Idle,
        availability_plan(o, requested_mode).actions[0].kind == AvailabilityActionKind::DrainRunner,
{
    let jobs = job_blockers(o, requested_mode);
    assert(availability_plan(o, requested_mode).blockers.len() == 0);
    assert(jobs.len() == 0) by {
        if jobs.len() > 0 {
            assert(availability_plan(o, requested_mode).blockers.len() >= jobs.len());
        }
    }
}

/// The away profile is started only on AC power under normal memory pressure.
#[verifier::rlimit(50)]
pub proof fn law_away_needs_power_and_memory(o: MacAvailabilityObservation)
    requires
        availability_plan(o, AvailabilityRequest::Away).disposition
            == AvailabilityDisposition::Ready,
    ensures
        o.host_power == HostPowerSource::Ac,
        o.memory_pressure == MemoryPressure::Normal,
{
    let capacity = capacity_blockers(o, AvailabilityRequest::Away);
    assert(availability_plan(o, AvailabilityRequest::Away).blockers.len() == 0);
    assert(capacity.len() == 0) by {
        if capacity.len() > 0 {
            assert(availability_plan(o, AvailabilityRequest::Away).blockers.len()
                >= capacity.len());
        }
    }
}

/// A ready plan towards a running mode applies the profile, then starts the VM
/// and verifies last; one away from a running mode drains the runner and stops
/// the VM before anything else. It does nothing more.
#[verifier::rlimit(50)]
pub proof fn law_ready_plans_stop_and_start_the_vm(
    o: MacAvailabilityObservation,
    requested_mode: AvailabilityRequest,
)
    requires
        availability_plan(o, requested_mode).disposition == AvailabilityDisposition::Ready,
    ensures
        ({
            let actions = availability_plan(o, requested_mode).actions;
            let running: int = if o.effective_mode == EffectiveAvailabilityMode::Off {
                0
            } else {
                2
            };
            let n = actions.len();
            &&& running == 2 ==> actions[0].kind == AvailabilityActionKind::DrainRunner
                && actions[1].kind == AvailabilityActionKind::StopVm
            &&& actions[n - 1].kind == AvailabilityActionKind::VerifyTransition
            &&& requested_mode == AvailabilityRequest::Active || requested_mode
                == AvailabilityRequest::Away ==> {
                &&& n == running + 3
                &&& actions[n - 3].kind == AvailabilityActionKind::ApplyProfile
                &&& actions[n - 2].kind == AvailabilityActionKind::StartVm
            }
            &&& requested_mode == AvailabilityRequest::Off ==> n == running + 1 && running == 2
            &&& requested_mode != AvailabilityRequest::Auto
        }),
{
}

/// The profile of a plan is the one of the mode that is asked for, and no other
/// mode has one.
#[verifier::rlimit(50)]
pub proof fn law_profiles_belong_to_their_modes(
    o: MacAvailabilityObservation,
    requested_mode: AvailabilityRequest,
)
    ensures
        ({
            let plan = availability_plan(o, requested_mode);
            &&& plan.schema_version == 1
            &&& plan.effective_mode == o.effective_mode
            &&& plan.requested_mode == requested_mode
            &&& plan.target_profile is Some <==> requested_mode == AvailabilityRequest::Active
                || requested_mode == AvailabilityRequest::Away
            &&& requested_mode == AvailabilityRequest::Active ==> plan.target_profile->0.cpus == 4
                && plan.target_profile->0.memory_mib == 3072
            &&& requested_mode == AvailabilityRequest::Away ==> plan.target_profile->0.cpus == 8
                && plan.target_profile->0.memory_mib == 8192
            &&& plan.target_profile matches Some(profile) ==> profile.max_concurrent_jobs == 1
        }),
{
}

/// Evidence is in order: fresh, without a hold, with a VM that is powered as
/// the mode says, and with no job where the VM is off.
pub open spec fn is_in_order(o: MacAvailabilityObservation) -> bool {
    &&& o.freshness == ObservationFreshness::Fresh
    &&& !o.operator_hold
    &&& match o.effective_mode {
        EffectiveAvailabilityMode::Off => o.vm_power == VmPowerState::Stopped && o.job_activity
            == JobActivity::Idle,
        _ => o.vm_power == VmPowerState::Running,
    }
}

/// The request is for the mode that is in effect.
pub open spec fn is_in_effect(
    o: MacAvailabilityObservation,
    requested_mode: AvailabilityRequest,
) -> bool {
    match requested_mode {
        AvailabilityRequest::Active => o.effective_mode == EffectiveAvailabilityMode::Active,
        AvailabilityRequest::Away => o.effective_mode == EffectiveAvailabilityMode::Away,
        AvailabilityRequest::Off => o.effective_mode == EffectiveAvailabilityMode::Off,
        AvailabilityRequest::Auto => false,
    }
}

/// A plan is ready exactly when the evidence is in order, another mode than the
/// one in effect is asked for, no job may be running on a VM that would be
/// stopped, and the host has the memory and, for the away mode, the power that
/// the mode needs. A matching request with evidence in order changes nothing,
/// whatever else the host reports, and the automatic mode never acts.
#[verifier::rlimit(50)]
pub proof fn law_plans_are_ready_when_nothing_stands_against_them(
    o: MacAvailabilityObservation,
    requested_mode: AvailabilityRequest,
)
    ensures
        ({
            let disposition = availability_plan(o, requested_mode).disposition;
            &&& disposition == AvailabilityDisposition::Ready <==> {
                &&& is_in_order(o)
                &&& requested_mode != AvailabilityRequest::Auto
                &&& !is_in_effect(o, requested_mode)
                &&& o.job_activity == JobActivity::Idle
                &&& requested_mode == AvailabilityRequest::Active ==> o.memory_pressure
                    == MemoryPressure::Normal || o.memory_pressure == MemoryPressure::Elevated
                &&& requested_mode == AvailabilityRequest::Away ==> o.memory_pressure
                    == MemoryPressure::Normal && o.host_power == HostPowerSource::Ac
            }
            &&& disposition == AvailabilityDisposition::NoChange <==> is_in_order(o)
                && is_in_effect(o, requested_mode)
            &&& disposition == AvailabilityDisposition::ManualPolicyRequired <==> is_in_order(o)
                && requested_mode == AvailabilityRequest::Auto
        }),
{
    lemma_standing_in_order(o);
    lemma_capacity_suffices(o, requested_mode);
    if requested_mode != AvailabilityRequest::Auto && !(is_in_order(o) && is_in_effect(
        o,
        requested_mode,
    )) {
        lemma_gathered(o, requested_mode);
    }
}

#[verifier::rlimit(50)]
proof fn lemma_standing_in_order(o: MacAvailabilityObservation)
    ensures
        standing_blockers(o).len() == 0 <==> is_in_order(o),
{
}

proof fn lemma_capacity_suffices(o: MacAvailabilityObservation, requested_mode: AvailabilityRequest)
    ensures
        requested_mode == AvailabilityRequest::Active ==> (capacity_blockers(
            o,
            requested_mode,
        ).len() == 0 <==> o.memory_pressure == MemoryPressure::Normal || o.memory_pressure
            == MemoryPressure::Elevated),
        requested_mode == AvailabilityRequest::Away ==> (capacity_blockers(o, requested_mode).len()
            == 0 <==> o.memory_pressure == MemoryPressure::Normal && o.host_power
            == HostPowerSource::Ac),
{
}

#[verifier::rlimit(50)]
proof fn lemma_gathered(o: MacAvailabilityObservation, requested_mode: AvailabilityRequest)
    requires
        requested_mode != AvailabilityRequest::Auto,
        !(standing_blockers(o).len() == 0 && matches_effective(requested_mode, o.effective_mode)),
    ensures
        availability_plan(o, requested_mode).blockers.len() == standing_blockers(o).len() + (
        if requested_mode == AvailabilityRequest::Off {
            0
        } else {
            capacity_blockers(o, requested_mode).len()
        }) + job_blockers(o, requested_mode).len(),
        job_blockers(o, requested_mode).len() == 0 <==> o.effective_mode
            == EffectiveAvailabilityMode::Off || matches_effective(requested_mode, o.effective_mode)
            || o.job_activity == JobActivity::Idle,
{
    let standing = standing_blockers(o);
    let jobs = job_blockers(o, requested_mode);
    let capacity = if requested_mode == AvailabilityRequest::Off {
        Seq::empty()
    } else {
        capacity_blockers(o, requested_mode)
    };
    assert((standing + capacity + jobs).len() == standing.len() + capacity.len() + jobs.len());
}

/// A blocker of this kind is among the blockers.
pub open spec fn is_named(blockers: Seq<BlockerView>, kind: AvailabilityBlockerKind) -> bool {
    exists|i: int| 0 <= i < blockers.len() && (#[trigger] blockers[i]).kind == kind
}

proof fn lemma_named_in_either(
    first: Seq<BlockerView>,
    second: Seq<BlockerView>,
    kind: AvailabilityBlockerKind,
)
    ensures
        is_named(first + second, kind) <==> is_named(first, kind) || is_named(second, kind),
{
    let all = first + second;
    if is_named(first, kind) {
        let i = choose|i: int| 0 <= i < first.len() && (#[trigger] first[i]).kind == kind;
        assert(all[i].kind == kind);
    }
    if is_named(second, kind) {
        let i = choose|i: int| 0 <= i < second.len() && (#[trigger] second[i]).kind == kind;
        assert(all[first.len() + i].kind == kind);
    }
    if is_named(all, kind) {
        let i = choose|i: int| 0 <= i < all.len() && (#[trigger] all[i]).kind == kind;
        if i < first.len() {
            assert(first[i].kind == kind);
        } else {
            assert(second[i - first.len()].kind == kind);
        }
    }
}

proof fn lemma_named_if(
    applies: bool,
    kind: AvailabilityBlockerKind,
    message: Seq<char>,
    other: AvailabilityBlockerKind,
)
    ensures
        is_named(blocked_if(applies, kind, message), other) <==> applies && kind == other,
{
    if applies {
        assert(blocked_if(applies, kind, message)[0].kind == kind);
    }
}

/// What is named among blockers that were gathered one condition at a time.
proof fn lemma_named_step(
    before: Seq<BlockerView>,
    applies: bool,
    kind: AvailabilityBlockerKind,
    message: Seq<char>,
    after: Seq<BlockerView>,
    other: AvailabilityBlockerKind,
)
    requires
        after == before + blocked_if(applies, kind, message),
    ensures
        is_named(after, other) <==> is_named(before, other) || (applies && kind == other),
{
    lemma_named_in_either(before, blocked_if(applies, kind, message), other);
    lemma_named_if(applies, kind, message, other);
}

proof fn lemma_named_standing(o: MacAvailabilityObservation, kind: AvailabilityBlockerKind)
    ensures
        is_named(standing_blockers(o), kind) <==> {
            let off = o.effective_mode == EffectiveAvailabilityMode::Off;
            ||| kind == AvailabilityBlockerKind::StaleObservation && (
                o.freshness == ObservationFreshness::Stale
            )
            ||| kind == AvailabilityBlockerKind::OperatorHold && (o.operator_hold)
            ||| kind == AvailabilityBlockerKind::UnknownVmPower && (
                o.vm_power == VmPowerState::Unknown
            )
            ||| kind == AvailabilityBlockerKind::InconsistentEffectiveState && (
                !is_consistent_state(o.effective_mode, o.vm_power)
            )
            ||| kind == AvailabilityBlockerKind::InconsistentEffectiveState && (
                off && o.job_activity == JobActivity::Active
            )
            ||| kind == AvailabilityBlockerKind::UnknownJobActivity && (
                off && o.job_activity == JobActivity::Unknown
            )
        },
{
    let off = o.effective_mode == EffectiveAvailabilityMode::Off;
    let s0 = blocked_if(
        o.freshness == ObservationFreshness::Stale,
        AvailabilityBlockerKind::StaleObservation,
        "availability evidence is stale; refresh host and job observations before planning a transition"@,
    );
    lemma_named_if(
        o.freshness == ObservationFreshness::Stale,
        AvailabilityBlockerKind::StaleObservation,
        "availability evidence is stale; refresh host and job observations before planning a transition"@,
        kind,
    );
    let s1 = s0 + blocked_if(
        o.operator_hold,
        AvailabilityBlockerKind::OperatorHold,
        "an operator hold blocks availability transitions"@,
    );
    lemma_named_step(
        s0,
        o.operator_hold,
        AvailabilityBlockerKind::OperatorHold,
        "an operator hold blocks availability transitions"@,
        s1,
        kind,
    );
    let s2 = s1 + blocked_if(
        o.vm_power == VmPowerState::Unknown,
        AvailabilityBlockerKind::UnknownVmPower,
        "the Lima VM power state is unknown"@,
    );
    lemma_named_step(
        s1,
        o.vm_power == VmPowerState::Unknown,
        AvailabilityBlockerKind::UnknownVmPower,
        "the Lima VM power state is unknown"@,
        s2,
        kind,
    );
    let s3 = s2 + blocked_if(
        !is_consistent_state(o.effective_mode, o.vm_power),
        AvailabilityBlockerKind::InconsistentEffectiveState,
        "the effective availability mode conflicts with the observed VM power state"@,
    );
    lemma_named_step(
        s2,
        !is_consistent_state(o.effective_mode, o.vm_power),
        AvailabilityBlockerKind::InconsistentEffectiveState,
        "the effective availability mode conflicts with the observed VM power state"@,
        s3,
        kind,
    );
    let s4 = s3 + blocked_if(
        off && o.job_activity == JobActivity::Active,
        AvailabilityBlockerKind::InconsistentEffectiveState,
        "the VM is off but runner job activity is reported as active"@,
    );
    lemma_named_step(
        s3,
        off && o.job_activity == JobActivity::Active,
        AvailabilityBlockerKind::InconsistentEffectiveState,
        "the VM is off but runner job activity is reported as active"@,
        s4,
        kind,
    );
    let s5 = s4 + blocked_if(
        off && o.job_activity == JobActivity::Unknown,
        AvailabilityBlockerKind::UnknownJobActivity,
        "the VM is off but runner job activity is unknown; prove the listener idle"@,
    );
    lemma_named_step(
        s4,
        off && o.job_activity == JobActivity::Unknown,
        AvailabilityBlockerKind::UnknownJobActivity,
        "the VM is off but runner job activity is unknown; prove the listener idle"@,
        s5,
        kind,
    );
    assert(standing_blockers(o) == s5);
}

proof fn lemma_named_for_away(o: MacAvailabilityObservation, kind: AvailabilityBlockerKind)
    ensures
        is_named(capacity_blockers(o, AvailabilityRequest::Away), kind) <==> {
            ||| kind == AvailabilityBlockerKind::BatteryPower && (
                o.host_power == HostPowerSource::Battery
            )
            ||| kind == AvailabilityBlockerKind::UnknownPowerSource && (
                o.host_power == HostPowerSource::Unknown
            )
            ||| kind == AvailabilityBlockerKind::ElevatedMemoryPressure && (
                o.memory_pressure == MemoryPressure::Elevated
            )
            ||| kind == AvailabilityBlockerKind::CriticalMemoryPressure && (
                o.memory_pressure == MemoryPressure::Critical
            )
            ||| kind == AvailabilityBlockerKind::UnknownMemoryPressure && (
                o.memory_pressure == MemoryPressure::Unknown
            )
        },
{
    let s0 = blocked_if(
        o.host_power == HostPowerSource::Battery,
        AvailabilityBlockerKind::BatteryPower,
        "away mode requires AC power in the initial policy"@,
    );
    lemma_named_if(
        o.host_power == HostPowerSource::Battery,
        AvailabilityBlockerKind::BatteryPower,
        "away mode requires AC power in the initial policy"@,
        kind,
    );
    let s1 = s0 + blocked_if(
        o.host_power == HostPowerSource::Unknown,
        AvailabilityBlockerKind::UnknownPowerSource,
        "away mode requires a known host power source"@,
    );
    lemma_named_step(
        s0,
        o.host_power == HostPowerSource::Unknown,
        AvailabilityBlockerKind::UnknownPowerSource,
        "away mode requires a known host power source"@,
        s1,
        kind,
    );
    let s2 = s1 + blocked_if(
        o.memory_pressure == MemoryPressure::Elevated,
        AvailabilityBlockerKind::ElevatedMemoryPressure,
        "away mode is blocked while macOS memory pressure is elevated"@,
    );
    lemma_named_step(
        s1,
        o.memory_pressure == MemoryPressure::Elevated,
        AvailabilityBlockerKind::ElevatedMemoryPressure,
        "away mode is blocked while macOS memory pressure is elevated"@,
        s2,
        kind,
    );
    let s3 = s2 + blocked_if(
        o.memory_pressure == MemoryPressure::Critical,
        AvailabilityBlockerKind::CriticalMemoryPressure,
        "away mode is blocked while macOS memory pressure is critical"@,
    );
    lemma_named_step(
        s2,
        o.memory_pressure == MemoryPressure::Critical,
        AvailabilityBlockerKind::CriticalMemoryPressure,
        "away mode is blocked while macOS memory pressure is critical"@,
        s3,
        kind,
    );
    let s4 = s3 + blocked_if(
        o.memory_pressure == MemoryPressure::Unknown,
        AvailabilityBlockerKind::UnknownMemoryPressure,
        "away mode requires a known memory-pressure observation"@,
    );
    lemma_named_step(
        s3,
        o.memory_pressure == MemoryPressure::Unknown,
        AvailabilityBlockerKind::UnknownMemoryPressure,
        "away mode requires a known memory-pressure observation"@,
        s4,
        kind,
    );
    assert(capacity_blockers(o, AvailabilityRequest::Away) == s4);
}

proof fn lemma_named_for_active(o: MacAvailabilityObservation, kind: AvailabilityBlockerKind)
    ensures
        is_named(capacity_blockers(o, AvailabilityRequest::Active), kind) <==> {
            ||| kind == AvailabilityBlockerKind::CriticalMemoryPressure && (
                o.memory_pressure == MemoryPressure::Critical
            )
            ||| kind == AvailabilityBlockerKind::UnknownMemoryPressure && (
                o.memory_pressure == MemoryPressure::Unknown
            )
        },
{
    let s0 = blocked_if(
        o.memory_pressure == MemoryPressure::Critical,
        AvailabilityBlockerKind::CriticalMemoryPressure,
        "starting the interactive VM is blocked while macOS memory pressure is critical"@,
    );
    lemma_named_if(
        o.memory_pressure == MemoryPressure::Critical,
        AvailabilityBlockerKind::CriticalMemoryPressure,
        "starting the interactive VM is blocked while macOS memory pressure is critical"@,
        kind,
    );
    let s1 = s0 + blocked_if(
        o.memory_pressure == MemoryPressure::Unknown,
        AvailabilityBlockerKind::UnknownMemoryPressure,
        "starting the interactive VM requires a known memory-pressure observation"@,
    );
    lemma_named_step(
        s0,
        o.memory_pressure == MemoryPressure::Unknown,
        AvailabilityBlockerKind::UnknownMemoryPressure,
        "starting the interactive VM requires a known memory-pressure observation"@,
        s1,
        kind,
    );
    assert(capacity_blockers(o, AvailabilityRequest::Active) == s1);
}

proof fn lemma_named_for_jobs(
    o: MacAvailabilityObservation,
    requested_mode: AvailabilityRequest,
    kind: AvailabilityBlockerKind,
)
    ensures
        is_named(job_blockers(o, requested_mode), kind) <==> {
            let changes = o.effective_mode != EffectiveAvailabilityMode::Off && !matches_effective(
                requested_mode,
                o.effective_mode,
            );
            ||| kind == AvailabilityBlockerKind::ActiveJob && (
                changes && o.job_activity == JobActivity::Active
            )
            ||| kind == AvailabilityBlockerKind::UnknownJobActivity && (
                changes && o.job_activity == JobActivity::Unknown
            )
        },
{
    let changes = o.effective_mode != EffectiveAvailabilityMode::Off && !matches_effective(
        requested_mode,
        o.effective_mode,
    );
    let s0 = blocked_if(
        changes && o.job_activity == JobActivity::Active,
        AvailabilityBlockerKind::ActiveJob,
        "an active runner job blocks VM stop, restart, or profile replacement"@,
    );
    lemma_named_if(
        changes && o.job_activity == JobActivity::Active,
        AvailabilityBlockerKind::ActiveJob,
        "an active runner job blocks VM stop, restart, or profile replacement"@,
        kind,
    );
    let s1 = s0 + blocked_if(
        changes && o.job_activity == JobActivity::Unknown,
        AvailabilityBlockerKind::UnknownJobActivity,
        "runner job activity is unknown; prove the listener idle before changing availability"@,
    );
    lemma_named_step(
        s0,
        changes && o.job_activity == JobActivity::Unknown,
        AvailabilityBlockerKind::UnknownJobActivity,
        "runner job activity is unknown; prove the listener idle before changing availability"@,
        s1,
        kind,
    );
    assert(job_blockers(o, requested_mode) == s1);
}

/// Where each blocker of a plan comes from.
#[verifier::rlimit(50)]
proof fn lemma_named_in_plan(
    o: MacAvailabilityObservation,
    requested_mode: AvailabilityRequest,
    kind: AvailabilityBlockerKind,
)
    ensures
        is_named(availability_plan(o, requested_mode).blockers, kind) <==> if requested_mode
            == AvailabilityRequest::Auto {
            is_named(standing_blockers(o), kind) || (is_in_order(o) && kind
                == AvailabilityBlockerKind::AutoPolicyUnavailable)
        } else if is_in_order(o) && is_in_effect(o, requested_mode) {
            false
        } else {
            ||| is_named(standing_blockers(o), kind)
            ||| requested_mode != AvailabilityRequest::Off && is_named(
                capacity_blockers(o, requested_mode),
                kind,
            )
            ||| is_named(job_blockers(o, requested_mode), kind)
        },
{
    let standing = standing_blockers(o);
    assert(standing.len() == 0 <==> is_in_order(o));
    lemma_named_if(
        true,
        AvailabilityBlockerKind::AutoPolicyUnavailable,
        "auto mode requires reviewed idle, power, memory, dwell-time, and job-drain policy that is not implemented yet"@,
        kind,
    );
    let capacity = if requested_mode == AvailabilityRequest::Off {
        Seq::empty()
    } else {
        capacity_blockers(o, requested_mode)
    };
    lemma_named_in_either(standing, capacity, kind);
    lemma_named_in_either(standing + capacity, job_blockers(o, requested_mode), kind);
}

/// What stands against a transition under this kind of blocker.
pub open spec fn stands_against(
    o: MacAvailabilityObservation,
    requested_mode: AvailabilityRequest,
    kind: AvailabilityBlockerKind,
) -> bool {
    let off = o.effective_mode == EffectiveAvailabilityMode::Off;
    let auto = requested_mode == AvailabilityRequest::Auto;
    let away = requested_mode == AvailabilityRequest::Away;
    let starts = away || requested_mode == AvailabilityRequest::Active;
    let settled = is_in_order(o) && is_in_effect(o, requested_mode);
    let replaces = !off && !auto && !is_in_effect(o, requested_mode);
    match kind {
        AvailabilityBlockerKind::StaleObservation => o.freshness == ObservationFreshness::Stale,
        AvailabilityBlockerKind::OperatorHold => o.operator_hold,
        AvailabilityBlockerKind::UnknownVmPower => o.vm_power == VmPowerState::Unknown,
        AvailabilityBlockerKind::InconsistentEffectiveState => if off {
            o.vm_power != VmPowerState::Stopped || o.job_activity == JobActivity::Active
        } else {
            o.vm_power != VmPowerState::Running
        },
        AvailabilityBlockerKind::UnknownJobActivity => (off || replaces) && o.job_activity
            == JobActivity::Unknown,
        AvailabilityBlockerKind::ActiveJob => replaces && o.job_activity == JobActivity::Active,
        AvailabilityBlockerKind::AutoPolicyUnavailable => auto && is_in_order(o),
        AvailabilityBlockerKind::BatteryPower => away && !settled && o.host_power
            == HostPowerSource::Battery,
        AvailabilityBlockerKind::UnknownPowerSource => away && !settled && o.host_power
            == HostPowerSource::Unknown,
        AvailabilityBlockerKind::ElevatedMemoryPressure => away && !settled && o.memory_pressure
            == MemoryPressure::Elevated,
        AvailabilityBlockerKind::CriticalMemoryPressure => starts && !settled && o.memory_pressure
            == MemoryPressure::Critical,
        AvailabilityBlockerKind::UnknownMemoryPressure => starts && !settled && o.memory_pressure
            == MemoryPressure::Unknown,
    }
}

/// Every circumstance that stands against a transition is named among the
/// blockers, and nothing is named that does not stand against it.
#[verifier::rlimit(50)]
pub proof fn law_blockers_say_what_stands_in_the_way(
    o: MacAvailabilityObservation,
    requested_mode: AvailabilityRequest,
    kind: AvailabilityBlockerKind,
)
    ensures
        is_named(availability_plan(o, requested_mode).blockers, kind) <==> stands_against(
            o,
            requested_mode,
            kind,
        ),
{
    lemma_named_in_plan(o, requested_mode, kind);
    lemma_named_standing(o, kind);
    lemma_named_for_away(o, kind);
    lemma_named_for_active(o, kind);
    lemma_named_for_jobs(o, requested_mode, kind);
}

/// What is printed of a plan has a line for each of its actions and blockers,
/// and names the modes and the disposition of the plan.
#[verifier::rlimit(50)]
pub proof fn law_printed_plans_list_their_parts(plan: PlanView, i: int)
    ensures
        0 <= i < plan.actions.len() ==> scan::contains_text(
            human_text(plan),
            "- "@ + plan.actions[i].summary + "\n"@,
        ),
        0 <= i < plan.blockers.len() ==> scan::contains_text(
            human_text(plan),
            "- "@ + plan.blockers[i].message + "\n"@,
        ),
        text::has_prefix(
            human_text(plan),
            "Mac availability transition: "@ + mode_name(plan.effective_mode) + " -> "@
                + request_name(plan.requested_mode) + "\nDisposition: "@ + disposition_name(
                plan.disposition,
            ) + "\n"@,
        ),
{
    let head = "Mac availability transition: "@ + mode_name(plan.effective_mode) + " -> "@
        + request_name(plan.requested_mode) + "\nDisposition: "@ + disposition_name(
        plan.disposition,
    ) + "\n"@;
    let upper = head + profile_line(plan.target_profile);
    let middle = if plan.actions.len() > 0 {
        "Actions:\n"@ + listed_actions(plan.actions)
    } else {
        Seq::empty()
    };
    let lower = if plan.blockers.len() > 0 {
        "Blockers:\n"@ + listed_blockers(plan.blockers)
    } else {
        Seq::empty()
    };
    let all = human_text(plan);
    assert(all == upper + middle + lower);
    assert(all.take(head.len() as int) =~= head);
    if 0 <= i < plan.actions.len() {
        let line = "- "@ + plan.actions[i].summary + "\n"@;
        let parts = lemma_action_is_listed(plan.actions, i);
        let before = upper + "Actions:\n"@ + parts.0;
        assert(all =~= before + line + (parts.1 + lower));
        lemma_contains(before, line, parts.1 + lower);
    }
    if 0 <= i < plan.blockers.len() {
        let line = "- "@ + plan.blockers[i].message + "\n"@;
        let parts = lemma_blocker_is_listed(plan.blockers, i);
        let before = upper + middle + "Blockers:\n"@ + parts.0;
        assert(all =~= before + line + parts.1);
        lemma_contains(before, line, parts.1);
    }
}

proof fn lemma_contains(before: Seq<char>, line: Seq<char>, after: Seq<char>)
    ensures
        scan::contains_text(before + line + after, line),
{
    let all = before + line + after;
    assert(all.subrange(before.len() as int, before.len() as int + line.len()) =~= line);
    assert(scan::occurs_at(all, line, before.len() as int));
}

proof fn lemma_action_is_listed(actions: Seq<ActionView>, i: int) -> (parts: (
    Seq<char>,
    Seq<char>,
))
    requires
        0 <= i < actions.len(),
    ensures
        listed_actions(actions) == parts.0 + ("- "@ + actions[i].summary + "\n"@) + parts.1,
    decreases actions.len(),
{
    let before = actions.drop_last();
    if i == actions.len() - 1 {
        let line = "- "@ + actions[i].summary + "\n"@;
        assert(listed_actions(actions) =~= listed_actions(before) + line + Seq::<char>::empty());
        (listed_actions(before), Seq::empty())
    } else {
        let parts = lemma_action_is_listed(before, i);
        let last = "- "@ + actions.last().summary + "\n"@;
        let line = "- "@ + actions[i].summary + "\n"@;
        assert(before[i] == actions[i]);
        assert(listed_actions(actions) =~= parts.0 + line + (parts.1 + last));
        (parts.0, parts.1 + last)
    }
}

proof fn lemma_blocker_is_listed(blockers: Seq<BlockerView>, i: int) -> (parts: (
    Seq<char>,
    Seq<char>,
))
    requires
        0 <= i < blockers.len(),
    ensures
        listed_blockers(blockers) == parts.0 + ("- "@ + blockers[i].message + "\n"@) + parts.1,
    decreases blockers.len(),
{
    let before = blockers.drop_last();
    if i == blockers.len() - 1 {
        let line = "- "@ + blockers[i].message + "\n"@;
        assert(listed_blockers(blockers) =~= listed_blockers(before) + line
            + Seq::<char>::empty());
        (listed_blockers(before), Seq::empty())
    } else {
        let parts = lemma_blocker_is_listed(before, i);
        let last = "- "@ + blockers.last().message + "\n"@;
        let line = "- "@ + blockers[i].message + "\n"@;
        assert(before[i] == blockers[i]);
        assert(listed_blockers(blockers) =~= parts.0 + line + (parts.1 + last));
        (parts.0, parts.1 + last)
    }
}

} // verus!
