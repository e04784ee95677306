//! Availability transitions of the Mac runner.
use glaeda::mac_availability::{
    active_profile, away_profile, plan_availability_transition, render_human,
    AvailabilityActionKind, AvailabilityBlockerKind, AvailabilityDisposition, AvailabilityRequest,
    EffectiveAvailabilityMode, HostPowerSource, JobActivity, MacAvailabilityObservation,
    MemoryPressure, ObservationFreshness, VmPowerState,
};

fn observation(effective_mode: EffectiveAvailabilityMode) -> MacAvailabilityObservation {
    MacAvailabilityObservation {
        effective_mode,
        vm_power: if effective_mode == EffectiveAvailabilityMode::Off {
            VmPowerState::Stopped
        } else {
            VmPowerState::Running
        },
        job_activity: JobActivity::Idle,
        freshness: ObservationFreshness::Fresh,
        host_power: HostPowerSource::Ac,
        memory_pressure: MemoryPressure::Normal,
        operator_hold: false,
    }
}

#[test]
fn matching_mode_is_a_no_change_plan() {
    let plan = plan_availability_transition(
        observation(EffectiveAvailabilityMode::Active),
        AvailabilityRequest::Active,
    );

    assert_eq!(plan.disposition, AvailabilityDisposition::NoChange);
    assert!(plan.actions.is_empty());
    assert!(plan.blockers.is_empty());
}

#[test]
fn off_idle_matching_request_is_no_change() {
    let plan = plan_availability_transition(
        observation(EffectiveAvailabilityMode::Off),
        AvailabilityRequest::Off,
    );

    assert_eq!(plan.disposition, AvailabilityDisposition::NoChange);
    assert!(plan.blockers.is_empty());
}

#[test]
fn off_active_job_is_inconsistent_and_blocked() {
    let mut facts = observation(EffectiveAvailabilityMode::Off);
    facts.job_activity = JobActivity::Active;

    let plan = plan_availability_transition(facts, AvailabilityRequest::Off);

    assert_eq!(plan.disposition, AvailabilityDisposition::Blocked);
    assert!(plan.blockers.iter().any(|blocker| {
        blocker.kind == AvailabilityBlockerKind::InconsistentEffectiveState
    }));
}

#[test]
fn off_unknown_job_activity_is_explicitly_blocked() {
    let mut facts = observation(EffectiveAvailabilityMode::Off);
    facts.job_activity = JobActivity::Unknown;

    let plan = plan_availability_transition(facts, AvailabilityRequest::Off);

    assert_eq!(plan.disposition, AvailabilityDisposition::Blocked);
    assert!(
        plan.blockers
            .iter()
            .any(|blocker| blocker.kind == AvailabilityBlockerKind::UnknownJobActivity)
    );
}

#[test]
fn matching_running_mode_allows_an_active_job() {
    let mut facts = observation(EffectiveAvailabilityMode::Active);
    facts.job_activity = JobActivity::Active;

    let plan = plan_availability_transition(facts, AvailabilityRequest::Active);

    assert_eq!(plan.disposition, AvailabilityDisposition::NoChange);
    assert!(plan.blockers.is_empty());
}

#[test]
fn active_to_away_requires_drain_restart_and_verification() {
    let plan = plan_availability_transition(
        observation(EffectiveAvailabilityMode::Active),
        AvailabilityRequest::Away,
    );

    assert_eq!(plan.disposition, AvailabilityDisposition::Ready);
    assert_eq!(
        plan.actions
            .iter()
            .map(|action| action.kind)
            .collect::<Vec<_>>(),
        vec![
            AvailabilityActionKind::DrainRunner,
            AvailabilityActionKind::StopVm,
            AvailabilityActionKind::ApplyProfile,
            AvailabilityActionKind::StartVm,
            AvailabilityActionKind::VerifyTransition,
        ]
    );
}

#[test]
fn active_job_blocks_profile_change() {
    let mut facts = observation(EffectiveAvailabilityMode::Active);
    facts.job_activity = JobActivity::Active;

    let plan = plan_availability_transition(facts, AvailabilityRequest::Away);

    assert_eq!(plan.disposition, AvailabilityDisposition::Blocked);
    assert!(plan.actions.is_empty());
    assert!(
        plan.blockers
            .iter()
            .any(|blocker| { blocker.kind == AvailabilityBlockerKind::ActiveJob })
    );
}

#[test]
fn stale_observation_blocks_even_a_matching_request() {
    let mut facts = observation(EffectiveAvailabilityMode::Active);
    facts.freshness = ObservationFreshness::Stale;

    let plan = plan_availability_transition(facts, AvailabilityRequest::Active);

    assert_eq!(plan.disposition, AvailabilityDisposition::Blocked);
    assert!(
        plan.blockers
            .iter()
            .any(|blocker| { blocker.kind == AvailabilityBlockerKind::StaleObservation })
    );
}

#[test]
fn away_requires_ac_and_normal_memory_pressure() {
    let mut facts = observation(EffectiveAvailabilityMode::Off);
    facts.host_power = HostPowerSource::Battery;
    facts.memory_pressure = MemoryPressure::Elevated;

    let plan = plan_availability_transition(facts, AvailabilityRequest::Away);

    assert_eq!(plan.disposition, AvailabilityDisposition::Blocked);
    assert!(
        plan.blockers
            .iter()
            .any(|blocker| { blocker.kind == AvailabilityBlockerKind::BatteryPower })
    );
    assert!(
        plan.blockers
            .iter()
            .any(|blocker| { blocker.kind == AvailabilityBlockerKind::ElevatedMemoryPressure })
    );
}

#[test]
fn off_transition_ignores_capacity_but_requires_idle_job_evidence() {
    let mut facts = observation(EffectiveAvailabilityMode::Away);
    facts.host_power = HostPowerSource::Battery;
    facts.memory_pressure = MemoryPressure::Critical;

    let plan = plan_availability_transition(facts, AvailabilityRequest::Off);

    assert_eq!(plan.disposition, AvailabilityDisposition::Ready);
    assert_eq!(plan.actions[0].kind, AvailabilityActionKind::DrainRunner);
}

#[test]
fn auto_is_explicitly_deferred() {
    let plan = plan_availability_transition(
        observation(EffectiveAvailabilityMode::Active),
        AvailabilityRequest::Auto,
    );

    assert_eq!(
        plan.disposition,
        AvailabilityDisposition::ManualPolicyRequired
    );
    assert!(
        plan.blockers
            .iter()
            .any(|blocker| { blocker.kind == AvailabilityBlockerKind::AutoPolicyUnavailable })
    );
}

#[test]
fn inconsistent_effective_state_fails_closed() {
    let mut facts = observation(EffectiveAvailabilityMode::Active);
    facts.vm_power = VmPowerState::Stopped;

    let plan = plan_availability_transition(facts, AvailabilityRequest::Away);

    assert_eq!(plan.disposition, AvailabilityDisposition::Blocked);
    assert!(plan.blockers.iter().any(|blocker| {
        blocker.kind == AvailabilityBlockerKind::InconsistentEffectiveState
    }));
}

#[test]
fn json_contract_uses_versioned_snake_case_fields() {
    let plan = plan_availability_transition(
        observation(EffectiveAvailabilityMode::Off),
        AvailabilityRequest::Active,
    );

    assert_eq!(plan.schema_version, 1);
    assert_eq!(plan.effective_mode, EffectiveAvailabilityMode::Off);
    assert_eq!(plan.requested_mode, AvailabilityRequest::Active);
    assert_eq!(plan.disposition, AvailabilityDisposition::Ready);
    assert_eq!(plan.target_profile.expect("target profile").cpus, 4);
}

#[test]
fn profiles_are_fixed() {
    let active = active_profile();
    assert_eq!(
        (active.cpus, active.memory_mib, active.max_concurrent_jobs),
        (4, 3072, 1)
    );
    let away = away_profile();
    assert_eq!(
        (away.cpus, away.memory_mib, away.max_concurrent_jobs),
        (8, 8192, 1)
    );
}

#[test]
fn an_operator_hold_blocks_every_request() {
    for requested in [
        AvailabilityRequest::Active,
        AvailabilityRequest::Away,
        AvailabilityRequest::Off,
    ] {
        let mut facts = observation(EffectiveAvailabilityMode::Active);
        facts.operator_hold = true;
        let plan = plan_availability_transition(facts, requested);
        assert_eq!(plan.disposition, AvailabilityDisposition::Blocked);
        assert!(plan.actions.is_empty());
        assert!(plan
            .blockers
            .iter()
            .any(|blocker| blocker.kind == AvailabilityBlockerKind::OperatorHold));
    }
}

#[test]
fn a_plan_is_rendered_line_by_line() {
    let plan = plan_availability_transition(
        observation(EffectiveAvailabilityMode::Active),
        AvailabilityRequest::Active,
    );
    assert_eq!(
        render_human(&plan),
        "Mac availability transition: Active -> Active\nDisposition: NoChange\nTarget profile: 4 CPU, 3072 MiB RAM, 1 concurrent job(s)\n"
    );
}
