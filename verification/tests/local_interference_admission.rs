//! Admission of work next to other local work.
use glaeda::local_interference_admission::{
    compile_local_interference_admission, decision, ActiveInterferenceSummary,
    LocalAdmissionDisposition, LocalAdmissionReason, LocalInterferenceClass,
    LocalInterferenceObservation, LocalInterferenceRequest, LocalPressureClass, NodeControlState,
    QuietCompatibility, QuietLeaseObservation,
};

fn observation() -> LocalInterferenceObservation {
    LocalInterferenceObservation {
        observed_at_unix_millis: 1_000,
        node_control: NodeControlState::Available,
        pressure: LocalPressureClass::Low,
        quiet_lease: None,
        active: ActiveInterferenceSummary::default(),
    }
}

fn request(interference_class: LocalInterferenceClass) -> LocalInterferenceRequest {
    LocalInterferenceRequest {
        interference_class,
        quiet_compatibility: QuietCompatibility::Conflicting,
    }
}

#[test]
fn coexist_and_yieldable_work_admit_without_current_interference() {
    for class in [
        LocalInterferenceClass::Coexist,
        LocalInterferenceClass::Yieldable,
    ] {
        assert_eq!(
            compile_local_interference_admission(request(class), observation()),
            decision(
                LocalAdmissionDisposition::AdmitNow,
                LocalAdmissionReason::Compatible,
                None,
                false,
                false,
            )
        );
    }
}

#[test]
fn operator_hold_refuses_and_drain_waits() {
    let mut held = observation();
    held.node_control = NodeControlState::Held;
    assert_eq!(
        compile_local_interference_admission(request(LocalInterferenceClass::Coexist), held)
            .disposition,
        LocalAdmissionDisposition::Refuse
    );

    let mut draining = observation();
    draining.node_control = NodeControlState::Draining;
    let decision = compile_local_interference_admission(
        request(LocalInterferenceClass::Coexist),
        draining,
    );
    assert_eq!(decision.disposition, LocalAdmissionDisposition::Wait);
    assert_eq!(decision.reason, LocalAdmissionReason::NodeDraining);
}

#[test]
fn active_quiet_lease_fences_conflicting_or_unknown_new_work() {
    for compatibility in [QuietCompatibility::Conflicting, QuietCompatibility::Unknown] {
        let mut observed = observation();
        observed.quiet_lease = Some(QuietLeaseObservation {
            generation: 7,
            expires_at_unix_millis: 2_000,
        });
        let candidate = LocalInterferenceRequest {
            interference_class: LocalInterferenceClass::Coexist,
            quiet_compatibility: compatibility,
        };
        let result = compile_local_interference_admission(candidate, observed);
        assert_eq!(result.disposition, LocalAdmissionDisposition::Wait);
        assert_eq!(result.active_quiet_lease_generation, Some(7));
        assert!(!result.authorizes_preemption);
    }
}

#[test]
fn active_quiet_lease_allows_only_locally_proven_compatible_non_measurement_work() {
    let mut observed = observation();
    observed.quiet_lease = Some(QuietLeaseObservation {
        generation: 7,
        expires_at_unix_millis: 2_000,
    });
    let compatible = LocalInterferenceRequest {
        interference_class: LocalInterferenceClass::Coexist,
        quiet_compatibility: QuietCompatibility::Compatible,
    };
    let result = compile_local_interference_admission(compatible, observed);
    assert_eq!(result.disposition, LocalAdmissionDisposition::AdmitNow);
    assert_eq!(result.active_quiet_lease_generation, Some(7));

    let measurement = LocalInterferenceRequest {
        interference_class: LocalInterferenceClass::QuietRequired,
        quiet_compatibility: QuietCompatibility::Compatible,
    };
    let result = compile_local_interference_admission(measurement, observed);
    assert_eq!(result.disposition, LocalAdmissionDisposition::Wait);
    assert_eq!(result.reason, LocalAdmissionReason::QuietLeaseAlreadyActive);
}

#[test]
fn exact_expiry_releases_quiet_fence() {
    let mut observed = observation();
    observed.observed_at_unix_millis = 2_000;
    observed.quiet_lease = Some(QuietLeaseObservation {
        generation: 7,
        expires_at_unix_millis: 2_000,
    });
    let result = compile_local_interference_admission(
        request(LocalInterferenceClass::Coexist),
        observed,
    );
    assert_eq!(result.disposition, LocalAdmissionDisposition::AdmitNow);
    assert_eq!(result.active_quiet_lease_generation, None);
}

#[test]
fn high_pressure_waits_all_work_but_unknown_pressure_only_blocks_new_quiet_window() {
    let mut high = observation();
    high.pressure = LocalPressureClass::High;
    assert_eq!(
        compile_local_interference_admission(
            request(LocalInterferenceClass::Yieldable),
            high,
        )
        .reason,
        LocalAdmissionReason::PressureHigh
    );

    let mut unknown = observation();
    unknown.pressure = LocalPressureClass::Unknown;
    assert_eq!(
        compile_local_interference_admission(
            request(LocalInterferenceClass::Coexist),
            unknown,
        )
        .disposition,
        LocalAdmissionDisposition::AdmitNow
    );
    assert_eq!(
        compile_local_interference_admission(
            request(LocalInterferenceClass::QuietRequired),
            unknown,
        )
        .reason,
        LocalAdmissionReason::PressureUnknownForQuietWindow
    );
}

#[test]
fn quiet_window_waits_for_conflicting_active_work_then_requests_lease_when_clear() {
    let mut non_yieldable = observation();
    non_yieldable.active.conflicting_non_yieldable = 1;
    assert_eq!(
        compile_local_interference_admission(
            request(LocalInterferenceClass::QuietRequired),
            non_yieldable,
        )
        .reason,
        LocalAdmissionReason::NonYieldableWorkActive
    );

    let mut yieldable = observation();
    yieldable.active.conflicting_yieldable = 3;
    let wait = compile_local_interference_admission(
        request(LocalInterferenceClass::QuietRequired),
        yieldable,
    );
    assert_eq!(wait.reason, LocalAdmissionReason::YieldableWorkMustDrain);
    assert!(wait.requires_yieldable_drain);
    assert!(!wait.authorizes_preemption);

    let clear = compile_local_interference_admission(
        request(LocalInterferenceClass::QuietRequired),
        observation(),
    );
    assert_eq!(clear.disposition, LocalAdmissionDisposition::AdmitNow);
    assert!(clear.requires_new_quiet_lease);
    assert!(!clear.grants_authority);
    assert!(!clear.authorizes_execution);
}

#[test]
fn decision_is_deterministic_for_same_observation() {
    let request = request(LocalInterferenceClass::QuietRequired);
    let observed = observation();
    assert_eq!(
        compile_local_interference_admission(request, observed),
        compile_local_interference_admission(request, observed)
    );
}

#[test]
fn no_decision_carries_authority() {
    for class in [
        LocalInterferenceClass::Coexist,
        LocalInterferenceClass::Yieldable,
        LocalInterferenceClass::QuietRequired,
    ] {
        for control in [
            NodeControlState::Available,
            NodeControlState::Draining,
            NodeControlState::Held,
        ] {
            let mut observed = observation();
            observed.node_control = control;
            let decided = compile_local_interference_admission(request(class), observed);
            assert!(!decided.grants_authority);
            assert!(!decided.authorizes_preemption);
            assert!(!decided.authorizes_execution);
        }
    }
}

#[test]
fn a_quiet_window_is_leased_only_on_a_clear_node() {
    let mut busy = observation();
    busy.active.conflicting_yieldable = 1;
    let waiting = compile_local_interference_admission(
        request(LocalInterferenceClass::QuietRequired),
        busy,
    );
    assert_eq!(
        waiting,
        decision(
            LocalAdmissionDisposition::Wait,
            LocalAdmissionReason::YieldableWorkMustDrain,
            None,
            false,
            true,
        )
    );
}
