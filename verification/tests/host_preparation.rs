//! Host preparation: what is executed, and how the command exits.
use glaeda::host_preparation::{
    classify_host_prepare_actions, doctor_exit, exit_after_report, host_prepare_journal_id,
    host_prepare_step, run_host_prepare, CommandExit, ExecutableHostPreparationAction, ExecutionLane,
    HostPreparationCommandDisposition, HostPreparationExecutionDisposition, HostPrepareEnd,
    HostPreparePhaseKind, HostPrepareRun, HostPrepareStage, InstallationReading, LaneCommandKind, RollbackClass,
    RunnerUserReading,
};

fn phase_action(
    lane: ExecutionLane,
    command_kind: LaneCommandKind,
) -> ExecutableHostPreparationAction {
    ExecutableHostPreparationAction {
        id: "test-action".to_owned(),
        lane,
        command_kind,
        rollback: RollbackClass::Irreversible,
        summary: "test action".to_owned(),
        depends_on: Vec::new(),
    }
}

#[test]
fn host_prepare_phase_classification_is_narrow() {
    assert_eq!(
        classify_host_prepare_actions(&[phase_action(
            ExecutionLane::Root,
            LaneCommandKind::AptInstall,
        )]),
        Ok(HostPreparePhaseKind::Root)
    );
    assert_eq!(
        classify_host_prepare_actions(&[phase_action(
            ExecutionLane::RunnerUser,
            LaneCommandKind::RunnerPodmanMigrate,
        )]),
        Ok(HostPreparePhaseKind::RunnerUserMigration)
    );
    assert!(classify_host_prepare_actions(&[phase_action(
        ExecutionLane::RunnerUser,
        LaneCommandKind::RunnerGitVersion,
    )])
    .is_err());
    assert!(classify_host_prepare_actions(&[
        phase_action(ExecutionLane::Root, LaneCommandKind::AptInstall),
        phase_action(
            ExecutionLane::RunnerUser,
            LaneCommandKind::RunnerPodmanMigrate,
        ),
    ])
    .is_err());
    assert!(classify_host_prepare_actions(&[]).is_err());
}

/// A confirmed migration in which everything goes well.
fn confirmed() -> HostPrepareRun {
    HostPrepareRun {
        manifest_loaded: true,
        readiness_refused: None,
        decision: Ok(HostPreparationCommandDisposition::Confirmed),
        decision_written: true,
        actions: vec![phase_action(
            ExecutionLane::RunnerUser,
            LaneCommandKind::RunnerPodmanMigrate,
        )],
        announced: true,
        runner_user: RunnerUserReading::Verified,
        installation: InstallationReading::Found("one".to_owned()),
        random: Some((0u8..16).collect()),
        store_refused: None,
        executed: Some(HostPreparationExecutionDisposition::Completed),
        report_written: true,
    }
}

fn refusal(run: &HostPrepareRun) -> (String, String) {
    match run_host_prepare(run) {
        HostPrepareEnd::Refused { kind, message } => (kind.to_owned(), message),
        other => panic!("not refused: {other:?}"),
    }
}

#[test]
fn confirmed_phases_exit_as_their_execution_ends() {
    assert_eq!(
        run_host_prepare(&confirmed()),
        HostPrepareEnd::Executed {
            exit: CommandExit::Success
        }
    );
    for (executed, exit) in [
        (
            HostPreparationExecutionDisposition::FreshObservationRequired,
            CommandExit::Success,
        ),
        (
            HostPreparationExecutionDisposition::ActionFailed,
            CommandExit::Failure,
        ),
    ] {
        let mut run = confirmed();
        run.executed = Some(executed);
        assert_eq!(run_host_prepare(&run).exit(), exit);
    }

    let mut unreported = confirmed();
    unreported.report_written = false;
    assert_eq!(run_host_prepare(&unreported).exit().code(), 2);

    let mut failed = confirmed();
    failed.executed = None;
    assert_eq!(run_host_prepare(&failed), HostPrepareEnd::ExecutionFailed);
    assert_eq!(run_host_prepare(&failed).exit().code(), 2);
}

#[test]
fn unconfirmed_decisions_are_reported_and_execute_nothing() {
    for (decision, exit) in [
        (HostPreparationCommandDisposition::Ready, CommandExit::Success),
        (
            HostPreparationCommandDisposition::Blocked,
            CommandExit::Failure,
        ),
        (
            HostPreparationCommandDisposition::ConfirmationRequired,
            CommandExit::Failure,
        ),
        (
            HostPreparationCommandDisposition::ConfirmationMismatch,
            CommandExit::Failure,
        ),
    ] {
        let mut run = confirmed();
        run.decision = Ok(decision);
        assert_eq!(run_host_prepare(&run), HostPrepareEnd::Decided { exit });
        run.decision_written = false;
        assert_eq!(
            run_host_prepare(&run),
            HostPrepareEnd::Decided {
                exit: CommandExit::Unusable
            }
        );
    }
}

#[test]
fn every_step_that_is_refused_ends_the_preparation() {
    let mut run = confirmed();
    run.store_refused = Some("busy".to_owned());
    assert_eq!(
        refusal(&run),
        (
            "state_store".to_owned(),
            "could not open the reviewed state root: busy".to_owned()
        )
    );
    run.random = None;
    assert_eq!(refusal(&run).0, "journal_id");
    run.installation = InstallationReading::Missing;
    assert_eq!(refusal(&run).0, "installation_missing");
    run.installation = InstallationReading::Failed("unreadable".to_owned());
    assert_eq!(
        refusal(&run),
        (
            "installation_lookup".to_owned(),
            "could not resolve the manifest project installation: unreadable".to_owned()
        )
    );
    run.runner_user = RunnerUserReading::Refused("no such account".to_owned());
    assert_eq!(
        refusal(&run),
        (
            "runner_user_evidence".to_owned(),
            "no such account".to_owned()
        )
    );
    run.runner_user = RunnerUserReading::NotConfigured;
    assert_eq!(
        refusal(&run).1,
        "runner-user migration requires an exact configured runner account"
    );
    run.announced = false;
    assert_eq!(run_host_prepare(&run), HostPrepareEnd::NotAnnounced);
    run.actions = Vec::new();
    assert_eq!(refusal(&run).0, "unsupported_host_preparation_phase");
    run.decision = Err("no plan".to_owned());
    assert_eq!(
        refusal(&run),
        ("host_preparation_decision".to_owned(), "no plan".to_owned())
    );
    run.readiness_refused = Some("no probe".to_owned());
    assert_eq!(
        refusal(&run),
        (
            "host_readiness_probe".to_owned(),
            "failed to inspect host readiness: no probe".to_owned()
        )
    );
    run.manifest_loaded = false;
    assert_eq!(run_host_prepare(&run), HostPrepareEnd::ManifestRefused);
    assert_eq!(run_host_prepare(&run).exit().code(), 2);
}

#[test]
fn root_phases_need_no_runner_user() {
    let mut run = confirmed();
    run.actions = vec![phase_action(
        ExecutionLane::Root,
        LaneCommandKind::AptInstall,
    )];
    run.runner_user = RunnerUserReading::NotConfigured;
    assert_eq!(run_host_prepare(&run).exit(), CommandExit::Success);
}

#[test]
fn journal_ids_spell_sixteen_random_bytes() {
    assert_eq!(
        host_prepare_journal_id(&Some((240u8..=255).collect())),
        Ok("host-prepare-f0f1f2f3f4f5f6f7f8f9fafbfcfdfeff".to_owned())
    );
    assert!(host_prepare_journal_id(&Some(vec![1, 2]))
        .unwrap_err()
        .contains("incomplete"));
    assert!(host_prepare_journal_id(&None)
        .unwrap_err()
        .contains("could not obtain"));
}

#[test]
fn inspections_exit_by_failures_and_strict_warnings() {
    assert_eq!(doctor_exit(true, false, false, true).code(), 0);
    assert_eq!(doctor_exit(true, false, true, false).code(), 0);
    assert_eq!(doctor_exit(true, false, true, true).code(), 1);
    assert_eq!(doctor_exit(true, true, false, false).code(), 1);
    assert_eq!(doctor_exit(false, false, false, false).code(), 2);
    assert_eq!(
        exit_after_report(true, CommandExit::Failure),
        CommandExit::Failure
    );
    assert_eq!(
        exit_after_report(false, CommandExit::Success),
        CommandExit::Unusable
    );
}

#[test]
fn nothing_is_executed_before_it_was_announced() {
    let run = confirmed();
    let mut stage = HostPrepareStage::LoadManifest;
    let mut announced = false;
    let mut executed = false;
    loop {
        match &stage {
            HostPrepareStage::Announce { kind } => {
                assert_eq!(*kind, HostPreparePhaseKind::RunnerUserMigration);
                announced = true;
            }
            HostPrepareStage::Execute {
                kind,
                installation,
                journal,
            } => {
                assert!(announced);
                assert_eq!(*kind, HostPreparePhaseKind::RunnerUserMigration);
                assert_eq!(installation, "one");
                assert_eq!(journal, "host-prepare-000102030405060708090a0b0c0d0e0f");
                executed = true;
            }
            HostPrepareStage::Ended { .. } => break,
            _ => {}
        }
        stage = host_prepare_step(stage, &run);
    }
    assert!(executed);
    assert_eq!(
        stage,
        HostPrepareStage::Ended {
            end: run_host_prepare(&run)
        }
    );
}

#[test]
fn a_stage_that_is_not_answered_ends_the_preparation() {
    let run = HostPrepareRun::unlearned();
    for stage in [
        HostPrepareStage::LoadManifest,
        HostPrepareStage::InspectHost,
        HostPrepareStage::Decide,
        HostPrepareStage::Announce {
            kind: HostPreparePhaseKind::Root,
        },
        HostPrepareStage::VerifyRunnerUser,
        HostPrepareStage::FindInstallation {
            kind: HostPreparePhaseKind::Root,
        },
    ] {
        match host_prepare_step(stage, &run) {
            HostPrepareStage::Ended { end } => assert_eq!(end.exit(), CommandExit::Unusable),
            other => panic!("went on: {other:?}"),
        }
    }
}
