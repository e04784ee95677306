//! Plans, identities and launcher decisions of the local install.
use glaeda::artifact::{CommitId, GitTreeId, Sha256Digest};
use glaeda::local_install_generation_store::generation_text;
use glaeda::local_install_plan::{
    complete_local_install_build, plan_launcher_for_generation, plan_local_install,
    plan_local_install_rollback, BuiltLocalBinaryEvidence, InstalledLocalBinaryGeneration,
    LauncherDirectoryDisposition, LauncherEntryDisposition, LauncherLocationClass,
    LauncherLocationObservation, LauncherSwitchPlan, LocalInstallBuildPlan, LocalInstallDecision,
    LocalInstallGenerationIdentity, LocalInstallIdentityGeneration, LocalInstallPlanErrorKind,
    LocalInstallPlatform, LocalInstallSourceIdentity, LocalInstallState,
    LocalInstallToolchainIdentity, RollbackLauncherRequirement,
};

fn digest(ch: char) -> Sha256Digest {
    Sha256Digest::parse(&format!("sha256:{}", ch.to_string().repeat(64))).expect("digest")
}

fn commit(ch: char) -> CommitId {
    CommitId::parse(&ch.to_string().repeat(40)).expect("commit")
}

fn tree(ch: char) -> GitTreeId {
    GitTreeId::parse(&ch.to_string().repeat(40)).expect("tree")
}

fn source(ch: char) -> LocalInstallSourceIdentity {
    LocalInstallSourceIdentity::new(
        commit(ch),
        tree(ch),
        digest(ch),
        LocalInstallToolchainIdentity::parse("rust-1.97.1-aarch64-apple-darwin")
            .expect("toolchain"),
    )
    .expect("source")
}

fn legacy_source(ch: char) -> LocalInstallSourceIdentity {
    LocalInstallSourceIdentity::with_identity_generation(
        LocalInstallIdentityGeneration::SmolrunnerV1,
        commit(ch),
        tree(ch),
        digest(ch),
        LocalInstallToolchainIdentity::parse("rust-1.97.1-aarch64-apple-darwin")
            .expect("toolchain"),
    )
    .expect("legacy source")
}

fn build_generation(
    plan: &LocalInstallBuildPlan,
    binary: char,
) -> InstalledLocalBinaryGeneration {
    complete_local_install_build(
        plan,
        BuiltLocalBinaryEvidence::new(
            plan.source.digest().clone(),
            plan.expected_predecessor.clone(),
            digest(binary),
            "glaeda 0.1.0",
        )
        .expect("build evidence"),
    )
    .expect("generation")
}

fn launcher(
    location: LauncherLocationClass,
    rank: u16,
    directory: LauncherDirectoryDisposition,
    entry: LauncherEntryDisposition,
) -> LauncherLocationObservation {
    LauncherLocationObservation::new(location, true, Some(rank), directory, entry)
        .expect("launcher")
}

#[test]
fn source_and_generation_identity_are_deterministic() {
    let first_source = source('a');
    let second_source = source('a');
    assert_eq!(first_source, second_source);
    assert_eq!(
        first_source.digest().as_str(),
        "sha256:d3cdbc0c7f38a5899698897e7d703e2dcceb69f9e2a5cef50cb76309e1504093"
    );

    let state = LocalInstallState::new(None, Vec::new()).expect("state");
    let LocalInstallDecision::BuildRequired { plan } =
        plan_local_install(&state, &first_source, LocalInstallPlatform::Macos, &[])
            .expect("plan")
    else {
        panic!("expected build")
    };
    let first = build_generation(&plan, 'b');
    let second = build_generation(&plan, 'b');
    assert_eq!(first, second);
    assert_eq!(first.identity.number, 1);
    assert_eq!(
        first.identity.digest.as_str(),
        "sha256:7a26d60f3a04ea9d12c3ac9b3a8faefdeebc692ed3929030b3cdf31d83d228f3"
    );
    assert_eq!(
        first.source.identity_generation(),
        LocalInstallIdentityGeneration::GlaedaV2
    );
}

#[test]
fn legacy_source_and_installed_generation_vectors_remain_exact() {
    let source = legacy_source('a');
    assert_eq!(
        source.digest().as_str(),
        "sha256:7ae71e7bd75c0b5f8da6a951774c25887b7c740f34435cd3acc1297da547a9b7"
    );
    let plan = LocalInstallBuildPlan {
        target_generation: 1,
        expected_predecessor: None,
        source: source.clone(),
    };
    let installed = complete_local_install_build(
        &plan,
        BuiltLocalBinaryEvidence::new(
            source.digest().clone(),
            None,
            digest('b'),
            "smolrunner 0.1.0",
        )
        .expect("legacy evidence"),
    )
    .expect("legacy generation");

    assert_eq!(
        installed.identity.digest.as_str(),
        "sha256:e508ca7a23235e7ef522ef4c213d54d16c8d6db9b931a902ea7ab237b1d7c331"
    );
    assert_ne!(
        source,
        LocalInstallSourceIdentity::new(
            commit('a'),
            tree('a'),
            digest('a'),
            LocalInstallToolchainIdentity::parse("rust-1.97.1-aarch64-apple-darwin")
                .expect("toolchain"),
        )
        .expect("current source")
    );
}

#[test]
fn source_changes_produce_monotonic_build_plan_and_conflicting_evidence_fails() {
    let initial_source = source('a');
    let state = LocalInstallState::new(None, Vec::new()).expect("state");
    let LocalInstallDecision::BuildRequired { plan } =
        plan_local_install(&state, &initial_source, LocalInstallPlatform::Macos, &[])
            .expect("initial plan")
    else {
        panic!("expected build")
    };
    let installed = build_generation(&plan, 'b');
    let state = LocalInstallState::new(Some(installed.clone()), Vec::new()).expect("state");
    let LocalInstallDecision::BuildRequired { plan } =
        plan_local_install(&state, &source('c'), LocalInstallPlatform::Macos, &[])
            .expect("upgrade plan")
    else {
        panic!("expected upgrade build")
    };
    assert_eq!(plan.target_generation, 2);
    assert_eq!(plan.expected_predecessor, Some(installed.identity.clone()));

    let bad = BuiltLocalBinaryEvidence::new(
        digest('f'),
        plan.expected_predecessor.clone(),
        digest('d'),
        "glaeda 0.1.0",
    )
    .expect("bad evidence");
    assert_eq!(
        complete_local_install_build(&plan, bad)
            .expect_err("source mismatch")
            .kind,
        LocalInstallPlanErrorKind::BuildEvidenceConflict
    );
}

#[test]
fn accepted_source_skips_build_and_safe_launcher_converges() {
    let wanted = source('a');
    let initial = LocalInstallState::new(None, Vec::new()).expect("state");
    let LocalInstallDecision::BuildRequired { plan } =
        plan_local_install(&initial, &wanted, LocalInstallPlatform::Macos, &[]).expect("build")
    else {
        panic!("expected build")
    };
    let installed = build_generation(&plan, 'b');
    let state = LocalInstallState::new(Some(installed.clone()), Vec::new()).expect("state");

    let absent = launcher(
        LauncherLocationClass::HomeLocalBin,
        0,
        LauncherDirectoryDisposition::ReadyUserOwned,
        LauncherEntryDisposition::Absent,
    );
    assert!(matches!(
        plan_local_install(&state, &wanted, LocalInstallPlatform::Macos, &[absent])
            .expect("launcher plan"),
        LocalInstallDecision::SwitchLauncher { .. }
    ));

    let current = launcher(
        LauncherLocationClass::HomeLocalBin,
        0,
        LauncherDirectoryDisposition::ReadyUserOwned,
        LauncherEntryDisposition::Owned {
            generation_digest: installed.identity.digest.clone(),
        },
    );
    assert!(matches!(
        plan_local_install(&state, &wanted, LocalInstallPlatform::Macos, &[current])
            .expect("satisfied"),
        LocalInstallDecision::Satisfied { .. }
    ));
}

#[test]
fn foreign_or_unknown_earliest_launcher_blocks_later_safe_location() {
    let generation = LocalInstallGenerationIdentity {
        number: 1,
        digest: digest('a'),
    };
    let safe_later = launcher(
        LauncherLocationClass::HomeLocalBin,
        1,
        LauncherDirectoryDisposition::ReadyUserOwned,
        LauncherEntryDisposition::Absent,
    );
    for entry in [
        LauncherEntryDisposition::Foreign,
        LauncherEntryDisposition::Unknown,
    ] {
        let first = launcher(
            LauncherLocationClass::HomebrewBin,
            0,
            LauncherDirectoryDisposition::ReadyUserOwned,
            entry,
        );
        let error = plan_launcher_for_generation(
            &generation,
            LocalInstallPlatform::Macos,
            &[first, safe_later.clone()],
        )
        .expect_err("earlier launcher must block");
        assert!(matches!(
            error.kind,
            LocalInstallPlanErrorKind::ForeignLauncher
                | LocalInstallPlanErrorKind::UnknownLauncher
        ));
    }
}

#[test]
fn absent_elevated_slot_can_yield_to_later_user_owned_slot() {
    let generation = LocalInstallGenerationIdentity {
        number: 1,
        digest: digest('a'),
    };
    let elevated_absent = launcher(
        LauncherLocationClass::UsrLocalBin,
        0,
        LauncherDirectoryDisposition::NeedsElevation,
        LauncherEntryDisposition::Absent,
    );
    let user_owned = launcher(
        LauncherLocationClass::HomeLocalBin,
        1,
        LauncherDirectoryDisposition::ReadyUserOwned,
        LauncherEntryDisposition::Absent,
    );
    let decision = plan_launcher_for_generation(
        &generation,
        LocalInstallPlatform::Macos,
        &[elevated_absent, user_owned],
    )
    .expect("later user-owned location");
    assert!(matches!(
        decision,
        LocalInstallDecision::SwitchLauncher {
            plan: LauncherSwitchPlan {
                location: LauncherLocationClass::HomeLocalBin,
                ..
            }
        }
    ));
}

#[test]
fn stale_owned_earlier_launcher_requires_repair_at_that_location() {
    let generation = LocalInstallGenerationIdentity {
        number: 2,
        digest: digest('b'),
    };
    let stale_elevated = launcher(
        LauncherLocationClass::UsrLocalBin,
        0,
        LauncherDirectoryDisposition::NeedsElevation,
        LauncherEntryDisposition::Owned {
            generation_digest: digest('a'),
        },
    );
    let safe_later = launcher(
        LauncherLocationClass::HomeLocalBin,
        1,
        LauncherDirectoryDisposition::ReadyUserOwned,
        LauncherEntryDisposition::Absent,
    );
    let decision = plan_launcher_for_generation(
        &generation,
        LocalInstallPlatform::Macos,
        &[stale_elevated, safe_later],
    )
    .expect("elevation barrier");
    assert!(matches!(
        decision,
        LocalInstallDecision::ElevationRequired {
            location: LauncherLocationClass::UsrLocalBin,
            ..
        }
    ));
}

#[test]
fn no_safe_user_location_falls_back_to_earliest_absent_elevation_candidate() {
    let generation = LocalInstallGenerationIdentity {
        number: 1,
        digest: digest('a'),
    };
    let first = launcher(
        LauncherLocationClass::UsrLocalBin,
        2,
        LauncherDirectoryDisposition::NeedsElevation,
        LauncherEntryDisposition::Absent,
    );
    let second = launcher(
        LauncherLocationClass::HomebrewBin,
        4,
        LauncherDirectoryDisposition::NeedsElevation,
        LauncherEntryDisposition::Absent,
    );
    let decision = plan_launcher_for_generation(
        &generation,
        LocalInstallPlatform::Macos,
        &[second, first],
    )
    .expect("elevation");
    assert!(matches!(
        decision,
        LocalInstallDecision::ElevationRequired {
            location: LauncherLocationClass::UsrLocalBin,
            ..
        }
    ));
}

#[test]
fn unsupported_homebrew_linux_and_duplicate_ranks_fail_closed() {
    let generation = LocalInstallGenerationIdentity {
        number: 1,
        digest: digest('a'),
    };
    let homebrew = launcher(
        LauncherLocationClass::HomebrewBin,
        0,
        LauncherDirectoryDisposition::ReadyUserOwned,
        LauncherEntryDisposition::Absent,
    );
    assert_eq!(
        plan_launcher_for_generation(&generation, LocalInstallPlatform::Linux, &[homebrew])
            .expect_err("Homebrew on Linux")
            .kind,
        LocalInstallPlanErrorKind::UnsupportedLauncherLocation
    );

    let one = launcher(
        LauncherLocationClass::HomeLocalBin,
        0,
        LauncherDirectoryDisposition::ReadyUserOwned,
        LauncherEntryDisposition::Absent,
    );
    let two = launcher(
        LauncherLocationClass::HomeBin,
        0,
        LauncherDirectoryDisposition::ReadyUserOwned,
        LauncherEntryDisposition::Absent,
    );
    assert_eq!(
        plan_launcher_for_generation(&generation, LocalInstallPlatform::Macos, &[one, two])
            .expect_err("duplicate rank")
            .kind,
        LocalInstallPlanErrorKind::DuplicatePathRank
    );
}

#[test]
fn rollback_targets_only_retained_verified_generation_and_uses_same_launcher_rules() {
    let first_source = source('a');
    let empty = LocalInstallState::new(None, Vec::new()).expect("empty");
    let LocalInstallDecision::BuildRequired { plan } =
        plan_local_install(&empty, &first_source, LocalInstallPlatform::Macos, &[])
            .expect("first plan")
    else {
        panic!("expected build")
    };
    let first = build_generation(&plan, 'b');
    let current_state = LocalInstallState::new(Some(first.clone()), Vec::new()).expect("state");
    let LocalInstallDecision::BuildRequired { plan } = plan_local_install(
        &current_state,
        &source('c'),
        LocalInstallPlatform::Macos,
        &[],
    )
    .expect("upgrade") else {
        panic!("expected upgrade")
    };
    let second = build_generation(&plan, 'd');
    let state =
        LocalInstallState::new(Some(second.clone()), vec![first.clone()]).expect("state");
    let stale = launcher(
        LauncherLocationClass::HomeLocalBin,
        0,
        LauncherDirectoryDisposition::ReadyUserOwned,
        LauncherEntryDisposition::Owned {
            generation_digest: second.identity.digest.clone(),
        },
    );
    let rollback = plan_local_install_rollback(
        &state,
        &first.identity,
        LocalInstallPlatform::Macos,
        &[stale],
    )
    .expect("rollback");
    assert_eq!(rollback.from, second.identity);
    assert_eq!(rollback.to, first.identity);
    assert!(matches!(
        rollback.launcher,
        RollbackLauncherRequirement::Switch { .. }
    ));
}

#[test]
fn bounds_overflow_and_privacy_fail_closed() {
    let wanted = source('a');
    let identity = LocalInstallGenerationIdentity {
        number: u64::MAX,
        digest: digest('b'),
    };
    let accepted = InstalledLocalBinaryGeneration {
        identity: identity.clone(),
        predecessor: None,
        source: source('c'),
        binary_digest: digest('d'),
        binary_version: "glaeda 0.1.0".to_owned(),
    };
    let state = LocalInstallState::new(Some(accepted), Vec::new()).expect("state");
    assert_eq!(
        plan_local_install(&state, &wanted, LocalInstallPlatform::Macos, &[])
            .expect_err("generation overflow")
            .kind,
        LocalInstallPlanErrorKind::GenerationExhausted
    );

    let retained = InstalledLocalBinaryGeneration {
        identity: LocalInstallGenerationIdentity {
            number: 1,
            digest: digest('e'),
        },
        predecessor: None,
        source: wanted.clone(),
        binary_digest: digest('f'),
        binary_version: "glaeda 0.1.0".to_owned(),
    };
    assert_eq!(
        LocalInstallState::new(None, vec![retained.clone(), retained])
            .expect_err("retention bound")
            .kind,
        LocalInstallPlanErrorKind::RetainedGenerationLimit
    );

    let public = generation_text(&InstalledLocalBinaryGeneration {
        identity,
        predecessor: None,
        source: wanted,
        binary_digest: digest('d'),
        binary_version: "glaeda 0.1.0".to_owned(),
    });
    for private in [
        "/Users/",
        "/home/",
        "HOME=",
        "CARGO_HOME",
        "RUSTFLAGS",
        "proxy",
        "credential",
    ] {
        assert!(
            !public.contains(private),
            "leaked private marker: {private}"
        );
    }
}

#[test]
fn toolchain_identities_are_bounded_tokens() {
    for refused in ["", "rust/1", "rust 1", &"a".repeat(129)] {
        assert_eq!(
            LocalInstallToolchainIdentity::parse(refused)
                .expect_err("toolchain")
                .kind,
            LocalInstallPlanErrorKind::InvalidToolchain,
            "{refused}"
        );
    }
}

#[test]
fn binary_versions_are_bounded_printable_names() {
    for refused in ["", "glaeda\n0.1.0", &"a".repeat(129)] {
        assert_eq!(
            BuiltLocalBinaryEvidence::new(digest('a'), None, digest('b'), refused)
                .expect_err("version")
                .kind,
            LocalInstallPlanErrorKind::InvalidBinaryVersion,
            "{refused:?}"
        );
    }
}

#[test]
fn states_never_name_a_generation_twice() {
    let plan = LocalInstallBuildPlan {
        target_generation: 1,
        expected_predecessor: None,
        source: source('a'),
    };
    assert_eq!(
        LocalInstallState::new(
            Some(build_generation(&plan, 'b')),
            vec![build_generation(&plan, 'b')]
        )
        .expect_err("duplicate")
        .kind,
        LocalInstallPlanErrorKind::DuplicateGenerationIdentity
    );
}

#[test]
fn launcher_evidence_is_bounded_and_consistent() {
    assert_eq!(
        LauncherLocationObservation::new(
            LauncherLocationClass::HomeBin,
            true,
            None,
            LauncherDirectoryDisposition::ReadyUserOwned,
            LauncherEntryDisposition::Absent,
        )
        .expect_err("rank")
        .kind,
        LocalInstallPlanErrorKind::InvalidLauncherObservation
    );
    let generation = LocalInstallGenerationIdentity {
        number: 1,
        digest: digest('a'),
    };
    let twice = [
        launcher(
            LauncherLocationClass::HomeBin,
            0,
            LauncherDirectoryDisposition::ReadyUserOwned,
            LauncherEntryDisposition::Absent,
        ),
        launcher(
            LauncherLocationClass::HomeBin,
            1,
            LauncherDirectoryDisposition::ReadyUserOwned,
            LauncherEntryDisposition::Absent,
        ),
    ];
    assert_eq!(
        plan_launcher_for_generation(&generation, LocalInstallPlatform::Macos, &twice)
            .expect_err("location twice")
            .kind,
        LocalInstallPlanErrorKind::DuplicateLauncherLocation
    );
    let mut many = Vec::new();
    for rank in 0..9_u16 {
        many.push(launcher(
            LauncherLocationClass::HomeBin,
            rank,
            LauncherDirectoryDisposition::ReadyUserOwned,
            LauncherEntryDisposition::Absent,
        ));
    }
    assert_eq!(
        plan_launcher_for_generation(&generation, LocalInstallPlatform::Macos, &many)
            .expect_err("too many")
            .kind,
        LocalInstallPlanErrorKind::TooManyLauncherObservations
    );
    assert_eq!(
        plan_launcher_for_generation(&generation, LocalInstallPlatform::Macos, &[])
            .expect_err("none")
            .kind,
        LocalInstallPlanErrorKind::NoApprovedLauncherLocation
    );
    let unsafe_first = launcher(
        LauncherLocationClass::HomeBin,
        0,
        LauncherDirectoryDisposition::Unsafe,
        LauncherEntryDisposition::Owned {
            generation_digest: digest('a'),
        },
    );
    assert_eq!(
        plan_launcher_for_generation(&generation, LocalInstallPlatform::Macos, &[unsafe_first])
            .expect_err("unsafe")
            .kind,
        LocalInstallPlanErrorKind::UnsafeLauncherLocation
    );
}

#[test]
fn rollbacks_need_an_accepted_and_a_retained_generation() {
    let empty = LocalInstallState::new(None, Vec::new()).expect("empty");
    let target = LocalInstallGenerationIdentity {
        number: 1,
        digest: digest('a'),
    };
    assert_eq!(
        plan_local_install_rollback(&empty, &target, LocalInstallPlatform::Macos, &[])
            .expect_err("no accepted generation")
            .kind,
        LocalInstallPlanErrorKind::MissingAcceptedGeneration
    );
    let plan = LocalInstallBuildPlan {
        target_generation: 1,
        expected_predecessor: None,
        source: source('a'),
    };
    let state = LocalInstallState::new(Some(build_generation(&plan, 'b')), Vec::new())
        .expect("state");
    assert_eq!(
        plan_local_install_rollback(&state, &target, LocalInstallPlatform::Macos, &[])
            .expect_err("nothing retained")
            .kind,
        LocalInstallPlanErrorKind::RollbackTargetUnavailable
    );
}

#[test]
fn the_order_of_observations_does_not_matter() {
    let generation = LocalInstallGenerationIdentity {
        number: 1,
        digest: digest('a'),
    };
    let first = launcher(
        LauncherLocationClass::HomebrewBin,
        0,
        LauncherDirectoryDisposition::NeedsElevation,
        LauncherEntryDisposition::Absent,
    );
    let second = launcher(
        LauncherLocationClass::HomeLocalBin,
        1,
        LauncherDirectoryDisposition::ReadyUserOwned,
        LauncherEntryDisposition::Absent,
    );
    assert_eq!(
        plan_launcher_for_generation(
            &generation,
            LocalInstallPlatform::Macos,
            &[first.clone(), second.clone()],
        ),
        plan_launcher_for_generation(
            &generation,
            LocalInstallPlatform::Macos,
            &[second, first],
        )
    );
}
