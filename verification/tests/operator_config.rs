//! Operator configuration: its documents, its identity, and what it shows.
use glaeda::mac_availability::AvailabilityRequest;
use glaeda::operator_config::{
    GuestWorkspacePath, OperatorConfig, OperatorConfigDocument, OperatorConfigError,
    OperatorConfigGeneration, OperatorIdlePolicy, OperatorOutputPreference,
    OperatorRemediationPreference, PersonalWorkerStateRoot, GLAEDA_OPERATOR_CONFIG_SCHEMA_VERSION,
    MAX_OPERATOR_CONFIG_DOCUMENT_BYTES, MAX_OPERATOR_CONFIG_PATH_BYTES, MAX_OPERATOR_IDLE_MILLIS,
    PERSONAL_WORKER_INTERACTIVE_COOLDOWN_MILLIS, PERSONAL_WORKER_STOPPED_COOLDOWN_MILLIS,
    SMOLRUNNER_OPERATOR_CONFIG_SCHEMA_VERSION,
};
use glaeda::operator_names::{LimaInstanceName, VerificationProfileId};

/// The document that bytes hold, read strictly: every field once, none unknown.
fn parsed(bytes: &[u8]) -> Option<OperatorConfigDocument> {
    let value: serde_json::Value = serde_json::from_slice(bytes).ok()?;
    let object = value.as_object()?;
    for name in object.keys() {
        let known = matches!(
            name.as_str(),
            "schema_version"
                | "identity_generation"
                | "state_root"
                | "lima_instance"
                | "guest_workspace"
                | "default_verification_profile"
                | "availability"
                | "idle_policy"
                | "output_preference"
                | "remediation_preference"
        );
        if !known {
            return None;
        }
    }
    let text = |name: &str| Some(object.get(name)?.as_str()?.to_owned());
    let idle = object.get("idle_policy")?.as_object()?;
    Some(OperatorConfigDocument {
        schema_version: u8::try_from(object.get("schema_version")?.as_u64()?).ok()?,
        identity_generation: match object.get("identity_generation") {
            None => None,
            Some(value) => Some(match value.as_str()? {
                "smolrunner_v1" => OperatorConfigGeneration::SmolrunnerV1,
                "glaeda_v2" => OperatorConfigGeneration::GlaedaV2,
                _ => return None,
            }),
        },
        state_root: text("state_root")?,
        lima_instance: text("lima_instance")?,
        guest_workspace: text("guest_workspace")?,
        default_verification_profile: text("default_verification_profile")?,
        availability: match text("availability")?.as_str() {
            "active" => AvailabilityRequest::Active,
            "away" => AvailabilityRequest::Away,
            "off" => AvailabilityRequest::Off,
            "auto" => AvailabilityRequest::Auto,
            _ => return None,
        },
        interactive_after_millis: idle.get("interactive_after_millis")?.as_u64()?,
        stopped_after_millis: idle.get("stopped_after_millis")?.as_u64()?,
        output_preference: match text("output_preference")?.as_str() {
            "human" => OperatorOutputPreference::Human,
            "json" => OperatorOutputPreference::Json,
            _ => return None,
        },
        remediation_preference: match text("remediation_preference")?.as_str() {
            "include_suggestions" => OperatorRemediationPreference::IncludeSuggestions,
            "codes_only" => OperatorRemediationPreference::CodesOnly,
            _ => return None,
        },
    })
}

fn decode(bytes: &[u8]) -> Result<OperatorConfig, OperatorConfigError> {
    OperatorConfig::decode_persisted_json(bytes, &parsed(bytes))
}

fn state_root(value: &str) -> PersonalWorkerStateRoot {
    PersonalWorkerStateRoot::parse(value).expect("state root")
}

fn workspace(value: &str) -> GuestWorkspacePath {
    GuestWorkspacePath::parse(value).expect("workspace")
}

fn instance(value: &str) -> LimaInstanceName {
    LimaInstanceName::parse(value).expect("instance")
}

fn profile(value: &str) -> VerificationProfileId {
    VerificationProfileId::parse(value).expect("profile")
}

fn alpha_idle_policy() -> OperatorIdlePolicy {
    OperatorIdlePolicy::new(
        PERSONAL_WORKER_INTERACTIVE_COOLDOWN_MILLIS,
        PERSONAL_WORKER_STOPPED_COOLDOWN_MILLIS,
    )
    .expect("idle policy")
}

#[allow(clippy::too_many_arguments)]
fn config_with_generation(
    generation: OperatorConfigGeneration,
    state_root_value: &str,
    instance_value: &str,
    workspace_value: &str,
    profile_value: &str,
    availability: AvailabilityRequest,
    idle_policy: OperatorIdlePolicy,
    output: OperatorOutputPreference,
    remediation: OperatorRemediationPreference,
) -> OperatorConfig {
    OperatorConfig::new_for_generation(
        generation,
        state_root(state_root_value),
        instance(instance_value),
        workspace(workspace_value),
        profile(profile_value),
        availability,
        idle_policy,
        output,
        remediation,
    )
    .expect("config")
}

#[allow(clippy::too_many_arguments)]
fn config_with(
    state_root_value: &str,
    instance_value: &str,
    workspace_value: &str,
    profile_value: &str,
    availability: AvailabilityRequest,
    idle_policy: OperatorIdlePolicy,
    output: OperatorOutputPreference,
    remediation: OperatorRemediationPreference,
) -> OperatorConfig {
    config_with_generation(
        OperatorConfigGeneration::SmolrunnerV1,
        state_root_value,
        instance_value,
        workspace_value,
        profile_value,
        availability,
        idle_policy,
        output,
        remediation,
    )
}

fn config() -> OperatorConfig {
    config_with(
        "/Users/private-user/Library/Application Support/smolrunner",
        "smolrunner",
        "/home/lima/smolrunner",
        "smolrunner.required",
        AvailabilityRequest::Active,
        alpha_idle_policy(),
        OperatorOutputPreference::Human,
        OperatorRemediationPreference::IncludeSuggestions,
    )
}

#[test]
fn smolrunner_v1_golden_bytes_and_identity_remain_exact() {
    let config = config();
    assert_eq!(config.generation(), OperatorConfigGeneration::SmolrunnerV1);
    assert_eq!(
        config.schema_version(),
        SMOLRUNNER_OPERATOR_CONFIG_SCHEMA_VERSION
    );
    assert_eq!(
        config.identity().generation(),
        OperatorConfigGeneration::SmolrunnerV1
    );
    assert_eq!(
        config.identity().digest().as_str(),
        "sha256:30d72dad2563fe9fec9499b9f9e09e9785dc0668695f7454f645d98c9b8373fd"
    );
    assert_eq!(
        String::from_utf8(config.encode_persisted_json().expect("v1 bytes")).expect("UTF-8"),
        r#"{"schema_version":1,"state_root":"/Users/private-user/Library/Application Support/smolrunner","lima_instance":"smolrunner","guest_workspace":"/home/lima/smolrunner","default_verification_profile":"smolrunner.required","availability":"active","idle_policy":{"interactive_after_millis":600000,"stopped_after_millis":1800000},"output_preference":"human","remediation_preference":"include_suggestions"}"#,
    );
}

#[test]
fn glaeda_v2_same_semantics_is_distinct_deterministic_and_canonical() {
    let first = config_with_generation(
        OperatorConfigGeneration::GlaedaV2,
        "/Users/private-user/Library/Application Support/smolrunner",
        "smolrunner",
        "/home/lima/smolrunner",
        "smolrunner.required",
        AvailabilityRequest::Active,
        alpha_idle_policy(),
        OperatorOutputPreference::Human,
        OperatorRemediationPreference::IncludeSuggestions,
    );
    let second = config_with_generation(
        OperatorConfigGeneration::GlaedaV2,
        "/Users/private-user/Library/Application Support/smolrunner",
        "smolrunner",
        "/home/lima/smolrunner",
        "smolrunner.required",
        AvailabilityRequest::Active,
        alpha_idle_policy(),
        OperatorOutputPreference::Human,
        OperatorRemediationPreference::IncludeSuggestions,
    );
    assert!(first == second);
    assert_eq!(first.generation(), OperatorConfigGeneration::GlaedaV2);
    assert_eq!(
        first.schema_version(),
        GLAEDA_OPERATOR_CONFIG_SCHEMA_VERSION
    );
    assert_eq!(
        first.identity().generation(),
        OperatorConfigGeneration::GlaedaV2
    );
    assert_eq!(
        first.identity().digest().as_str(),
        "sha256:cc3c6a7938755114268b3e7ef62f2f1ebcb11ab04b2f385b30672139f7802970"
    );
    assert_ne!(first.identity(), config().identity());
    let encoded = first.encode_persisted_json().expect("v2 bytes");
    assert_eq!(
        String::from_utf8(encoded.clone()).expect("UTF-8"),
        r#"{"schema_version":2,"identity_generation":"glaeda_v2","state_root":"/Users/private-user/Library/Application Support/smolrunner","lima_instance":"smolrunner","guest_workspace":"/home/lima/smolrunner","default_verification_profile":"smolrunner.required","availability":"active","idle_policy":{"interactive_after_millis":600000,"stopped_after_millis":1800000},"output_preference":"human","remediation_preference":"include_suggestions"}"#,
    );
    let decoded = decode(&encoded).expect("v2 decode");
    assert!(decoded == first);
    assert_eq!(
        decoded.encode_persisted_json().expect("v2 re-encode"),
        encoded
    );
}

#[test]
fn mixed_and_unsupported_generation_documents_fail_closed() {
    let v1 = config().encode_persisted_json().expect("v1 bytes");
    let v2 = config_with_generation(
        OperatorConfigGeneration::GlaedaV2,
        "/Users/private-user/Library/Application Support/smolrunner",
        "smolrunner",
        "/home/lima/smolrunner",
        "smolrunner.required",
        AvailabilityRequest::Active,
        alpha_idle_policy(),
        OperatorOutputPreference::Human,
        OperatorRemediationPreference::IncludeSuggestions,
    )
    .encode_persisted_json()
    .expect("v2 bytes");

    let mut value: serde_json::Value = serde_json::from_slice(&v1).expect("v1 document");
    value["identity_generation"] = serde_json::Value::from("smolrunner_v1");
    let error = decode(
        &serde_json::to_vec(&value).expect("marked v1 document"),
    )
    .err()
    .expect("v1 marker is forbidden");
    assert_eq!(error.code, "generation_schema_mismatch");

    let mut value: serde_json::Value = serde_json::from_slice(&v2).expect("v2 document");
    value["schema_version"] = serde_json::Value::from(1);
    let error = decode(
        &serde_json::to_vec(&value).expect("v2 with v1 schema"),
    )
    .err()
    .expect("mixed version");
    assert_eq!(error.code, "generation_schema_mismatch");

    let mut value: serde_json::Value = serde_json::from_slice(&v2).expect("v2 document");
    value["identity_generation"] = serde_json::Value::from("smolrunner_v1");
    let error = decode(
        &serde_json::to_vec(&value).expect("v2 with v1 generation"),
    )
    .err()
    .expect("mixed generation");
    assert_eq!(error.code, "generation_schema_mismatch");

    let mut value: serde_json::Value = serde_json::from_slice(&v2).expect("v2 document");
    value
        .as_object_mut()
        .expect("object")
        .remove("identity_generation");
    let error = decode(
        &serde_json::to_vec(&value).expect("v2 without marker"),
    )
    .err()
    .expect("missing v2 marker");
    assert_eq!(error.code, "generation_schema_mismatch");

    let mut value: serde_json::Value = serde_json::from_slice(&v1).expect("v1 document");
    value["schema_version"] = serde_json::Value::from(3);
    let error = decode(
        &serde_json::to_vec(&value).expect("unsupported version"),
    )
    .err()
    .expect("unsupported version");
    assert_eq!(error.code, "unsupported_schema_version");
}

#[test]
fn strict_persisted_round_trip_preserves_identity() {
    let original = config();
    let encoded = original.encode_persisted_json().expect("encode");
    let decoded = decode(&encoded).expect("decode");
    assert!(decoded == original);
    assert_eq!(decoded.identity(), original.identity());
    assert!(decoded.idle_policy().matches_alpha_policy());
}

#[test]
fn strict_decode_refuses_unknown_field_and_version() {
    let mut value: serde_json::Value =
        serde_json::from_slice(&config().encode_persisted_json().expect("encode"))
            .expect("document");
    value["unknown"] = serde_json::Value::from(true);
    let error = decode(
        &serde_json::to_vec(&value).expect("unknown field document"),
    )
    .err()
    .expect("unknown field");
    assert_eq!(error.code, "invalid_document");

    value.as_object_mut().expect("object").remove("unknown");
    value["schema_version"] = serde_json::Value::from(3);
    let error = decode(
        &serde_json::to_vec(&value).expect("unknown version document"),
    )
    .err()
    .expect("unknown version");
    assert_eq!(error.code, "unsupported_schema_version");
}

#[test]
fn private_paths_fail_closed() {
    for value in [
        "relative/path",
        "/",
        "/tmp//worker",
        "/tmp/./worker",
        "/tmp/../worker",
        "/tmp/worker/",
        "/tmp/worker\nsecret",
    ] {
        assert!(PersonalWorkerStateRoot::parse(value).is_err(), "{value}");
        assert!(GuestWorkspacePath::parse(value).is_err(), "{value}");
    }
    let oversized = format!("/{}", "a".repeat(MAX_OPERATOR_CONFIG_PATH_BYTES));
    assert!(PersonalWorkerStateRoot::parse(&oversized).is_err());
}

#[test]
fn delegated_identity_parsers_fail_closed() {
    let mut document: serde_json::Value =
        serde_json::from_slice(&config().encode_persisted_json().expect("encode"))
            .expect("document");
    document["lima_instance"] = serde_json::Value::from("--unsafe");
    let error = decode(
        &serde_json::to_vec(&document).expect("invalid instance document"),
    )
    .err()
    .expect("invalid instance");
    assert_eq!(error.code, "invalid_lima_instance");

    document["lima_instance"] = serde_json::Value::from("smolrunner");
    document["default_verification_profile"] = serde_json::Value::from("../unsafe");
    let error = decode(
        &serde_json::to_vec(&document).expect("invalid profile document"),
    )
    .err()
    .expect("invalid profile");
    assert_eq!(error.code, "invalid_verification_profile");
}

#[test]
fn idle_policy_refuses_zero_reversed_and_excessive_values() {
    assert!(OperatorIdlePolicy::new(0, 1).is_err());
    assert!(OperatorIdlePolicy::new(1, 1).is_err());
    assert!(OperatorIdlePolicy::new(2, 1).is_err());
    assert!(OperatorIdlePolicy::new(1, MAX_OPERATOR_IDLE_MILLIS + 1).is_err());
}

#[test]
fn every_closed_preference_round_trips() {
    for availability in [
        AvailabilityRequest::Active,
        AvailabilityRequest::Away,
        AvailabilityRequest::Off,
        AvailabilityRequest::Auto,
    ] {
        for output in [
            OperatorOutputPreference::Human,
            OperatorOutputPreference::Json,
        ] {
            for remediation in [
                OperatorRemediationPreference::IncludeSuggestions,
                OperatorRemediationPreference::CodesOnly,
            ] {
                let original = config_with(
                    "/private/state",
                    "smolrunner",
                    "/home/lima/workspace",
                    "smolrunner.required",
                    availability,
                    alpha_idle_policy(),
                    output,
                    remediation,
                );
                let decoded = decode(
                    &original.encode_persisted_json().expect("encode"),
                )
                .expect("decode");
                assert!(decoded == original);
            }
        }
    }
}

#[test]
fn identity_changes_for_every_semantic_field() {
    let baseline = config();
    let alternatives = [
        config_with(
            "/Users/other/state",
            "smolrunner",
            "/home/lima/smolrunner",
            "smolrunner.required",
            AvailabilityRequest::Active,
            alpha_idle_policy(),
            OperatorOutputPreference::Human,
            OperatorRemediationPreference::IncludeSuggestions,
        ),
        config_with(
            "/Users/private-user/Library/Application Support/smolrunner",
            "other-instance",
            "/home/lima/smolrunner",
            "smolrunner.required",
            AvailabilityRequest::Active,
            alpha_idle_policy(),
            OperatorOutputPreference::Human,
            OperatorRemediationPreference::IncludeSuggestions,
        ),
        config_with(
            "/Users/private-user/Library/Application Support/smolrunner",
            "smolrunner",
            "/home/lima/other",
            "smolrunner.required",
            AvailabilityRequest::Active,
            alpha_idle_policy(),
            OperatorOutputPreference::Human,
            OperatorRemediationPreference::IncludeSuggestions,
        ),
        config_with(
            "/Users/private-user/Library/Application Support/smolrunner",
            "smolrunner",
            "/home/lima/smolrunner",
            "smolrunner.doctor",
            AvailabilityRequest::Active,
            alpha_idle_policy(),
            OperatorOutputPreference::Human,
            OperatorRemediationPreference::IncludeSuggestions,
        ),
        config_with(
            "/Users/private-user/Library/Application Support/smolrunner",
            "smolrunner",
            "/home/lima/smolrunner",
            "smolrunner.required",
            AvailabilityRequest::Away,
            alpha_idle_policy(),
            OperatorOutputPreference::Human,
            OperatorRemediationPreference::IncludeSuggestions,
        ),
        config_with(
            "/Users/private-user/Library/Application Support/smolrunner",
            "smolrunner",
            "/home/lima/smolrunner",
            "smolrunner.required",
            AvailabilityRequest::Active,
            OperatorIdlePolicy::new(1_000, 2_000).expect("alternative idle policy"),
            OperatorOutputPreference::Human,
            OperatorRemediationPreference::IncludeSuggestions,
        ),
        config_with(
            "/Users/private-user/Library/Application Support/smolrunner",
            "smolrunner",
            "/home/lima/smolrunner",
            "smolrunner.required",
            AvailabilityRequest::Active,
            alpha_idle_policy(),
            OperatorOutputPreference::Json,
            OperatorRemediationPreference::IncludeSuggestions,
        ),
        config_with(
            "/Users/private-user/Library/Application Support/smolrunner",
            "smolrunner",
            "/home/lima/smolrunner",
            "smolrunner.required",
            AvailabilityRequest::Active,
            alpha_idle_policy(),
            OperatorOutputPreference::Human,
            OperatorRemediationPreference::CodesOnly,
        ),
    ];
    for alternative in alternatives {
        assert_ne!(alternative.identity(), baseline.identity());
    }
}

#[test]
fn public_serialisation_and_debug_redact_private_paths() {
    let config = config();
    let state_sentinel = config.state_root().as_path();
    let workspace_sentinel = config.guest_workspace().as_path();

    let summary = format!("{:?}", config.public_summary());
    let shown = format!(
        "{} {}",
        config.state_root().redacted(),
        config.guest_workspace().redacted()
    );
    for public in [&summary, &shown] {
        assert!(!public.contains(state_sentinel));
        assert!(!public.contains(workspace_sentinel));
    }
    assert!(shown.contains("<private-personal-worker-state-root>"));
    assert!(shown.contains("<private-guest-workspace-path>"));

    let persisted = String::from_utf8(config.encode_persisted_json().expect("persisted JSON"))
        .expect("UTF-8");
    assert!(persisted.contains(state_sentinel));
    assert!(persisted.contains(workspace_sentinel));
}

#[test]
fn oversized_documents_are_refused_before_they_are_read() {
    let bytes = vec![b' '; MAX_OPERATOR_CONFIG_DOCUMENT_BYTES + 1];
    let error = decode(&bytes).err().expect("oversized document");
    assert_eq!(error.code, "document_too_large");
}

#[test]
fn paths_with_quotes_and_controls_are_escaped_or_refused() {
    let quoted = config_with(
        "/private/a \"quoted\" \\ name",
        "smolrunner",
        "/home/lima/workspace",
        "smolrunner.required",
        AvailabilityRequest::Off,
        alpha_idle_policy(),
        OperatorOutputPreference::Json,
        OperatorRemediationPreference::CodesOnly,
    );
    let encoded = quoted.encode_persisted_json().expect("encode");
    assert!(decode(&encoded).expect("decode") == quoted);
}

#[test]
fn the_longest_paths_fit_and_read_back() {
    let longest = format!("/{}", "\"".repeat(MAX_OPERATOR_CONFIG_PATH_BYTES - 1));
    for generation in [
        OperatorConfigGeneration::SmolrunnerV1,
        OperatorConfigGeneration::GlaedaV2,
    ] {
        let config = config_with_generation(
            generation,
            &longest,
            "smolrunner",
            &longest,
            "smolrunner.required",
            AvailabilityRequest::Auto,
            OperatorIdlePolicy::new(1, MAX_OPERATOR_IDLE_MILLIS).expect("policy"),
            OperatorOutputPreference::Json,
            OperatorRemediationPreference::IncludeSuggestions,
        );
        let encoded = config.encode_persisted_json().expect("encode");
        assert!(encoded.len() > 4 * MAX_OPERATOR_CONFIG_PATH_BYTES - 4);
        assert!(decode(&encoded).expect("decode") == config);
    }
}

#[test]
fn written_documents_are_read_from_their_bytes_alone() {
    for generation in [
        OperatorConfigGeneration::SmolrunnerV1,
        OperatorConfigGeneration::GlaedaV2,
    ] {
        let written = config_with_generation(
            generation,
            "/private/a \"quoted\" \\ näme",
            "smolrunner",
            "/home/lima/workspace",
            "smolrunner.required",
            AvailabilityRequest::Away,
            OperatorIdlePolicy::new(1, MAX_OPERATOR_IDLE_MILLIS).expect("policy"),
            OperatorOutputPreference::Json,
            OperatorRemediationPreference::CodesOnly,
        );
        let bytes = written.encode_persisted_json().expect("encode");
        let read = OperatorConfig::read_written_json(&bytes).expect("written bytes");
        assert!(read == written);
        assert_eq!(
            read.identity().digest().as_str(),
            written.identity().digest().as_str()
        );
        assert_eq!(read.encode_persisted_json().expect("encode"), bytes);
        assert!(OperatorConfig::decode_persisted_json(&bytes, &None).expect("decode") == written);
    }
}

#[test]
fn any_other_spelling_is_left_to_the_parsed_document() {
    let written = config();
    let bytes = written.encode_persisted_json().expect("encode");
    let text = String::from_utf8(bytes).expect("text");
    let spaced = text.replacen(':', ": ", 1).into_bytes();
    let doubled = text
        .replacen('{', "{\"schema_version\":1,", 1)
        .into_bytes();
    let escaped = text.replacen("smolrunner\"", "smolr\\u0075nner\"", 1).into_bytes();
    let unknown = text.replacen('{', "{\"another\":1,", 1).into_bytes();
    let misspelled = text.replacen("active", "activ", 1).into_bytes();
    for other in [&spaced, &doubled, &escaped, &unknown, &misspelled] {
        assert!(OperatorConfig::read_written_json(other).is_none());
        let error = OperatorConfig::decode_persisted_json(other, &None)
            .err()
            .expect("nothing was parsed");
        assert_eq!(error.code, "invalid_document");
    }
    assert!(decode(&spaced).expect("decode") == written);
    assert!(decode(&escaped).expect("decode") == written);
    for none in [&b""[..], &b"[]"[..], &b"null"[..], &b"\xff"[..]] {
        assert!(OperatorConfig::read_written_json(none).is_none());
    }
}
