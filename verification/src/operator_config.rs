//! Operator configuration: validated private values and their canonical
//! persisted document and identity.
use vstd::prelude::*;

use crate::artifact;
use crate::artifact::Sha256Digest;
use crate::canonical_json;
use crate::canonical_json::{Json, ObjectReader, ObjectWriter};
use crate::mac_availability::AvailabilityRequest;
use crate::operator_names;
use crate::operator_names::{LimaInstanceName, VerificationProfileId};
use crate::outcome;
use crate::paths;
use crate::scan;
use crate::text;

verus! {

pub const SMOLRUNNER_OPERATOR_CONFIG_SCHEMA_VERSION: u8 = 1;

pub const GLAEDA_OPERATOR_CONFIG_SCHEMA_VERSION: u8 = 2;

pub const OPERATOR_CONFIG_SCHEMA_VERSION: u8 = 1;

pub const MAX_OPERATOR_CONFIG_PATH_BYTES: usize = 1_024;

pub const MAX_OPERATOR_CONFIG_DOCUMENT_BYTES: usize = 16_384;

pub const MAX_OPERATOR_IDLE_MILLIS: u64 = 604_800_000;

pub const PERSONAL_WORKER_INTERACTIVE_COOLDOWN_MILLIS: u64 = 600_000;

pub const PERSONAL_WORKER_STOPPED_COOLDOWN_MILLIS: u64 = 1_800_000;

#[derive(Debug, Clone, Copy, PartialEq, Eq, Structural)]
pub enum OperatorConfigGeneration {
    SmolrunnerV1,
    GlaedaV2,
}

pub open spec fn generation_schema(generation: OperatorConfigGeneration) -> u8 {
    match generation {
        OperatorConfigGeneration::SmolrunnerV1 => SMOLRUNNER_OPERATOR_CONFIG_SCHEMA_VERSION,
        OperatorConfigGeneration::GlaedaV2 => GLAEDA_OPERATOR_CONFIG_SCHEMA_VERSION,
    }
}

pub open spec fn identity_document_type(generation: OperatorConfigGeneration) -> Seq<char> {
    match generation {
        OperatorConfigGeneration::SmolrunnerV1 => "smolrunner_operator_config"@,
        OperatorConfigGeneration::GlaedaV2 => "glaeda_operator_config"@,
    }
}

impl OperatorConfigGeneration {
    pub fn schema_version(self) -> (version: u8)
        ensures
            version == generation_schema(self),
    {
        match self {
            OperatorConfigGeneration::SmolrunnerV1 => SMOLRUNNER_OPERATOR_CONFIG_SCHEMA_VERSION,
            OperatorConfigGeneration::GlaedaV2 => GLAEDA_OPERATOR_CONFIG_SCHEMA_VERSION,
        }
    }

    fn identity_document_type(self) -> (name: &'static str)
        ensures
            name@ == identity_document_type(self),
    {
        match self {
            OperatorConfigGeneration::SmolrunnerV1 => "smolrunner_operator_config",
            OperatorConfigGeneration::GlaedaV2 => "glaeda_operator_config",
        }
    }
}

#[derive(Debug, PartialEq, Eq)]
pub struct OperatorConfigError {
    pub field: &'static str,
    pub code: &'static str,
    pub problem: &'static str,
}

pub struct ConfigErrorView {
    pub field: Seq<char>,
    pub code: Seq<char>,
    pub problem: Seq<char>,
}

impl View for OperatorConfigError {
    type V = ConfigErrorView;

    open spec fn view(&self) -> ConfigErrorView {
        ConfigErrorView { field: self.field@, code: self.code@, problem: self.problem@ }
    }
}

impl OperatorConfigError {
    /// The error for a human reader.
    pub fn display(&self) -> (line: String)
        ensures
            line@ == self@.field + ": "@ + self@.problem,
    {
        let mut line = text::joined(self.field, ": ");
        line.append(self.problem);
        line
    }
}

pub open spec fn config_error(
    field: Seq<char>,
    code: Seq<char>,
    problem: Seq<char>,
) -> ConfigErrorView {
    ConfigErrorView { field, code, problem }
}

pub open spec fn path_error(field: Seq<char>) -> ConfigErrorView {
    config_error(
        field,
        "invalid_private_path"@,
        "must be one bounded canonical absolute UTF-8 path"@,
    )
}

/// A bounded canonical absolute path without control characters.
pub open spec fn is_private_path(path: Seq<char>) -> bool {
    &&& vstd::utf8::encode_utf8(path).len() <= MAX_OPERATOR_CONFIG_PATH_BYTES
    &&& !paths::has_control(path)
    &&& paths::is_canonical_absolute(path)
}

fn private_path(path: &str) -> (r: bool)
    ensures
        r == is_private_path(path@),
{
    let chars = text::chars_of(path);
    text::byte_length(path) <= MAX_OPERATOR_CONFIG_PATH_BYTES && !paths::holds_control(
        chars.as_slice(),
    ) && paths::canonical_absolute(chars.as_slice())
}

fn invalid_path(field: &'static str) -> (e: OperatorConfigError)
    ensures
        e@ == path_error(field@),
{
    OperatorConfigError {
        field,
        code: "invalid_private_path",
        problem: "must be one bounded canonical absolute UTF-8 path",
    }
}

/// One canonical absolute private host state root.
#[derive(PartialEq, Eq)]
pub struct PersonalWorkerStateRoot(String);

impl View for PersonalWorkerStateRoot {
    type V = Seq<char>;

    closed spec fn view(&self) -> Seq<char> {
        self.0@
    }
}

impl PersonalWorkerStateRoot {
    #[verifier::type_invariant]
    spec fn is_valid(self) -> bool {
        is_private_path(self.0@)
    }

    /// Parse one canonical absolute private host state root.
    ///
    /// # Errors
    ///
    /// Returns a bounded error for a relative, aliased, control-bearing, root-only, or oversized
    /// path.
    pub fn parse(value: &str) -> (r: Result<Self, OperatorConfigError>)
        ensures
            match r {
                Ok(root) => is_private_path(value@) && root@ == value@,
                Err(e) => !is_private_path(value@) && e@ == path_error("state_root"@),
            },
    {
        if private_path(value) {
            Ok(PersonalWorkerStateRoot(value.to_owned()))
        } else {
            Err(invalid_path("state_root"))
        }
    }

    pub fn as_path(&self) -> (path: &str)
        ensures
            path@ == self@,
            is_private_path(path@),
    {
        proof {
            use_type_invariant(self);
        }
        self.0.as_str()
    }

    /// What may be shown in place of the path.
    pub fn redacted(&self) -> (label: &'static str)
        ensures
            label@ == "<private-personal-worker-state-root>"@,
    {
        "<private-personal-worker-state-root>"
    }
}

/// One canonical absolute private guest workspace path.
#[derive(PartialEq, Eq)]
pub struct GuestWorkspacePath(String);

impl View for GuestWorkspacePath {
    type V = Seq<char>;

    closed spec fn view(&self) -> Seq<char> {
        self.0@
    }
}

impl GuestWorkspacePath {
    #[verifier::type_invariant]
    spec fn is_valid(self) -> bool {
        is_private_path(self.0@)
    }

    /// Parse one canonical absolute private guest workspace path.
    ///
    /// # Errors
    ///
    /// Returns a bounded error for a relative, aliased, control-bearing, root-only, or oversized
    /// path.
    pub fn parse(value: &str) -> (r: Result<Self, OperatorConfigError>)
        ensures
            match r {
                Ok(path) => is_private_path(value@) && path@ == value@,
                Err(e) => !is_private_path(value@) && e@ == path_error("guest_workspace"@),
            },
    {
        if private_path(value) {
            Ok(GuestWorkspacePath(value.to_owned()))
        } else {
            Err(invalid_path("guest_workspace"))
        }
    }

    pub fn as_path(&self) -> (path: &str)
        ensures
            path@ == self@,
            is_private_path(path@),
    {
        proof {
            use_type_invariant(self);
        }
        self.0.as_str()
    }

    /// What may be shown in place of the path.
    pub fn redacted(&self) -> (label: &'static str)
        ensures
            label@ == "<private-guest-workspace-path>"@,
    {
        "<private-guest-workspace-path>"
    }
}

#[derive(Debug, Clone, Copy, PartialEq, Eq, Structural)]
pub enum OperatorOutputPreference {
    Human,
    Json,
}

#[derive(Debug, Clone, Copy, PartialEq, Eq, Structural)]
pub enum OperatorRemediationPreference {
    IncludeSuggestions,
    CodesOnly,
}

/// When an idle worker is made interactive and when it is stopped.
#[derive(Debug, Clone, Copy, PartialEq, Eq, Structural)]
pub struct OperatorIdlePolicy {
    interactive_after_millis: u64,
    stopped_after_millis: u64,
}

pub struct IdleView {
    pub interactive_after_millis: u64,
    pub stopped_after_millis: u64,
}

impl View for OperatorIdlePolicy {
    type V = IdleView;

    closed spec fn view(&self) -> IdleView {
        IdleView {
            interactive_after_millis: self.interactive_after_millis,
            stopped_after_millis: self.stopped_after_millis,
        }
    }
}

/// Why two idle thresholds make no policy, if they make none.
pub open spec fn idle_refusal(idle: IdleView) -> Option<ConfigErrorView> {
    if idle.interactive_after_millis == 0 || idle.stopped_after_millis == 0
        || idle.interactive_after_millis > MAX_OPERATOR_IDLE_MILLIS || idle.stopped_after_millis
        > MAX_OPERATOR_IDLE_MILLIS {
        Some(
            config_error(
                "idle_policy"@,
                "invalid_idle_threshold"@,
                "idle thresholds must remain within the bounded positive range"@,
            ),
        )
    } else if idle.stopped_after_millis <= idle.interactive_after_millis {
        Some(
            config_error(
                "idle_policy.stopped_after_millis"@,
                "invalid_idle_order"@,
                "the stopped threshold must be later than the interactive threshold"@,
            ),
        )
    } else {
        None
    }
}

impl OperatorIdlePolicy {
    #[verifier::type_invariant]
    spec fn is_valid(self) -> bool {
        idle_refusal(self@) is None
    }

    /// Define explicit bounded interactive and stopped idle thresholds.
    ///
    /// # Errors
    ///
    /// Returns a bounded error unless both values are positive, the stopped threshold is later,
    /// and both values remain within the fixed implementation bound.
    pub fn new(interactive_after_millis: u64, stopped_after_millis: u64) -> (r: Result<
        Self,
        OperatorConfigError,
    >)
        ensures
            ({
                let idle = IdleView { interactive_after_millis, stopped_after_millis };
                match r {
                    Ok(policy) => idle_refusal(idle) is None && policy@ == idle,
                    Err(e) => idle_refusal(idle) == Some(e@),
                }
            }),
    {
        if interactive_after_millis == 0 || stopped_after_millis == 0 || interactive_after_millis
            > MAX_OPERATOR_IDLE_MILLIS || stopped_after_millis > MAX_OPERATOR_IDLE_MILLIS {
            return Err(
                OperatorConfigError {
                    field: "idle_policy",
                    code: "invalid_idle_threshold",
                    problem: "idle thresholds must remain within the bounded positive range",
                },
            );
        }
        if stopped_after_millis <= interactive_after_millis {
            return Err(
                OperatorConfigError {
                    field: "idle_policy.stopped_after_millis",
                    code: "invalid_idle_order",
                    problem: "the stopped threshold must be later than the interactive threshold",
                },
            );
        }
        Ok(OperatorIdlePolicy { interactive_after_millis, stopped_after_millis })
    }

    pub fn interactive_after_millis(self) -> (millis: u64)
        ensures
            millis == self@.interactive_after_millis,
            idle_refusal(self@) is None,
    {
        proof {
            use_type_invariant(&self);
        }
        self.interactive_after_millis
    }

    pub fn stopped_after_millis(self) -> (millis: u64)
        ensures
            millis == self@.stopped_after_millis,
            idle_refusal(self@) is None,
    {
        proof {
            use_type_invariant(&self);
        }
        self.stopped_after_millis
    }

    pub fn matches_alpha_policy(self) -> (r: bool)
        ensures
            r == (self@ == (IdleView {
                interactive_after_millis: PERSONAL_WORKER_INTERACTIVE_COOLDOWN_MILLIS,
                stopped_after_millis: PERSONAL_WORKER_STOPPED_COOLDOWN_MILLIS,
            })),
    {
        self.interactive_after_millis == PERSONAL_WORKER_INTERACTIVE_COOLDOWN_MILLIS
            && self.stopped_after_millis == PERSONAL_WORKER_STOPPED_COOLDOWN_MILLIS
    }
}

/// Everything that a configuration says.
pub struct ConfigFields {
    pub generation: OperatorConfigGeneration,
    pub state_root: Seq<char>,
    pub lima_instance: Seq<char>,
    pub guest_workspace: Seq<char>,
    pub default_verification_profile: Seq<char>,
    pub availability: AvailabilityRequest,
    pub idle_policy: IdleView,
    pub output_preference: OperatorOutputPreference,
    pub remediation_preference: OperatorRemediationPreference,
}

impl ConfigFields {
    /// Every value is one that its parser accepts.
    pub open spec fn is_valid(self) -> bool {
        &&& is_private_path(self.state_root)
        &&& operator_names::is_operator_name(self.lima_instance)
        &&& is_private_path(self.guest_workspace)
        &&& operator_names::is_operator_name(self.default_verification_profile)
        &&& idle_refusal(self.idle_policy) is None
    }
}

pub open spec fn availability_word(request: AvailabilityRequest) -> Seq<char> {
    match request {
        AvailabilityRequest::Active => "active"@,
        AvailabilityRequest::Away => "away"@,
        AvailabilityRequest::Off => "off"@,
        AvailabilityRequest::Auto => "auto"@,
    }
}

pub open spec fn output_word(preference: OperatorOutputPreference) -> Seq<char> {
    match preference {
        OperatorOutputPreference::Human => "human"@,
        OperatorOutputPreference::Json => "json"@,
    }
}

pub open spec fn remediation_word(preference: OperatorRemediationPreference) -> Seq<char> {
    match preference {
        OperatorRemediationPreference::IncludeSuggestions => "include_suggestions"@,
        OperatorRemediationPreference::CodesOnly => "codes_only"@,
    }
}

pub open spec fn idle_json(idle: IdleView) -> Json {
    Json::Object(
        seq![
            ("interactive_after_millis"@, Json::Number(idle.interactive_after_millis as nat)),
            ("stopped_after_millis"@, Json::Number(idle.stopped_after_millis as nat)),
        ],
    )
}

/// The schema version, followed by the generation where the document names it.
pub open spec fn generation_members(generation: OperatorConfigGeneration) -> Seq<
    (Seq<char>, Json),
> {
    match generation {
        OperatorConfigGeneration::SmolrunnerV1 => seq![("schema_version"@, Json::Number(1))],
        OperatorConfigGeneration::GlaedaV2 => seq![
            ("schema_version"@, Json::Number(2)),
            ("identity_generation"@, Json::Text("glaeda_v2"@)),
        ],
    }
}

/// The members that every generation has.
pub open spec fn common_members(fields: ConfigFields) -> Seq<(Seq<char>, Json)> {
    seq![
        ("state_root"@, Json::Text(fields.state_root)),
        ("lima_instance"@, Json::Text(fields.lima_instance)),
        ("guest_workspace"@, Json::Text(fields.guest_workspace)),
        ("default_verification_profile"@, Json::Text(fields.default_verification_profile)),
        ("availability"@, Json::Text(availability_word(fields.availability))),
        ("idle_policy"@, idle_json(fields.idle_policy)),
        ("output_preference"@, Json::Text(output_word(fields.output_preference))),
        ("remediation_preference"@, Json::Text(remediation_word(fields.remediation_preference))),
    ]
}

/// The private persisted document.
pub open spec fn persisted_json(fields: ConfigFields) -> Json {
    Json::Object(generation_members(fields.generation) + common_members(fields))
}

pub open spec fn persisted_bytes(fields: ConfigFields) -> Seq<u8> {
    vstd::utf8::encode_utf8(canonical_json::rendered(persisted_json(fields)))
}

/// The document whose digest identifies the configuration.
pub open spec fn identity_json(fields: ConfigFields) -> Json {
    Json::Object(
        seq![
            ("document_type"@, Json::Text(identity_document_type(fields.generation))),
            ("schema_version"@, Json::Number(generation_schema(fields.generation) as nat)),
            ("config"@, persisted_json(fields)),
        ],
    )
}

pub open spec fn identity_bytes(fields: ConfigFields) -> Seq<u8> {
    vstd::utf8::encode_utf8(canonical_json::rendered(identity_json(fields)))
}

pub struct ConfigIdentityView {
    pub generation: OperatorConfigGeneration,
    pub schema_version: u8,
    pub digest: Seq<char>,
}

/// The identity of a configuration.
pub open spec fn config_identity(fields: ConfigFields) -> ConfigIdentityView {
    ConfigIdentityView {
        generation: fields.generation,
        schema_version: generation_schema(fields.generation),
        digest: artifact::digest_text(identity_bytes(fields)),
    }
}

#[derive(Debug, PartialEq, Eq)]
pub struct OperatorConfigIdentity {
    generation: OperatorConfigGeneration,
    schema_version: u8,
    digest: Sha256Digest,
}

impl View for OperatorConfigIdentity {
    type V = ConfigIdentityView;

    closed spec fn view(&self) -> ConfigIdentityView {
        ConfigIdentityView {
            generation: self.generation,
            schema_version: self.schema_version,
            digest: self.digest@,
        }
    }
}

impl Clone for OperatorConfigIdentity {
    fn clone(&self) -> (copy: Self)
        ensures
            copy@ == self@,
    {
        OperatorConfigIdentity {
            generation: self.generation,
            schema_version: self.schema_version,
            digest: self.digest.clone(),
        }
    }
}

impl OperatorConfigIdentity {
    pub fn generation(&self) -> (generation: OperatorConfigGeneration)
        ensures
            generation == self@.generation,
    {
        self.generation
    }

    pub fn schema_version(&self) -> (version: u8)
        ensures
            version == self@.schema_version,
    {
        self.schema_version
    }

    pub fn digest(&self) -> (digest: &Sha256Digest)
        ensures
            digest@ == self@.digest,
    {
        &self.digest
    }
}

/// One exact operator configuration.
#[derive(PartialEq, Eq)]
pub struct OperatorConfig {
    generation: OperatorConfigGeneration,
    state_root: PersonalWorkerStateRoot,
    lima_instance: LimaInstanceName,
    guest_workspace: GuestWorkspacePath,
    default_verification_profile: VerificationProfileId,
    availability: AvailabilityRequest,
    idle_policy: OperatorIdlePolicy,
    output_preference: OperatorOutputPreference,
    remediation_preference: OperatorRemediationPreference,
    identity: OperatorConfigIdentity,
}

impl View for OperatorConfig {
    type V = ConfigFields;

    closed spec fn view(&self) -> ConfigFields {
        ConfigFields {
            generation: self.generation,
            state_root: self.state_root@,
            lima_instance: self.lima_instance@,
            guest_workspace: self.guest_workspace@,
            default_verification_profile: self.default_verification_profile@,
            availability: self.availability,
            idle_policy: self.idle_policy@,
            output_preference: self.output_preference,
            remediation_preference: self.remediation_preference,
        }
    }
}

/// The parsed form of a persisted document, before any of its values is
/// checked.
#[derive(Debug, PartialEq, Eq)]
pub struct OperatorConfigDocument {
    pub schema_version: u8,
    /// Present in documents of the form that names its generation.
    pub identity_generation: Option<OperatorConfigGeneration>,
    pub state_root: String,
    pub lima_instance: String,
    pub guest_workspace: String,
    pub default_verification_profile: String,
    pub availability: AvailabilityRequest,
    pub interactive_after_millis: u64,
    pub stopped_after_millis: u64,
    pub output_preference: OperatorOutputPreference,
    pub remediation_preference: OperatorRemediationPreference,
}

pub struct ConfigDocumentView {
    pub schema_version: u8,
    pub identity_generation: Option<OperatorConfigGeneration>,
    pub state_root: Seq<char>,
    pub lima_instance: Seq<char>,
    pub guest_workspace: Seq<char>,
    pub default_verification_profile: Seq<char>,
    pub availability: AvailabilityRequest,
    pub idle_policy: IdleView,
    pub output_preference: OperatorOutputPreference,
    pub remediation_preference: OperatorRemediationPreference,
}

impl View for OperatorConfigDocument {
    type V = ConfigDocumentView;

    open spec fn view(&self) -> ConfigDocumentView {
        ConfigDocumentView {
            schema_version: self.schema_version,
            identity_generation: self.identity_generation,
            state_root: self.state_root@,
            lima_instance: self.lima_instance@,
            guest_workspace: self.guest_workspace@,
            default_verification_profile: self.default_verification_profile@,
            availability: self.availability,
            idle_policy: IdleView {
                interactive_after_millis: self.interactive_after_millis,
                stopped_after_millis: self.stopped_after_millis,
            },
            output_preference: self.output_preference,
            remediation_preference: self.remediation_preference,
        }
    }
}

pub open spec fn generation_mismatch() -> ConfigErrorView {
    config_error(
        "identity_generation"@,
        "generation_schema_mismatch"@,
        "operator configuration schema and identity generation do not match"@,
    )
}

pub open spec fn unsupported_schema() -> ConfigErrorView {
    config_error(
        "schema_version"@,
        "unsupported_schema_version"@,
        "operator configuration schema version is unsupported"@,
    )
}

pub open spec fn document_too_large() -> ConfigErrorView {
    config_error(
        "document"@,
        "document_too_large"@,
        "operator configuration exceeds the bounded document size"@,
    )
}

pub open spec fn identity_too_large() -> ConfigErrorView {
    config_error(
        "identity"@,
        "identity_document_too_large"@,
        "operator configuration identity document exceeds its bound"@,
    )
}

/// The generation of a document: its schema version and the generation that it
/// names, or does not name, have to agree.
pub open spec fn document_generation(document: ConfigDocumentView) -> Result<
    OperatorConfigGeneration,
    ConfigErrorView,
> {
    match document.identity_generation {
        None => if document.schema_version == GLAEDA_OPERATOR_CONFIG_SCHEMA_VERSION {
            Err(generation_mismatch())
        } else if document.schema_version != SMOLRUNNER_OPERATOR_CONFIG_SCHEMA_VERSION {
            Err(unsupported_schema())
        } else {
            Ok(OperatorConfigGeneration::SmolrunnerV1)
        },
        Some(named) => if document.schema_version == SMOLRUNNER_OPERATOR_CONFIG_SCHEMA_VERSION
            || named != OperatorConfigGeneration::GlaedaV2 {
            Err(generation_mismatch())
        } else if document.schema_version != GLAEDA_OPERATOR_CONFIG_SCHEMA_VERSION {
            Err(unsupported_schema())
        } else {
            Ok(OperatorConfigGeneration::GlaedaV2)
        },
    }
}

/// The fields that a document holds once its generation is known.
pub open spec fn document_fields(
    generation: OperatorConfigGeneration,
    document: ConfigDocumentView,
) -> ConfigFields {
    ConfigFields {
        generation,
        state_root: document.state_root,
        lima_instance: document.lima_instance,
        guest_workspace: document.guest_workspace,
        default_verification_profile: document.default_verification_profile,
        availability: document.availability,
        idle_policy: document.idle_policy,
        output_preference: document.output_preference,
        remediation_preference: document.remediation_preference,
    }
}

/// What [`OperatorConfig::new_for_generation`] answers for valid values.
pub open spec fn constructed(fields: ConfigFields) -> Result<ConfigFields, ConfigErrorView> {
    if identity_bytes(fields).len() > MAX_OPERATOR_CONFIG_DOCUMENT_BYTES {
        Err(identity_too_large())
    } else {
        Ok(fields)
    }
}

/// What [`OperatorConfig::of_document`] answers: the first value that its parser
/// refuses decides.
pub open spec fn accepted_document(document: ConfigDocumentView) -> Result<
    ConfigFields,
    ConfigErrorView,
> {
    match document_generation(document) {
        Err(e) => Err(e),
        Ok(generation) => if !is_private_path(document.state_root) {
            Err(path_error("state_root"@))
        } else if !operator_names::is_operator_name(document.lima_instance) {
            Err(
                config_error(
                    "lima_instance"@,
                    "invalid_lima_instance"@,
                    "Lima instance identity is invalid"@,
                ),
            )
        } else if !is_private_path(document.guest_workspace) {
            Err(path_error("guest_workspace"@))
        } else if !operator_names::is_operator_name(document.default_verification_profile) {
            Err(
                config_error(
                    "default_verification_profile"@,
                    "invalid_verification_profile"@,
                    "verification profile identity is invalid"@,
                ),
            )
        } else {
            match idle_refusal(document.idle_policy) {
                Some(e) => Err(e),
                None => constructed(document_fields(generation, document)),
            }
        },
    }
}

/// The configuration of which these bytes are the persisted document, if they
/// are one. No bytes are the document of two configurations.
pub open spec fn written_config(bytes: Seq<u8>) -> Option<ConfigFields> {
    if exists|fields: ConfigFields|
        fields.is_valid() && #[trigger] persisted_bytes(fields) == bytes {
        Some(
            choose|fields: ConfigFields|
                fields.is_valid() && #[trigger] persisted_bytes(fields) == bytes,
        )
    } else {
        None
    }
}

/// What [`OperatorConfig::decode_persisted_json`] answers: a document in the
/// spelling of [`OperatorConfig::encode_persisted_json`] is the configuration
/// that was written, and any other is what its fields were parsed to.
pub open spec fn decoded_config(
    bytes: Seq<u8>,
    parsed: Option<ConfigDocumentView>,
) -> Result<ConfigFields, ConfigErrorView> {
    if bytes.len() > MAX_OPERATOR_CONFIG_DOCUMENT_BYTES {
        Err(document_too_large())
    } else {
        match (written_config(bytes), parsed) {
            (Some(fields), _) => Ok(fields),
            (None, Some(document)) => accepted_document(document),
            (None, None) => Err(
                config_error(
                    "document"@,
                    "invalid_document"@,
                    "operator configuration document is invalid"@,
                ),
            ),
        }
    }
}

/// What [`OperatorConfig::encode_persisted_json`] answers.
pub open spec fn encoded_config(fields: ConfigFields) -> Result<Seq<u8>, ConfigErrorView> {
    if persisted_bytes(fields).len() > MAX_OPERATOR_CONFIG_DOCUMENT_BYTES {
        Err(document_too_large())
    } else {
        Ok(persisted_bytes(fields))
    }
}

fn availability_name(request: AvailabilityRequest) -> (word: &'static str)
    ensures
        word@ == availability_word(request),
{
    match request {
        AvailabilityRequest::Active => "active",
        AvailabilityRequest::Away => "away",
        AvailabilityRequest::Off => "off",
        AvailabilityRequest::Auto => "auto",
    }
}

fn output_name(preference: OperatorOutputPreference) -> (word: &'static str)
    ensures
        word@ == output_word(preference),
{
    match preference {
        OperatorOutputPreference::Human => "human",
        OperatorOutputPreference::Json => "json",
    }
}

fn remediation_name(preference: OperatorRemediationPreference) -> (word: &'static str)
    ensures
        word@ == remediation_word(preference),
{
    match preference {
        OperatorRemediationPreference::IncludeSuggestions => "include_suggestions",
        OperatorRemediationPreference::CodesOnly => "codes_only",
    }
}

fn idle_text(idle_policy: OperatorIdlePolicy) -> (object: String)
    ensures
        object@ == canonical_json::rendered(idle_json(idle_policy@)),
{
    let mut writer = ObjectWriter::new();
    writer.number("interactive_after_millis", idle_policy.interactive_after_millis);
    writer.number("stopped_after_millis", idle_policy.stopped_after_millis);
    assert(Json::Object(writer.members()) == idle_json(idle_policy@)) by {
        assert(writer.members() =~= seq![
            (
                "interactive_after_millis"@,
                Json::Number(idle_policy@.interactive_after_millis as nat),
            ),
            ("stopped_after_millis"@, Json::Number(idle_policy@.stopped_after_millis as nat)),
        ]);
    }
    writer.finish()
}

fn too_large() -> (e: OperatorConfigError)
    ensures
        e@ == document_too_large(),
{
    OperatorConfigError {
        field: "document",
        code: "document_too_large",
        problem: "operator configuration exceeds the bounded document size",
    }
}

fn mismatched_generation() -> (e: OperatorConfigError)
    ensures
        e@ == generation_mismatch(),
{
    OperatorConfigError {
        field: "identity_generation",
        code: "generation_schema_mismatch",
        problem: "operator configuration schema and identity generation do not match",
    }
}

fn unsupported_schema_version() -> (e: OperatorConfigError)
    ensures
        e@ == unsupported_schema(),
{
    OperatorConfigError {
        field: "schema_version",
        code: "unsupported_schema_version",
        problem: "operator configuration schema version is unsupported",
    }
}

impl OperatorConfigDocument {
    /// The generation that the document belongs to.
    pub fn generation(&self) -> (r: Result<OperatorConfigGeneration, OperatorConfigError>)
        ensures
            match r {
                Ok(generation) => document_generation(self@) == Ok::<_, ConfigErrorView>(
                    generation,
                ),
                Err(e) => document_generation(self@) == Err::<OperatorConfigGeneration, _>(e@),
            },
    {
        match self.identity_generation {
            None => if self.schema_version == GLAEDA_OPERATOR_CONFIG_SCHEMA_VERSION {
                Err(mismatched_generation())
            } else if self.schema_version != SMOLRUNNER_OPERATOR_CONFIG_SCHEMA_VERSION {
                Err(unsupported_schema_version())
            } else {
                Ok(OperatorConfigGeneration::SmolrunnerV1)
            },
            Some(named) => if self.schema_version == SMOLRUNNER_OPERATOR_CONFIG_SCHEMA_VERSION
                || named != OperatorConfigGeneration::GlaedaV2 {
                Err(mismatched_generation())
            } else if self.schema_version != GLAEDA_OPERATOR_CONFIG_SCHEMA_VERSION {
                Err(unsupported_schema_version())
            } else {
                Ok(OperatorConfigGeneration::GlaedaV2)
            },
        }
    }
}

/// The text of the persisted document.
fn persisted_text(
    generation: OperatorConfigGeneration,
    state_root: &PersonalWorkerStateRoot,
    lima_instance: &LimaInstanceName,
    guest_workspace: &GuestWorkspacePath,
    default_verification_profile: &VerificationProfileId,
    availability: AvailabilityRequest,
    idle_policy: OperatorIdlePolicy,
    output_preference: OperatorOutputPreference,
    remediation_preference: OperatorRemediationPreference,
) -> (document: String)
    ensures
        document@ == canonical_json::rendered(
            persisted_json(
                ConfigFields {
                    generation,
                    state_root: state_root@,
                    lima_instance: lima_instance@,
                    guest_workspace: guest_workspace@,
                    default_verification_profile: default_verification_profile@,
                    availability,
                    idle_policy: idle_policy@,
                    output_preference,
                    remediation_preference,
                },
            ),
        ),
{
    let ghost fields = ConfigFields {
        generation,
        state_root: state_root@,
        lima_instance: lima_instance@,
        guest_workspace: guest_workspace@,
        default_verification_profile: default_verification_profile@,
        availability,
        idle_policy: idle_policy@,
        output_preference,
        remediation_preference,
    };
    let mut writer = ObjectWriter::new();
    writer.number("schema_version", generation.schema_version() as u64);
    if generation == OperatorConfigGeneration::GlaedaV2 {
        writer.string("identity_generation", "glaeda_v2");
    }
    assert(writer.members() =~= generation_members(generation));
    writer.string("state_root", state_root.as_path());
    writer.string("lima_instance", lima_instance.as_str());
    writer.string("guest_workspace", guest_workspace.as_path());
    writer.string("default_verification_profile", default_verification_profile.as_str());
    writer.string("availability", availability_name(availability));
    let idle = idle_text(idle_policy);
    writer.value("idle_policy", idle.as_str(), Ghost(idle_json(idle_policy@)));
    writer.string("output_preference", output_name(output_preference));
    writer.string("remediation_preference", remediation_name(remediation_preference));
    assert(writer.members() =~= generation_members(generation) + common_members(fields));
    writer.finish()
}

fn availability_named(word: &str) -> (r: Option<AvailabilityRequest>)
    ensures
        match r {
            Some(request) => word@ == availability_word(request),
            None => forall|request: AvailabilityRequest|
                word@ != #[trigger] availability_word(request),
        },
{
    if text::same_text(word, "active") {
        Some(AvailabilityRequest::Active)
    } else if text::same_text(word, "away") {
        Some(AvailabilityRequest::Away)
    } else if text::same_text(word, "off") {
        Some(AvailabilityRequest::Off)
    } else if text::same_text(word, "auto") {
        Some(AvailabilityRequest::Auto)
    } else {
        None
    }
}

fn output_named(word: &str) -> (r: Option<OperatorOutputPreference>)
    ensures
        match r {
            Some(preference) => word@ == output_word(preference),
            None => forall|preference: OperatorOutputPreference|
                word@ != #[trigger] output_word(preference),
        },
{
    if text::same_text(word, "human") {
        Some(OperatorOutputPreference::Human)
    } else if text::same_text(word, "json") {
        Some(OperatorOutputPreference::Json)
    } else {
        None
    }
}

fn remediation_named(word: &str) -> (r: Option<OperatorRemediationPreference>)
    ensures
        match r {
            Some(preference) => word@ == remediation_word(preference),
            None => forall|preference: OperatorRemediationPreference|
                word@ != #[trigger] remediation_word(preference),
        },
{
    if text::same_text(word, "include_suggestions") {
        Some(OperatorRemediationPreference::IncludeSuggestions)
    } else if text::same_text(word, "codes_only") {
        Some(OperatorRemediationPreference::CodesOnly)
    } else {
        None
    }
}

/// The document whose members were read, if the object holds one that was
/// written. The generation follows from the schema version; members that no
/// written document has are not looked at.
fn written_document(reader: &ObjectReader) -> (r: Option<OperatorConfigDocument>)
    ensures
        forall|fields: ConfigFields|
            reader.holds_all((#[trigger] persisted_json(fields))->Object_0) ==> r is Some && r->0@
                == document_of(fields),
{
    proof {
        lemma_words_differ();
        lemma_idle_keys();
        assert forall|fields: ConfigFields|
            reader.holds_all((#[trigger] persisted_json(fields))->Object_0) implies holds_fields(
            reader,
            fields,
        ) by {
            lemma_holds_fields(reader, fields);
        }
    }
    let schema_version = reader.number("schema_version")?;
    if schema_version > u8::MAX as u64 {
        return None;
    }
    let schema_version: u8 = schema_version as u8;
    let identity_generation = if schema_version == GLAEDA_OPERATOR_CONFIG_SCHEMA_VERSION {
        Some(OperatorConfigGeneration::GlaedaV2)
    } else {
        None
    };
    let state_root = reader.string("state_root")?;
    let lima_instance = reader.string("lima_instance")?;
    let guest_workspace = reader.string("guest_workspace")?;
    let default_verification_profile = reader.string("default_verification_profile")?;
    let availability = availability_named(reader.string("availability")?.as_str())?;
    let idle = reader.object("idle_policy")?;
    let interactive_after_millis = idle.number("interactive_after_millis")?;
    let stopped_after_millis = idle.number("stopped_after_millis")?;
    let output_preference = output_named(reader.string("output_preference")?.as_str())?;
    let remediation_preference = remediation_named(
        reader.string("remediation_preference")?.as_str(),
    )?;
    Some(
        OperatorConfigDocument {
            schema_version,
            identity_generation,
            state_root,
            lima_instance,
            guest_workspace,
            default_verification_profile,
            availability,
            interactive_after_millis,
            stopped_after_millis,
            output_preference,
            remediation_preference,
        },
    )
}

impl OperatorConfig {
    /// The identity is that of the fields, whose identity document fits its
    /// bound.
    #[verifier::type_invariant]
    spec fn is_valid(self) -> bool {
        &&& self.identity@ == config_identity(self@)
        &&& self@.is_valid()
        &&& identity_bytes(self@).len() <= MAX_OPERATOR_CONFIG_DOCUMENT_BYTES
    }

    /// Construct one exact operator configuration from caller-supplied typed values only.
    ///
    /// # Errors
    ///
    /// Returns a bounded error when the canonical configuration identity cannot be encoded.
    pub fn new(
        state_root: PersonalWorkerStateRoot,
        lima_instance: LimaInstanceName,
        guest_workspace: GuestWorkspacePath,
        default_verification_profile: VerificationProfileId,
        availability: AvailabilityRequest,
        idle_policy: OperatorIdlePolicy,
        output_preference: OperatorOutputPreference,
        remediation_preference: OperatorRemediationPreference,
    ) -> (r: Result<Self, OperatorConfigError>)
        ensures
            outcome::is_outcome(
                r,
                constructed(
                    ConfigFields {
                        generation: OperatorConfigGeneration::SmolrunnerV1,
                        state_root: state_root@,
                        lima_instance: lima_instance@,
                        guest_workspace: guest_workspace@,
                        default_verification_profile: default_verification_profile@,
                        availability,
                        idle_policy: idle_policy@,
                        output_preference,
                        remediation_preference,
                    },
                ),
            ),
    {
        Self::new_for_generation(
            OperatorConfigGeneration::SmolrunnerV1,
            state_root,
            lima_instance,
            guest_workspace,
            default_verification_profile,
            availability,
            idle_policy,
            output_preference,
            remediation_preference,
        )
    }

    /// Construct one exact operator configuration under an explicit identity generation.
    ///
    /// This constructor performs no discovery, migration, or I/O.
    ///
    /// # Errors
    ///
    /// Returns a bounded error when the canonical configuration identity cannot be encoded.
    pub fn new_for_generation(
        generation: OperatorConfigGeneration,
        state_root: PersonalWorkerStateRoot,
        lima_instance: LimaInstanceName,
        guest_workspace: GuestWorkspacePath,
        default_verification_profile: VerificationProfileId,
        availability: AvailabilityRequest,
        idle_policy: OperatorIdlePolicy,
        output_preference: OperatorOutputPreference,
        remediation_preference: OperatorRemediationPreference,
    ) -> (r: Result<Self, OperatorConfigError>)
        ensures
            outcome::is_outcome(
                r,
                constructed(
                    ConfigFields {
                        generation,
                        state_root: state_root@,
                        lima_instance: lima_instance@,
                        guest_workspace: guest_workspace@,
                        default_verification_profile: default_verification_profile@,
                        availability,
                        idle_policy: idle_policy@,
                        output_preference,
                        remediation_preference,
                    },
                ),
            ),
    {
        let ghost fields = ConfigFields {
            generation,
            state_root: state_root@,
            lima_instance: lima_instance@,
            guest_workspace: guest_workspace@,
            default_verification_profile: default_verification_profile@,
            availability,
            idle_policy: idle_policy@,
            output_preference,
            remediation_preference,
        };
        let config = persisted_text(
            generation,
            &state_root,
            &lima_instance,
            &guest_workspace,
            &default_verification_profile,
            availability,
            idle_policy,
            output_preference,
            remediation_preference,
        );
        let mut writer = ObjectWriter::new();
        writer.string("document_type", generation.identity_document_type());
        writer.number("schema_version", generation.schema_version() as u64);
        writer.value("config", config.as_str(), Ghost(persisted_json(fields)));
        assert(Json::Object(writer.members()) == identity_json(fields)) by {
            assert(writer.members() =~= seq![
                ("document_type"@, Json::Text(identity_document_type(fields.generation))),
                ("schema_version"@, Json::Number(generation_schema(fields.generation) as nat)),
                ("config"@, persisted_json(fields)),
            ]);
        }
        let document = writer.finish();
        let bytes = document.as_str().as_bytes();
        if bytes.len() > MAX_OPERATOR_CONFIG_DOCUMENT_BYTES {
            return Err(
                OperatorConfigError {
                    field: "identity",
                    code: "identity_document_too_large",
                    problem: "operator configuration identity document exceeds its bound",
                },
            );
        }
        let digest = Sha256Digest::of_bytes(bytes);
        let identity = OperatorConfigIdentity {
            generation,
            schema_version: generation.schema_version(),
            digest,
        };
        // Reading the values back brings what their types guarantee into scope.
        let _ = state_root.as_path();
        let _ = lima_instance.as_str();
        let _ = guest_workspace.as_path();
        let _ = default_verification_profile.as_str();
        let _ = idle_policy.interactive_after_millis();
        Ok(
            OperatorConfig {
                generation,
                state_root,
                lima_instance,
                guest_workspace,
                default_verification_profile,
                availability,
                idle_policy,
                output_preference,
                remediation_preference,
                identity,
            },
        )
    }

    /// The configuration that a parsed document holds.
    ///
    /// # Errors
    ///
    /// Returns a bounded error for an unsupported version, invalid paths or identities, or invalid
    /// policy values.
    pub fn of_document(document: &OperatorConfigDocument) -> (r: Result<Self, OperatorConfigError>)
        ensures
            outcome::is_outcome(r, accepted_document(document@)),
    {
        let generation = document.generation()?;
        let state_root = PersonalWorkerStateRoot::parse(document.state_root.as_str())?;
        let lima_instance = match LimaInstanceName::parse(document.lima_instance.as_str()) {
            Ok(name) => name,
            Err(_) => {
                return Err(
                    OperatorConfigError {
                        field: "lima_instance",
                        code: "invalid_lima_instance",
                        problem: "Lima instance identity is invalid",
                    },
                );
            },
        };
        let guest_workspace = GuestWorkspacePath::parse(document.guest_workspace.as_str())?;
        let profile = match VerificationProfileId::parse(
            document.default_verification_profile.as_str(),
        ) {
            Ok(name) => name,
            Err(_) => {
                return Err(
                    OperatorConfigError {
                        field: "default_verification_profile",
                        code: "invalid_verification_profile",
                        problem: "verification profile identity is invalid",
                    },
                );
            },
        };
        let idle_policy = OperatorIdlePolicy::new(
            document.interactive_after_millis,
            document.stopped_after_millis,
        )?;
        Self::new_for_generation(
            generation,
            state_root,
            lima_instance,
            guest_workspace,
            profile,
            document.availability,
            idle_policy,
            document.output_preference,
            document.remediation_preference,
        )
    }

    /// Reads back a document in the very bytes that
    /// [`OperatorConfig::encode_persisted_json`] writes, and no other.
    pub fn read_written_json(bytes: &[u8]) -> (r: Option<Self>)
        ensures
            outcome::option_view(r) == written_config(bytes@),
    {
        proof {
            lemma_written_is_text(bytes@);
        }
        let document = text::utf8_text(bytes)?;
        let reader = ObjectReader::read(document.as_str())?;
        let parsed = written_document(&reader)?;
        proof {
            if let Some(fields) = written_config(bytes@) {
                lemma_written_is_accepted(fields);
            }
        }
        let config = match Self::of_document(&parsed) {
            Ok(config) => config,
            Err(_) => {
                return None;
            },
        };
        let written = match config.encode_persisted_json() {
            Ok(written) => written,
            Err(_) => {
                proof {
                    law_every_configuration_fits(config@);
                }
                return None;
            },
        };
        proof {
            lemma_written_config(config@);
        }
        if text::same_bytes(written.as_slice(), bytes) {
            Some(config)
        } else {
            None
        }
    }

    /// Decode one strict persisted configuration document: the bytes, and what
    /// they parse to if they parse. A document in the spelling that
    /// [`OperatorConfig::encode_persisted_json`] writes is read from its bytes.
    ///
    /// # Errors
    ///
    /// Returns a bounded error for oversized or malformed JSON, unknown fields, an unsupported
    /// version, invalid paths or identities, or invalid policy values.
    pub fn decode_persisted_json(bytes: &[u8], parsed: &Option<OperatorConfigDocument>) -> (r:
        Result<Self, OperatorConfigError>)
        ensures
            outcome::is_outcome(r, decoded_config(bytes@, outcome::option_view(*parsed))),
    {
        if bytes.len() > MAX_OPERATOR_CONFIG_DOCUMENT_BYTES {
            return Err(too_large());
        }
        if let Some(config) = Self::read_written_json(bytes) {
            return Ok(config);
        }
        match parsed {
            Some(document) => Self::of_document(document),
            None => Err(
                OperatorConfigError {
                    field: "document",
                    code: "invalid_document",
                    problem: "operator configuration document is invalid",
                },
            ),
        }
    }

    /// Encode the strict private persisted configuration document.
    ///
    /// This explicit method is the only serialisation surface that holds private paths.
    ///
    /// # Errors
    ///
    /// Returns a bounded error when the encoding exceeds the fixed document bound.
    pub fn encode_persisted_json(&self) -> (r: Result<Vec<u8>, OperatorConfigError>)
        ensures
            outcome::is_outcome(r, encoded_config(self@)),
            self@.is_valid(),
            constructed(self@) == Ok::<_, ConfigErrorView>(self@),
    {
        proof {
            use_type_invariant(self);
        }
        let document = persisted_text(
            self.generation,
            &self.state_root,
            &self.lima_instance,
            &self.guest_workspace,
            &self.default_verification_profile,
            self.availability,
            self.idle_policy,
            self.output_preference,
            self.remediation_preference,
        );
        let bytes = document.as_str().as_bytes();
        if bytes.len() > MAX_OPERATOR_CONFIG_DOCUMENT_BYTES {
            return Err(too_large());
        }
        let encoded = vstd::slice::slice_to_vec(bytes);
        Ok(encoded)
    }

    pub fn generation(&self) -> (generation: OperatorConfigGeneration)
        ensures
            generation == self@.generation,
    {
        self.generation
    }

    pub fn schema_version(&self) -> (version: u8)
        ensures
            version == generation_schema(self@.generation),
    {
        self.generation.schema_version()
    }

    pub fn state_root(&self) -> (root: &PersonalWorkerStateRoot)
        ensures
            root@ == self@.state_root,
    {
        &self.state_root
    }

    pub fn lima_instance(&self) -> (name: &LimaInstanceName)
        ensures
            name@ == self@.lima_instance,
    {
        &self.lima_instance
    }

    pub fn guest_workspace(&self) -> (path: &GuestWorkspacePath)
        ensures
            path@ == self@.guest_workspace,
    {
        &self.guest_workspace
    }

    pub fn default_verification_profile(&self) -> (profile: &VerificationProfileId)
        ensures
            profile@ == self@.default_verification_profile,
    {
        &self.default_verification_profile
    }

    pub fn availability(&self) -> (availability: AvailabilityRequest)
        ensures
            availability == self@.availability,
    {
        self.availability
    }

    pub fn idle_policy(&self) -> (policy: OperatorIdlePolicy)
        ensures
            policy@ == self@.idle_policy,
    {
        self.idle_policy
    }

    pub fn output_preference(&self) -> (preference: OperatorOutputPreference)
        ensures
            preference == self@.output_preference,
    {
        self.output_preference
    }

    pub fn remediation_preference(&self) -> (preference: OperatorRemediationPreference)
        ensures
            preference == self@.remediation_preference,
    {
        self.remediation_preference
    }

    pub fn identity(&self) -> (identity: &OperatorConfigIdentity)
        ensures
            identity@ == config_identity(self@),
    {
        proof {
            use_type_invariant(self);
        }
        &self.identity
    }

    /// What may be shown of the configuration: everything but its private
    /// paths.
    pub fn public_summary(&self) -> (summary: OperatorConfigPublicSummary)
        ensures
            summary@ == summary_of(self@),
    {
        proof {
            use_type_invariant(self);
        }
        OperatorConfigPublicSummary {
            schema_version: self.generation.schema_version(),
            identity: self.identity.clone(),
            lima_instance: self.lima_instance.clone(),
            default_verification_profile: self.default_verification_profile.clone(),
            availability: self.availability,
            idle_policy: self.idle_policy,
            output_preference: self.output_preference,
            remediation_preference: self.remediation_preference,
        }
    }
}

#[derive(Debug, PartialEq, Eq)]
pub struct OperatorConfigPublicSummary {
    schema_version: u8,
    identity: OperatorConfigIdentity,
    lima_instance: LimaInstanceName,
    default_verification_profile: VerificationProfileId,
    availability: AvailabilityRequest,
    idle_policy: OperatorIdlePolicy,
    output_preference: OperatorOutputPreference,
    remediation_preference: OperatorRemediationPreference,
}

pub struct SummaryView {
    pub schema_version: u8,
    pub identity: ConfigIdentityView,
    pub lima_instance: Seq<char>,
    pub default_verification_profile: Seq<char>,
    pub availability: AvailabilityRequest,
    pub idle_policy: IdleView,
    pub output_preference: OperatorOutputPreference,
    pub remediation_preference: OperatorRemediationPreference,
}

pub open spec fn summary_of(fields: ConfigFields) -> SummaryView {
    SummaryView {
        schema_version: generation_schema(fields.generation),
        identity: config_identity(fields),
        lima_instance: fields.lima_instance,
        default_verification_profile: fields.default_verification_profile,
        availability: fields.availability,
        idle_policy: fields.idle_policy,
        output_preference: fields.output_preference,
        remediation_preference: fields.remediation_preference,
    }
}

impl View for OperatorConfigPublicSummary {
    type V = SummaryView;

    closed spec fn view(&self) -> SummaryView {
        SummaryView {
            schema_version: self.schema_version,
            identity: self.identity@,
            lima_instance: self.lima_instance@,
            default_verification_profile: self.default_verification_profile@,
            availability: self.availability,
            idle_policy: self.idle_policy@,
            output_preference: self.output_preference,
            remediation_preference: self.remediation_preference,
        }
    }
}

impl OperatorConfigPublicSummary {
    pub fn schema_version(&self) -> (version: u8)
        ensures
            version == self@.schema_version,
    {
        self.schema_version
    }

    pub fn identity(&self) -> (identity: &OperatorConfigIdentity)
        ensures
            identity@ == self@.identity,
    {
        &self.identity
    }

    pub fn lima_instance(&self) -> (name: &LimaInstanceName)
        ensures
            name@ == self@.lima_instance,
    {
        &self.lima_instance
    }

    pub fn default_verification_profile(&self) -> (profile: &VerificationProfileId)
        ensures
            profile@ == self@.default_verification_profile,
    {
        &self.default_verification_profile
    }

    pub fn availability(&self) -> (availability: AvailabilityRequest)
        ensures
            availability == self@.availability,
    {
        self.availability
    }

    pub fn idle_policy(&self) -> (policy: OperatorIdlePolicy)
        ensures
            policy@ == self@.idle_policy,
    {
        self.idle_policy
    }

    pub fn output_preference(&self) -> (preference: OperatorOutputPreference)
        ensures
            preference == self@.output_preference,
    {
        self.output_preference
    }

    pub fn remediation_preference(&self) -> (preference: OperatorRemediationPreference)
        ensures
            preference == self@.remediation_preference,
    {
        self.remediation_preference
    }
}

/// The document that encoding a configuration writes, as parsing reads it back.
pub open spec fn document_of(fields: ConfigFields) -> ConfigDocumentView {
    ConfigDocumentView {
        schema_version: generation_schema(fields.generation),
        identity_generation: match fields.generation {
            OperatorConfigGeneration::SmolrunnerV1 => None,
            OperatorConfigGeneration::GlaedaV2 => Some(OperatorConfigGeneration::GlaedaV2),
        },
        state_root: fields.state_root,
        lima_instance: fields.lima_instance,
        guest_workspace: fields.guest_workspace,
        default_verification_profile: fields.default_verification_profile,
        availability: fields.availability,
        idle_policy: fields.idle_policy,
        output_preference: fields.output_preference,
        remediation_preference: fields.remediation_preference,
    }
}

proof fn lemma_path_bytes(path: Seq<char>)
    requires
        is_private_path(path),
    ensures
        canonical_json::bytes_of(canonical_json::json_text(path)) <= 2050,
{
    assert forall|i: int| 0 <= i < path.len() implies #[trigger] path[i] > '\u{1f}' by {
        assert(!text::is_control(path[i]));
    }
    canonical_json::lemma_literal_bytes(path);
}

/// A plain text of a known length takes four bytes per character at most.
proof fn lemma_plain_bytes(value: Seq<char>)
    requires
        canonical_json::is_plain(value),
    ensures
        canonical_json::bytes_of(canonical_json::json_text(value)) <= 4 * value.len() + 8,
{
    canonical_json::lemma_plain_length(value);
    canonical_json::lemma_byte_length(canonical_json::json_text(value));
}

proof fn lemma_number_bytes(n: u64)
    ensures
        canonical_json::bytes_of(canonical_json::rendered(Json::Number(n as nat))) <= 80,
{
    text::lemma_decimal_length(n as nat);
    canonical_json::lemma_byte_length(text::decimal(n as nat));
}

proof fn lemma_idle_bytes(idle: IdleView)
    ensures
        canonical_json::bytes_of(canonical_json::rendered(idle_json(idle))) <= 400,
{
    let none = Seq::<(Seq<char>, Json)>::empty();
    let interactive = Json::Number(idle.interactive_after_millis as nat);
    let stopped = Json::Number(idle.stopped_after_millis as nat);
    reveal_strlit("interactive_after_millis");
    reveal_strlit("stopped_after_millis");
    lemma_plain_bytes("interactive_after_millis"@);
    lemma_plain_bytes("stopped_after_millis"@);
    lemma_number_bytes(idle.interactive_after_millis);
    lemma_number_bytes(idle.stopped_after_millis);
    let m0 = none.push(("interactive_after_millis"@, interactive));
    let m1 = m0.push(("stopped_after_millis"@, stopped));
    canonical_json::lemma_members_bytes_push(none, "interactive_after_millis"@, interactive);
    canonical_json::lemma_members_bytes_push(m0, "stopped_after_millis"@, stopped);
    assert(idle_json(idle) == Json::Object(m1)) by {
        assert(idle_json(idle)->Object_0 =~= m1);
    }
    canonical_json::lemma_object_bytes(m1);
}

proof fn lemma_generation_bytes(generation: OperatorConfigGeneration)
    ensures
        canonical_json::members_bytes(generation_members(generation)) <= 300,
{
    let none = Seq::<(Seq<char>, Json)>::empty();
    let version = Json::Number(generation_schema(generation) as nat);
    reveal_strlit("schema_version");
    reveal_strlit("identity_generation");
    reveal_strlit("glaeda_v2");
    lemma_plain_bytes("schema_version"@);
    lemma_plain_bytes("identity_generation"@);
    lemma_plain_bytes("glaeda_v2"@);
    lemma_number_bytes(generation_schema(generation) as u64);
    let first = none.push(("schema_version"@, version));
    let name = Json::Text("glaeda_v2"@);
    canonical_json::lemma_members_bytes_push(none, "schema_version"@, version);
    canonical_json::lemma_members_bytes_push(first, "identity_generation"@, name);
    match generation {
        OperatorConfigGeneration::SmolrunnerV1 => {
            assert(generation_members(generation) =~= first);
        },
        OperatorConfigGeneration::GlaedaV2 => {
            assert(generation_members(generation) =~= first.push(("identity_generation"@, name)));
        },
    }
}

proof fn lemma_word_bytes(fields: ConfigFields)
    ensures
        canonical_json::bytes_of(
            canonical_json::json_text(availability_word(fields.availability)),
        ) <= 32,
        canonical_json::bytes_of(
            canonical_json::json_text(output_word(fields.output_preference)),
        ) <= 28,
        canonical_json::bytes_of(
            canonical_json::json_text(remediation_word(fields.remediation_preference)),
        ) <= 84,
{
    reveal_strlit("active");
    reveal_strlit("away");
    reveal_strlit("off");
    reveal_strlit("auto");
    reveal_strlit("human");
    reveal_strlit("json");
    reveal_strlit("include_suggestions");
    reveal_strlit("codes_only");
    lemma_plain_bytes(availability_word(fields.availability));
    lemma_plain_bytes(output_word(fields.output_preference));
    lemma_plain_bytes(remediation_word(fields.remediation_preference));
}

proof fn lemma_name_bytes(name: Seq<char>)
    requires
        operator_names::is_operator_name(name),
    ensures
        canonical_json::bytes_of(canonical_json::json_text(name)) <= 520,
{
    assert forall|i: int| 0 <= i < name.len() implies canonical_json::is_plain_char(
        #[trigger] name[i],
    ) by {
        assert(operator_names::is_name_char(name[i]));
    }
    lemma_plain_bytes(name);
}

proof fn lemma_persisted_bytes(fields: ConfigFields)
    requires
        fields.is_valid(),
    ensures
        persisted_bytes(fields).len() <= 7000,
{
    let head = generation_members(fields.generation);
    let root = Json::Text(fields.state_root);
    let instance = Json::Text(fields.lima_instance);
    let workspace = Json::Text(fields.guest_workspace);
    let profile = Json::Text(fields.default_verification_profile);
    let availability = Json::Text(availability_word(fields.availability));
    let idle = idle_json(fields.idle_policy);
    let output = Json::Text(output_word(fields.output_preference));
    let remediation = Json::Text(remediation_word(fields.remediation_preference));
    lemma_generation_bytes(fields.generation);
    lemma_path_bytes(fields.state_root);
    lemma_name_bytes(fields.lima_instance);
    lemma_path_bytes(fields.guest_workspace);
    lemma_name_bytes(fields.default_verification_profile);
    lemma_word_bytes(fields);
    lemma_idle_bytes(fields.idle_policy);
    reveal_strlit("state_root");
    reveal_strlit("lima_instance");
    reveal_strlit("guest_workspace");
    reveal_strlit("default_verification_profile");
    reveal_strlit("availability");
    reveal_strlit("idle_policy");
    reveal_strlit("output_preference");
    reveal_strlit("remediation_preference");
    lemma_plain_bytes("state_root"@);
    lemma_plain_bytes("lima_instance"@);
    lemma_plain_bytes("guest_workspace"@);
    lemma_plain_bytes("default_verification_profile"@);
    lemma_plain_bytes("availability"@);
    lemma_plain_bytes("idle_policy"@);
    lemma_plain_bytes("output_preference"@);
    lemma_plain_bytes("remediation_preference"@);
    let m0 = head.push(("state_root"@, root));
    let m1 = m0.push(("lima_instance"@, instance));
    let m2 = m1.push(("guest_workspace"@, workspace));
    let m3 = m2.push(("default_verification_profile"@, profile));
    let m4 = m3.push(("availability"@, availability));
    let m5 = m4.push(("idle_policy"@, idle));
    let m6 = m5.push(("output_preference"@, output));
    let m7 = m6.push(("remediation_preference"@, remediation));
    canonical_json::lemma_members_bytes_push(head, "state_root"@, root);
    canonical_json::lemma_members_bytes_push(m0, "lima_instance"@, instance);
    canonical_json::lemma_members_bytes_push(m1, "guest_workspace"@, workspace);
    canonical_json::lemma_members_bytes_push(m2, "default_verification_profile"@, profile);
    canonical_json::lemma_members_bytes_push(m3, "availability"@, availability);
    canonical_json::lemma_members_bytes_push(m4, "idle_policy"@, idle);
    canonical_json::lemma_members_bytes_push(m5, "output_preference"@, output);
    canonical_json::lemma_members_bytes_push(m6, "remediation_preference"@, remediation);
    assert(persisted_json(fields) == Json::Object(m7)) by {
        assert(head + common_members(fields) =~= m7);
    }
    canonical_json::lemma_object_bytes(m7);
}

/// Every configuration stays within the document limit: it has an identity and
/// can be persisted.
pub proof fn law_every_configuration_fits(fields: ConfigFields)
    requires
        fields.is_valid(),
    ensures
        constructed(fields) == Ok::<_, ConfigErrorView>(fields),
        encoded_config(fields) == Ok::<_, ConfigErrorView>(persisted_bytes(fields)),
{
    let none = Seq::<(Seq<char>, Json)>::empty();
    let kind = Json::Text(identity_document_type(fields.generation));
    let version = Json::Number(generation_schema(fields.generation) as nat);
    let config = persisted_json(fields);
    lemma_persisted_bytes(fields);
    lemma_number_bytes(generation_schema(fields.generation) as u64);
    reveal_strlit("smolrunner_operator_config");
    reveal_strlit("glaeda_operator_config");
    reveal_strlit("document_type");
    reveal_strlit("schema_version");
    reveal_strlit("config");
    lemma_plain_bytes(identity_document_type(fields.generation));
    lemma_plain_bytes("document_type"@);
    lemma_plain_bytes("schema_version"@);
    lemma_plain_bytes("config"@);
    let m0 = none.push(("document_type"@, kind));
    let m1 = m0.push(("schema_version"@, version));
    let m2 = m1.push(("config"@, config));
    canonical_json::lemma_members_bytes_push(none, "document_type"@, kind);
    canonical_json::lemma_members_bytes_push(m0, "schema_version"@, version);
    canonical_json::lemma_members_bytes_push(m1, "config"@, config);
    assert(identity_json(fields) == Json::Object(m2)) by {
        assert(identity_json(fields)->Object_0 =~= m2);
    }
    canonical_json::lemma_object_bytes(m2);
}

spec fn holds_fields(reader: &ObjectReader, fields: ConfigFields) -> bool {
    &&& reader.holds(
        "schema_version"@,
        Json::Number(generation_schema(fields.generation) as u64 as nat),
    )
    &&& reader.holds("state_root"@, Json::Text(fields.state_root))
    &&& reader.holds("lima_instance"@, Json::Text(fields.lima_instance))
    &&& reader.holds("guest_workspace"@, Json::Text(fields.guest_workspace))
    &&& reader.holds(
        "default_verification_profile"@,
        Json::Text(fields.default_verification_profile),
    )
    &&& reader.holds("availability"@, Json::Text(availability_word(fields.availability)))
    &&& reader.holds("idle_policy"@, Json::Object(idle_json(fields.idle_policy)->Object_0))
    &&& reader.holds("output_preference"@, Json::Text(output_word(fields.output_preference)))
    &&& reader.holds(
        "remediation_preference"@,
        Json::Text(remediation_word(fields.remediation_preference)),
    )
}

proof fn lemma_holds_fields(reader: &ObjectReader, fields: ConfigFields)
    requires
        reader.holds_all(persisted_json(fields)->Object_0),
    ensures
        holds_fields(reader, fields),
{
    let members = persisted_json(fields)->Object_0;
    let n = generation_members(fields.generation).len() as int;
    let common = common_members(fields);
    assert(members[0] == generation_members(fields.generation)[0]);
    assert forall|i: int| 0 <= i < common.len() implies reader.holds(
        (#[trigger] common[i]).0,
        common[i].1,
    ) by {
        assert(members[n + i] == common[i]);
    }
    assert(reader.holds(common[0].0, common[0].1) && reader.holds(common[1].0, common[1].1));
    assert(reader.holds(common[2].0, common[2].1) && reader.holds(common[3].0, common[3].1));
    assert(reader.holds(common[4].0, common[4].1) && reader.holds(common[5].0, common[5].1));
    assert(reader.holds(common[6].0, common[6].1) && reader.holds(common[7].0, common[7].1));
}

proof fn lemma_idle_keys()
    ensures
        forall|idle: IdleView|
            canonical_json::has_distinct_keys((#[trigger] idle_json(idle))->Object_0),
{
    reveal_strlit("interactive_after_millis");
    reveal_strlit("stopped_after_millis");
    assert("interactive_after_millis"@.len() != "stopped_after_millis"@.len());
}

/// Every key of a persisted document has a length of its own.
proof fn lemma_persisted_keys(fields: ConfigFields)
    ensures
        canonical_json::has_distinct_keys(persisted_json(fields)->Object_0),
{
    reveal_strlit("schema_version");
    reveal_strlit("identity_generation");
    reveal_strlit("state_root");
    reveal_strlit("lima_instance");
    reveal_strlit("guest_workspace");
    reveal_strlit("default_verification_profile");
    reveal_strlit("availability");
    reveal_strlit("idle_policy");
    reveal_strlit("output_preference");
    reveal_strlit("remediation_preference");
    assert("schema_version"@.len() == 14 && "identity_generation"@.len() == 19);
    assert("state_root"@.len() == 10 && "lima_instance"@.len() == 13);
    assert("guest_workspace"@.len() == 15 && "default_verification_profile"@.len() == 28);
    assert("availability"@.len() == 12 && "idle_policy"@.len() == 11);
    assert("output_preference"@.len() == 17 && "remediation_preference"@.len() == 22);
}

/// No bytes are the document of two configurations.
proof fn lemma_written_config(fields: ConfigFields)
    requires
        fields.is_valid(),
    ensures
        written_config(persisted_bytes(fields)) == Some(fields),
{
    let other = written_config(persisted_bytes(fields))->0;
    assert(persisted_bytes(other) == persisted_bytes(fields));
    law_persisted_documents_are_distinct(other, fields);
}

proof fn lemma_written_is_text(bytes: Seq<u8>)
    ensures
        written_config(bytes) matches Some(fields) ==> {
            &&& fields.is_valid()
            &&& persisted_bytes(fields) == bytes
            &&& vstd::utf8::valid_utf8(bytes)
            &&& vstd::utf8::decode_utf8(bytes) == canonical_json::rendered(persisted_json(fields))
            &&& canonical_json::has_distinct_keys(persisted_json(fields)->Object_0)
            &&& persisted_json(fields) == Json::Object(persisted_json(fields)->Object_0)
        },
{
    if let Some(fields) = written_config(bytes) {
        let text = canonical_json::rendered(persisted_json(fields));
        vstd::utf8::encode_utf8_decode_utf8(text);
        vstd::utf8::encode_utf8_valid_utf8(text);
        lemma_persisted_keys(fields);
    }
}

proof fn lemma_written_is_accepted(fields: ConfigFields)
    requires
        fields.is_valid(),
    ensures
        accepted_document(document_of(fields)) == Ok::<_, ConfigErrorView>(fields),
{
    law_every_configuration_fits(fields);
}

/// Decoding what was encoded gives the configuration back, identity included,
/// whatever else the bytes were taken for; and encoding it again gives the same
/// bytes.
pub proof fn law_persisted_round_trip(fields: ConfigFields, parsed: Option<ConfigDocumentView>)
    requires
        fields.is_valid(),
    ensures
        encoded_config(fields) matches Ok(bytes) && {
            &&& decoded_config(bytes, parsed) == Ok::<ConfigFields, ConfigErrorView>(fields)
            &&& config_identity(decoded_config(bytes, parsed)->Ok_0) == config_identity(fields)
            &&& encoded_config(decoded_config(bytes, parsed)->Ok_0) == Ok::<_, ConfigErrorView>(
                bytes,
            )
        },
{
    law_every_configuration_fits(fields);
    lemma_written_config(fields);
}

/// The parsed form of what was encoded is accepted as the same configuration: a
/// reader that finds the written fields agrees with the bytes.
pub proof fn law_parsed_document_agrees(fields: ConfigFields)
    requires
        fields.is_valid(),
    ensures
        accepted_document(document_of(fields)) == Ok::<_, ConfigErrorView>(fields),
        written_config(persisted_bytes(fields)) == Some(fields),
{
    lemma_written_is_accepted(fields);
    lemma_written_config(fields);
}

/// A document whose schema version and generation disagree never decodes:
/// what decodes is of the one generation that both name.
pub proof fn law_generations_do_not_mix(bytes: Seq<u8>, parsed: Option<ConfigDocumentView>)
    requires
        decoded_config(bytes, parsed) is Ok,
    ensures
        ({
            let fields = decoded_config(bytes, parsed)->Ok_0;
            &&& fields.is_valid()
            &&& persisted_bytes(fields) == bytes || (parsed matches Some(document)
                && document.schema_version == generation_schema(fields.generation)
                && document.identity_generation == document_of(fields).identity_generation)
        }),
{
    lemma_written_is_text(bytes);
}

proof fn lemma_words_differ()
    ensures
        forall|a: AvailabilityRequest, b: AvailabilityRequest|
            #![trigger availability_word(a), availability_word(b)]
            availability_word(a) == availability_word(b) ==> a == b,
        forall|a: OperatorOutputPreference, b: OperatorOutputPreference|
            #![trigger output_word(a), output_word(b)]
            output_word(a) == output_word(b) ==> a == b,
        forall|a: OperatorRemediationPreference, b: OperatorRemediationPreference|
            #![trigger remediation_word(a), remediation_word(b)]
            remediation_word(a) == remediation_word(b) ==> a == b,
        identity_document_type(OperatorConfigGeneration::SmolrunnerV1) != identity_document_type(
            OperatorConfigGeneration::GlaedaV2,
        ),
{
    reveal_strlit("active");
    reveal_strlit("away");
    reveal_strlit("off");
    reveal_strlit("auto");
    reveal_strlit("human");
    reveal_strlit("json");
    reveal_strlit("include_suggestions");
    reveal_strlit("codes_only");
    reveal_strlit("smolrunner_operator_config");
    reveal_strlit("glaeda_operator_config");
    assert("active"@.len() == 6 && "away"@.len() == 4 && "off"@.len() == 3 && "auto"@.len() == 4);
    assert("away"@[1] == 'w' && "auto"@[1] == 'u');
    assert("human"@.len() == 5 && "json"@.len() == 4);
    assert("include_suggestions"@.len() == 19 && "codes_only"@.len() == 10);
    assert("smolrunner_operator_config"@[0] == 's' && "glaeda_operator_config"@[0] == 'g');
}

proof fn lemma_common_members(a: ConfigFields, b: ConfigFields)
    requires
        common_members(a) == common_members(b),
        a.generation == b.generation,
    ensures
        a == b,
{
    let x = common_members(a);
    let y = common_members(b);
    lemma_words_differ();
    assert(x[0] == y[0] && x[1] == y[1] && x[2] == y[2] && x[3] == y[3]);
    assert(x[4] == y[4] && x[5] == y[5] && x[6] == y[6] && x[7] == y[7]);
    assert(idle_json(a.idle_policy) == idle_json(b.idle_policy));
    let p = idle_json(a.idle_policy)->Object_0;
    let q = idle_json(b.idle_policy)->Object_0;
    assert(p[0] == q[0] && p[1] == q[1]);
    assert(availability_word(a.availability) == availability_word(b.availability));
    assert(output_word(a.output_preference) == output_word(b.output_preference));
    assert(remediation_word(a.remediation_preference) == remediation_word(
        b.remediation_preference,
    ));
}

proof fn lemma_persisted_members(a: ConfigFields, b: ConfigFields)
    requires
        persisted_json(a) == persisted_json(b),
    ensures
        a == b,
{
    let x = persisted_json(a)->Object_0;
    let y = persisted_json(b)->Object_0;
    assert(x == y);
    assert(x[0] == generation_members(a.generation)[0]);
    assert(y[0] == generation_members(b.generation)[0]);
    assert(a.generation == b.generation);
    let n = generation_members(a.generation).len() as int;
    assert(common_members(a) =~= x.skip(n));
    assert(common_members(b) =~= y.skip(n));
    lemma_common_members(a, b);
}

/// Configurations that differ in any field have different persisted documents.
pub proof fn law_persisted_documents_are_distinct(a: ConfigFields, b: ConfigFields)
    requires
        persisted_bytes(a) == persisted_bytes(b),
    ensures
        a == b,
{
    canonical_json::law_canonical_bytes_are_injective(persisted_json(a), persisted_json(b));
    lemma_persisted_members(a, b);
}

/// Configurations that differ in any field, the generation included, are
/// identified by digests of different documents.
pub proof fn law_identity_covers_every_field(a: ConfigFields, b: ConfigFields)
    requires
        identity_bytes(a) == identity_bytes(b),
    ensures
        a == b,
{
    canonical_json::law_canonical_bytes_are_injective(identity_json(a), identity_json(b));
    let x = identity_json(a)->Object_0;
    let y = identity_json(b)->Object_0;
    assert(x[2] == y[2]);
    lemma_persisted_members(a, b);
}

/// The public summary does not depend on the private paths, but for the
/// identity digest that covers them.
pub proof fn law_summary_hides_private_paths(a: ConfigFields, b: ConfigFields)
    requires
        a == (ConfigFields {
            state_root: a.state_root,
            guest_workspace: a.guest_workspace,
            ..b
        }),
    ensures
        summary_of(a) == (SummaryView { identity: config_identity(a), ..summary_of(b) }),
{
}

/// A private path is absolute and canonical, has no control character, and no
/// more than 1024 bytes.
pub proof fn law_private_paths_are_bounded(path: Seq<char>)
    ensures
        is_private_path(path) <==> {
            &&& vstd::utf8::encode_utf8(path).len() <= 1024
            &&& path.len() > 0 && path[0] == '/'
            &&& forall|i: int|
                0 <= i < path.len() ==> !((#[trigger] path[i] as int) < 32 || 127 <= path[i] as int
                    <= 159)
            &&& forall|k: int|
                0 <= k < scan::split_on(path.skip(1), '/').len() ==> {
                    let segment = #[trigger] scan::split_on(path.skip(1), '/')[k];
                    segment.len() > 0 && segment != "."@ && segment != ".."@
                }
        },
{
    if is_private_path(path) {
        assert forall|i: int| 0 <= i < path.len() implies !((#[trigger] path[i] as int) < 32 || 127
            <= path[i] as int <= 159) by {
            assert(!text::is_control(path[i]));
        }
        assert forall|k: int| 0 <= k < scan::split_on(path.skip(1), '/').len() implies {
            let segment = #[trigger] scan::split_on(path.skip(1), '/')[k];
            segment.len() > 0 && segment != "."@ && segment != ".."@
        } by {
            assert(paths::is_plain_segment(paths::segments(path)[k]));
        }
    }
}

/// Idle thresholds are positive, at most a week, and the machine stops only
/// after it has become interactive.
pub proof fn law_idle_thresholds_are_ordered(idle: IdleView)
    ensures
        idle_refusal(idle) is None <==> 0 < idle.interactive_after_millis
            < idle.stopped_after_millis <= 7 * 24 * 60 * 60 * 1000,
{
}

/// A document is accepted exactly when its schema is that of its generation,
/// its paths and names are valid and its thresholds are in order; everything in
/// it is then taken over as it is.
pub proof fn law_documents_are_accepted_field_by_field(document: ConfigDocumentView)
    ensures
        accepted_document(document) is Ok ==> {
            let fields = accepted_document(document)->Ok_0;
            &&& match document.identity_generation {
                None => document.schema_version == 1 && fields.generation
                    == OperatorConfigGeneration::SmolrunnerV1,
                Some(named) => named == OperatorConfigGeneration::GlaedaV2
                    && document.schema_version == 2 && fields.generation
                    == OperatorConfigGeneration::GlaedaV2,
            }
            &&& is_private_path(document.state_root) && fields.state_root == document.state_root
            &&& operator_names::is_operator_name(document.lima_instance) && fields.lima_instance
                == document.lima_instance
            &&& is_private_path(document.guest_workspace) && fields.guest_workspace
                == document.guest_workspace
            &&& operator_names::is_operator_name(document.default_verification_profile)
                && fields.default_verification_profile == document.default_verification_profile
            &&& fields.availability == document.availability
            &&& idle_refusal(document.idle_policy) is None && fields.idle_policy
                == document.idle_policy
            &&& fields.output_preference == document.output_preference
            &&& fields.remediation_preference == document.remediation_preference
        },
        document.schema_version != 1 && document.schema_version != 2 ==> accepted_document(document)
            is Err,
        document.identity_generation is None && document.schema_version == 2 ==> accepted_document(
            document,
        ) == Err::<ConfigFields, ConfigErrorView>(generation_mismatch()),
        document.identity_generation is Some && document.schema_version == 1 ==> accepted_document(
            document,
        ) == Err::<ConfigFields, ConfigErrorView>(generation_mismatch()),
{
}

/// A document whose every field is valid is accepted.
pub proof fn law_valid_documents_are_accepted(document: ConfigDocumentView)
    requires
        document.identity_generation is None && document.schema_version == 1 || (
        document.identity_generation == Some(OperatorConfigGeneration::GlaedaV2)
            && document.schema_version == 2),
        is_private_path(document.state_root),
        operator_names::is_operator_name(document.lima_instance),
        is_private_path(document.guest_workspace),
        operator_names::is_operator_name(document.default_verification_profile),
        0 < document.idle_policy.interactive_after_millis
            < document.idle_policy.stopped_after_millis <= 604_800_000,
    ensures
        accepted_document(document) is Ok,
{
    let generation = if document.identity_generation is None {
        OperatorConfigGeneration::SmolrunnerV1
    } else {
        OperatorConfigGeneration::GlaedaV2
    };
    law_every_configuration_fits(document_fields(generation, document));
}

/// Documents and identities are bounded by 16384 bytes, and one that is larger
/// is refused unread.
pub proof fn law_configurations_are_bounded(
    bytes: Seq<u8>,
    parsed: Option<ConfigDocumentView>,
    fields: ConfigFields,
)
    ensures
        bytes.len() > 16_384 ==> decoded_config(bytes, parsed) == Err::<
            ConfigFields,
            ConfigErrorView,
        >(document_too_large()),
        constructed(fields) is Ok <==> identity_bytes(fields).len() <= 16_384,
        encoded_config(fields) is Ok <==> persisted_bytes(fields).len() <= 16_384,
{
}

/// A summary tells everything of a configuration but its paths.
pub proof fn law_summaries_tell_the_rest(fields: ConfigFields)
    ensures
        ({
            let summary = summary_of(fields);
            &&& summary.schema_version == (match fields.generation {
                OperatorConfigGeneration::SmolrunnerV1 => 1u8,
                OperatorConfigGeneration::GlaedaV2 => 2u8,
            })
            &&& summary.identity == config_identity(fields)
            &&& summary.identity.schema_version == summary.schema_version
            &&& summary.identity.generation == fields.generation
            &&& summary.lima_instance == fields.lima_instance
            &&& summary.default_verification_profile == fields.default_verification_profile
            &&& summary.availability == fields.availability
            &&& summary.idle_policy == fields.idle_policy
            &&& summary.output_preference == fields.output_preference
            &&& summary.remediation_preference == fields.remediation_preference
        }),
{
}

/// A configuration is written down under fixed names in a fixed order, behind
/// the schema and, since the second one, the generation that it is of.
pub proof fn law_configurations_are_written_under_fixed_names(fields: ConfigFields)
    ensures
        ({
            let json = persisted_json(fields);
            let n: int = match fields.generation {
                OperatorConfigGeneration::SmolrunnerV1 => 1,
                OperatorConfigGeneration::GlaedaV2 => 2,
            };
            &&& canonical_json::has_member(json, 0, "schema_version"@, Json::Number(n as nat))
            &&& n == 2 ==> canonical_json::has_member(
                json,
                1,
                "identity_generation"@,
                Json::Text("glaeda_v2"@),
            )
            &&& canonical_json::has_member(json, n, "state_root"@, Json::Text(fields.state_root))
            &&& canonical_json::has_member(
                json,
                n + 1,
                "lima_instance"@,
                Json::Text(fields.lima_instance),
            )
            &&& canonical_json::has_member(
                json,
                n + 2,
                "guest_workspace"@,
                Json::Text(fields.guest_workspace),
            )
            &&& canonical_json::has_member(
                json,
                n + 3,
                "default_verification_profile"@,
                Json::Text(fields.default_verification_profile),
            )
            &&& canonical_json::has_member(
                json,
                n + 4,
                "availability"@,
                Json::Text(
                    match fields.availability {
                        AvailabilityRequest::Active => "active"@,
                        AvailabilityRequest::Away => "away"@,
                        AvailabilityRequest::Off => "off"@,
                        AvailabilityRequest::Auto => "auto"@,
                    },
                ),
            )
            &&& canonical_json::has_member(
                json,
                n + 6,
                "output_preference"@,
                Json::Text(
                    match fields.output_preference {
                        OperatorOutputPreference::Human => "human"@,
                        OperatorOutputPreference::Json => "json"@,
                    },
                ),
            )
            &&& canonical_json::has_member(
                json,
                n + 7,
                "remediation_preference"@,
                Json::Text(
                    match fields.remediation_preference {
                        OperatorRemediationPreference::IncludeSuggestions =>
                            "include_suggestions"@,
                        OperatorRemediationPreference::CodesOnly => "codes_only"@,
                    },
                ),
            )
            &&& json->Object_0.len() == n + 8
        }),
{
}

} // verus!
