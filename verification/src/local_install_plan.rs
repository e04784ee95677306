//! Planning of one local install: source and generation identities, the next
//! build, and where the stable launcher has to point.
use vstd::prelude::*;

use crate::artifact;
use crate::artifact::{CommitId, GitTreeId, Sha256Digest};
use crate::canonical_json;
use crate::canonical_json::{Json, ObjectWriter};
use crate::outcome;
use crate::text;

verus! {

pub const LOCAL_INSTALL_PLAN_SCHEMA_VERSION: u8 = 2;

pub const MAX_RETAINED_LOCAL_INSTALL_GENERATIONS: usize = 1;

pub const MAX_LOCAL_INSTALL_TOOLCHAIN_BYTES: usize = 128;

pub const MAX_LOCAL_INSTALL_VERSION_BYTES: usize = 128;

pub const MAX_LAUNCHER_OBSERVATIONS: usize = 4;

/// Closed identity generation for local self-install source, build, and installed evidence.
#[derive(Debug, Clone, Copy, PartialEq, Eq, Structural, PartialOrd, Ord)]
pub enum LocalInstallIdentityGeneration {
    SmolrunnerV1,
    GlaedaV2,
}

impl LocalInstallIdentityGeneration {
    pub const CURRENT: LocalInstallIdentityGeneration = LocalInstallIdentityGeneration::GlaedaV2;

    pub open spec fn name(self) -> Seq<char> {
        match self {
            LocalInstallIdentityGeneration::SmolrunnerV1 => "smolrunner_v1"@,
            LocalInstallIdentityGeneration::GlaedaV2 => "glaeda_v2"@,
        }
    }

    /// The stable name under which documents record the generation.
    pub fn as_str(self) -> (name: &'static str)
        ensures
            name@ == self.name(),
    {
        match self {
            LocalInstallIdentityGeneration::SmolrunnerV1 => "smolrunner_v1",
            LocalInstallIdentityGeneration::GlaedaV2 => "glaeda_v2",
        }
    }
}

#[derive(Debug, Clone, Copy, PartialEq, Eq, Structural)]
pub enum LocalInstallPlanErrorKind {
    InvalidToolchain,
    InvalidBinaryVersion,
    IdentityEncodingFailed,
    RetainedGenerationLimit,
    DuplicateGenerationIdentity,
    GenerationExhausted,
    BuildEvidenceConflict,
    TooManyLauncherObservations,
    InvalidLauncherObservation,
    DuplicateLauncherLocation,
    DuplicatePathRank,
    UnsupportedLauncherLocation,
    ForeignLauncher,
    UnknownLauncher,
    UnsafeLauncherLocation,
    NoApprovedLauncherLocation,
    RollbackTargetUnavailable,
    MissingAcceptedGeneration,
}

#[derive(Debug, Clone, PartialEq, Eq)]
pub struct LocalInstallPlanError {
    pub kind: LocalInstallPlanErrorKind,
    pub code: &'static str,
    pub problem: &'static str,
}

pub struct PlanErrorView {
    pub kind: LocalInstallPlanErrorKind,
    pub code: Seq<char>,
    pub problem: Seq<char>,
}

impl View for LocalInstallPlanError {
    type V = PlanErrorView;

    open spec fn view(&self) -> PlanErrorView {
        PlanErrorView { kind: self.kind, code: self.code@, problem: self.problem@ }
    }
}

pub open spec fn plan_error(
    kind: LocalInstallPlanErrorKind,
    code: Seq<char>,
    problem: Seq<char>,
) -> PlanErrorView {
    PlanErrorView { kind, code, problem }
}

fn error(
    kind: LocalInstallPlanErrorKind,
    code: &'static str,
    problem: &'static str,
) -> (e: LocalInstallPlanError)
    ensures
        e@ == plan_error(kind, code@, problem@),
{
    LocalInstallPlanError { kind, code, problem }
}

pub open spec fn is_toolchain_char(c: char) -> bool {
    '0' <= c <= '9' || 'a' <= c <= 'z' || 'A' <= c <= 'Z' || c == '.' || c == '_' || c == '+' || c
        == '-'
}

/// A bounded toolchain name over a fixed token vocabulary.
pub open spec fn is_toolchain(value: Seq<char>) -> bool {
    0 < value.len() <= MAX_LOCAL_INSTALL_TOOLCHAIN_BYTES && forall|i: int|
        0 <= i < value.len() ==> is_toolchain_char(#[trigger] value[i])
}

/// A bounded nonempty run of printable ASCII.
pub open spec fn is_binary_version(value: Seq<char>) -> bool {
    0 < value.len() <= MAX_LOCAL_INSTALL_VERSION_BYTES && forall|i: int|
        0 <= i < value.len() ==> ' ' <= #[trigger] value[i] <= '~'
}

#[derive(Debug, PartialEq, Eq, PartialOrd, Ord)]
pub struct LocalInstallToolchainIdentity(String);

impl View for LocalInstallToolchainIdentity {
    type V = Seq<char>;

    closed spec fn view(&self) -> Seq<char> {
        self.0@
    }
}

impl Clone for LocalInstallToolchainIdentity {
    fn clone(&self) -> (copy: Self)
        ensures
            copy@ == self@,
    {
        LocalInstallToolchainIdentity(self.0.clone())
    }
}

pub open spec fn invalid_toolchain() -> PlanErrorView {
    plan_error(
        LocalInstallPlanErrorKind::InvalidToolchain,
        "invalid_toolchain"@,
        "local install toolchain identity is invalid"@,
    )
}

impl LocalInstallToolchainIdentity {
    /// Parse one bounded toolchain identity used to bind a local binary build.
    pub fn parse(value: &str) -> (r: Result<Self, LocalInstallPlanError>)
        ensures
            outcome::is_outcome(
                r,
                if is_toolchain(value@) {
                    Ok(value@)
                } else {
                    Err(invalid_toolchain())
                },
            ),
    {
        let chars = text::chars_of(value);
        let mut valid = chars.len() > 0 && chars.len() <= MAX_LOCAL_INSTALL_TOOLCHAIN_BYTES;
        let mut i: usize = 0;
        while i < chars.len() && valid
            invariant
                i <= chars@.len(),
                valid ==> 0 < chars@.len() <= MAX_LOCAL_INSTALL_TOOLCHAIN_BYTES,
                valid ==> forall|k: int| 0 <= k < i ==> is_toolchain_char(#[trigger] chars@[k]),
                !valid ==> !is_toolchain(chars@),
            decreases chars@.len() - i,
        {
            let c = chars[i];
            valid = ('0' <= c && c <= '9') || ('a' <= c && c <= 'z') || ('A' <= c && c <= 'Z') || c
                == '.' || c == '_' || c == '+' || c == '-';
            assert(valid == is_toolchain_char(chars@[i as int]));
            i += 1;
        }
        if valid {
            Ok(LocalInstallToolchainIdentity(value.to_owned()))
        } else {
            Err(
                error(
                    LocalInstallPlanErrorKind::InvalidToolchain,
                    "invalid_toolchain",
                    "local install toolchain identity is invalid",
                ),
            )
        }
    }

    pub fn as_str(&self) -> (value: &str)
        ensures
            value@ == self@,
    {
        self.0.as_str()
    }
}

#[derive(Debug, PartialEq, Eq)]
pub struct LocalInstallSourceIdentity {
    identity_generation: LocalInstallIdentityGeneration,
    commit: CommitId,
    tree: GitTreeId,
    cargo_lock_digest: Sha256Digest,
    toolchain: LocalInstallToolchainIdentity,
    digest: Sha256Digest,
}

pub struct SourceView {
    pub identity_generation: LocalInstallIdentityGeneration,
    pub commit: Seq<char>,
    pub tree: Seq<char>,
    pub cargo_lock_digest: Seq<char>,
    pub toolchain: Seq<char>,
    pub digest: Seq<char>,
}

impl View for LocalInstallSourceIdentity {
    type V = SourceView;

    closed spec fn view(&self) -> SourceView {
        SourceView {
            identity_generation: self.identity_generation,
            commit: self.commit@,
            tree: self.tree@,
            cargo_lock_digest: self.cargo_lock_digest@,
            toolchain: self.toolchain@,
            digest: self.digest@,
        }
    }
}

impl Clone for LocalInstallSourceIdentity {
    fn clone(&self) -> (copy: Self)
        ensures
            copy@ == self@,
    {
        LocalInstallSourceIdentity {
            identity_generation: self.identity_generation,
            commit: self.commit.clone(),
            tree: self.tree.clone(),
            cargo_lock_digest: self.cargo_lock_digest.clone(),
            toolchain: self.toolchain.clone(),
            digest: self.digest.clone(),
        }
    }
}

/// The evidence members that every source document holds, in order.
pub open spec fn source_evidence(
    commit: Seq<char>,
    tree: Seq<char>,
    cargo_lock_digest: Seq<char>,
    toolchain: Seq<char>,
) -> Seq<(Seq<char>, Json)> {
    seq![
        ("commit"@, Json::Text(commit)),
        ("tree"@, Json::Text(tree)),
        ("cargo_lock_digest"@, Json::Text(cargo_lock_digest)),
        ("toolchain"@, Json::Text(toolchain)),
    ]
}

/// The document whose digest identifies a source.
pub open spec fn source_document(
    generation: LocalInstallIdentityGeneration,
    commit: Seq<char>,
    tree: Seq<char>,
    cargo_lock_digest: Seq<char>,
    toolchain: Seq<char>,
) -> Json {
    let evidence = source_evidence(commit, tree, cargo_lock_digest, toolchain);
    match generation {
        LocalInstallIdentityGeneration::SmolrunnerV1 => Json::Object(evidence),
        LocalInstallIdentityGeneration::GlaedaV2 => Json::Object(
            seq![
                ("schema_version"@, Json::Number(LOCAL_INSTALL_PLAN_SCHEMA_VERSION as nat)),
                ("identity_generation"@, Json::Text(generation.name())),
            ] + evidence,
        ),
    }
}

pub open spec fn source_domain(generation: LocalInstallIdentityGeneration) -> Seq<char> {
    match generation {
        LocalInstallIdentityGeneration::SmolrunnerV1 => "smolrunner-local-install-source-v1\0"@,
        LocalInstallIdentityGeneration::GlaedaV2 => "glaeda-local-install-source-v2\0"@,
    }
}

/// The digest of a document under its domain.
pub open spec fn domain_digest(domain: Seq<char>, document: Json) -> Seq<char> {
    artifact::digest_text(vstd::utf8::encode_utf8(domain + canonical_json::rendered(document)))
}

pub open spec fn source_digest(
    generation: LocalInstallIdentityGeneration,
    commit: Seq<char>,
    tree: Seq<char>,
    cargo_lock_digest: Seq<char>,
    toolchain: Seq<char>,
) -> Seq<char> {
    domain_digest(
        source_domain(generation),
        source_document(generation, commit, tree, cargo_lock_digest, toolchain),
    )
}

/// The source identity over the given evidence.
pub open spec fn bound_source(
    generation: LocalInstallIdentityGeneration,
    commit: Seq<char>,
    tree: Seq<char>,
    cargo_lock_digest: Seq<char>,
    toolchain: Seq<char>,
) -> SourceView {
    SourceView {
        identity_generation: generation,
        commit,
        tree,
        cargo_lock_digest,
        toolchain,
        digest: source_digest(generation, commit, tree, cargo_lock_digest, toolchain),
    }
}

fn canonical_digest(domain: &str, document: &str, Ghost(json): Ghost<Json>) -> (digest: Sha256Digest)
    requires
        document@ == canonical_json::rendered(json),
    ensures
        digest@ == domain_digest(domain@, json),
        artifact::is_sha256(digest@),
{
    let preimage = text::joined(domain, document);
    Sha256Digest::of_bytes(preimage.as_str().as_bytes())
}

fn write_source_evidence(
    writer: &mut ObjectWriter,
    commit: &CommitId,
    tree: &GitTreeId,
    cargo_lock_digest: &Sha256Digest,
    toolchain: &LocalInstallToolchainIdentity,
)
    requires
        old(writer).wf(),
    ensures
        final(writer).wf(),
        final(writer).members() == old(writer).members() + source_evidence(
            commit@,
            tree@,
            cargo_lock_digest@,
            toolchain@,
        ),
{
    let ghost before = writer.members();
    writer.string("commit", commit.as_str());
    writer.string("tree", tree.as_str());
    writer.string("cargo_lock_digest", cargo_lock_digest.as_str());
    writer.string("toolchain", toolchain.as_str());
    assert(writer.members() =~= before + source_evidence(
        commit@,
        tree@,
        cargo_lock_digest@,
        toolchain@,
    ));
}

impl LocalInstallSourceIdentity {
    /// Bind exact checkout, lockfile, and toolchain evidence to one canonical source identity.
    pub fn new(
        commit: CommitId,
        tree: GitTreeId,
        cargo_lock_digest: Sha256Digest,
        toolchain: LocalInstallToolchainIdentity,
    ) -> (r: Result<Self, LocalInstallPlanError>)
        ensures
            outcome::is_outcome(
                r,
                Ok(
                    bound_source(
                        LocalInstallIdentityGeneration::GlaedaV2,
                        commit@,
                        tree@,
                        cargo_lock_digest@,
                        toolchain@,
                    ),
                ),
            ),
    {
        Self::with_identity_generation(
            LocalInstallIdentityGeneration::GlaedaV2,
            commit,
            tree,
            cargo_lock_digest,
            toolchain,
        )
    }

    /// Reproduce one exact retained local-install source identity generation.
    ///
    /// Fresh planning uses [`Self::new`]. The legacy generation exists only for exact historical
    /// recovery evidence and cannot be inferred from a repository name or existing digest.
    pub fn with_identity_generation(
        identity_generation: LocalInstallIdentityGeneration,
        commit: CommitId,
        tree: GitTreeId,
        cargo_lock_digest: Sha256Digest,
        toolchain: LocalInstallToolchainIdentity,
    ) -> (r: Result<Self, LocalInstallPlanError>)
        ensures
            outcome::is_outcome(
                r,
                Ok(
                    bound_source(
                        identity_generation,
                        commit@,
                        tree@,
                        cargo_lock_digest@,
                        toolchain@,
                    ),
                ),
            ),
    {
        let ghost json = source_document(
            identity_generation,
            commit@,
            tree@,
            cargo_lock_digest@,
            toolchain@,
        );
        let mut writer = ObjectWriter::new();
        let digest = match identity_generation {
            LocalInstallIdentityGeneration::SmolrunnerV1 => {
                write_source_evidence(&mut writer, &commit, &tree, &cargo_lock_digest, &toolchain);
                assert(Json::Object(writer.members()) == json) by {
                    assert(writer.members() =~= source_evidence(
                        commit@,
                        tree@,
                        cargo_lock_digest@,
                        toolchain@,
                    ));
                }
                let document = writer.finish();
                canonical_digest(
                    "smolrunner-local-install-source-v1\0",
                    document.as_str(),
                    Ghost(json),
                )
            },
            LocalInstallIdentityGeneration::GlaedaV2 => {
                writer.number("schema_version", LOCAL_INSTALL_PLAN_SCHEMA_VERSION as u64);
                writer.string("identity_generation", identity_generation.as_str());
                write_source_evidence(&mut writer, &commit, &tree, &cargo_lock_digest, &toolchain);
                assert(Json::Object(writer.members()) == json) by {
                    assert(writer.members() =~= seq![
                        ("schema_version"@, Json::Number(LOCAL_INSTALL_PLAN_SCHEMA_VERSION as nat)),
                        ("identity_generation"@, Json::Text(identity_generation.name())),
                    ] + source_evidence(commit@, tree@, cargo_lock_digest@, toolchain@));
                }
                let document = writer.finish();
                canonical_digest(
                    "glaeda-local-install-source-v2\0",
                    document.as_str(),
                    Ghost(json),
                )
            },
        };
        Ok(
            LocalInstallSourceIdentity {
                identity_generation,
                commit,
                tree,
                cargo_lock_digest,
                toolchain,
                digest,
            },
        )
    }

    pub fn identity_generation(&self) -> (r: LocalInstallIdentityGeneration)
        ensures
            r == self@.identity_generation,
    {
        self.identity_generation
    }

    pub fn commit(&self) -> (r: &CommitId)
        ensures
            r@ == self@.commit,
    {
        &self.commit
    }

    pub fn tree(&self) -> (r: &GitTreeId)
        ensures
            r@ == self@.tree,
    {
        &self.tree
    }

    pub fn cargo_lock_digest(&self) -> (r: &Sha256Digest)
        ensures
            r@ == self@.cargo_lock_digest,
    {
        &self.cargo_lock_digest
    }

    pub fn toolchain(&self) -> (r: &LocalInstallToolchainIdentity)
        ensures
            r@ == self@.toolchain,
    {
        &self.toolchain
    }

    pub fn digest(&self) -> (r: &Sha256Digest)
        ensures
            r@ == self@.digest,
    {
        &self.digest
    }

    pub fn same_as(&self, other: &Self) -> (same: bool)
        ensures
            same == (self@ == other@),
    {
        self.identity_generation == other.identity_generation && text::same_text(
            self.commit.as_str(),
            other.commit.as_str(),
        ) && text::same_text(self.tree.as_str(), other.tree.as_str())
            && self.cargo_lock_digest.same_as(&other.cargo_lock_digest) && text::same_text(
            self.toolchain.as_str(),
            other.toolchain.as_str(),
        ) && self.digest.same_as(&other.digest)
    }
}

#[derive(Debug, PartialEq, Eq, PartialOrd, Ord)]
pub struct LocalInstallGenerationIdentity {
    pub number: u64,
    pub digest: Sha256Digest,
}

pub struct IdentityView {
    pub number: u64,
    pub digest: Seq<char>,
}

impl View for LocalInstallGenerationIdentity {
    type V = IdentityView;

    open spec fn view(&self) -> IdentityView {
        IdentityView { number: self.number, digest: self.digest@ }
    }
}

impl Clone for LocalInstallGenerationIdentity {
    fn clone(&self) -> (copy: Self)
        ensures
            copy@ == self@,
    {
        LocalInstallGenerationIdentity { number: self.number, digest: self.digest.clone() }
    }
}

impl LocalInstallGenerationIdentity {
    pub fn same_as(&self, other: &Self) -> (same: bool)
        ensures
            same == (self@ == other@),
    {
        self.number == other.number && self.digest.same_as(&other.digest)
    }
}

/// A copy of an optional identity.
pub fn copied_identity(identity: &Option<LocalInstallGenerationIdentity>) -> (copy: Option<
    LocalInstallGenerationIdentity,
>)
    ensures
        outcome::option_view(copy) == outcome::option_view(*identity),
{
    match identity {
        Some(value) => Some(value.clone()),
        None => None,
    }
}

/// Whether two optional identities name the same generation, or both none.
pub fn same_identity(
    left: &Option<LocalInstallGenerationIdentity>,
    right: &Option<LocalInstallGenerationIdentity>,
) -> (same: bool)
    ensures
        same == (outcome::option_view(*left) == outcome::option_view(*right)),
{
    match (left, right) {
        (Some(a), Some(b)) => a.same_as(b),
        (None, None) => true,
        _ => false,
    }
}

#[derive(Debug, PartialEq, Eq)]
pub struct InstalledLocalBinaryGeneration {
    pub identity: LocalInstallGenerationIdentity,
    pub predecessor: Option<LocalInstallGenerationIdentity>,
    pub source: LocalInstallSourceIdentity,
    pub binary_digest: Sha256Digest,
    pub binary_version: String,
}

pub struct GenerationView {
    pub identity: IdentityView,
    pub predecessor: Option<IdentityView>,
    pub source: SourceView,
    pub binary_digest: Seq<char>,
    pub binary_version: Seq<char>,
}

impl View for InstalledLocalBinaryGeneration {
    type V = GenerationView;

    open spec fn view(&self) -> GenerationView {
        GenerationView {
            identity: self.identity@,
            predecessor: outcome::option_view(self.predecessor),
            source: self.source@,
            binary_digest: self.binary_digest@,
            binary_version: self.binary_version@,
        }
    }
}

impl Clone for InstalledLocalBinaryGeneration {
    fn clone(&self) -> (copy: Self)
        ensures
            copy@ == self@,
    {
        InstalledLocalBinaryGeneration {
            identity: self.identity.clone(),
            predecessor: copied_identity(&self.predecessor),
            source: self.source.clone(),
            binary_digest: self.binary_digest.clone(),
            binary_version: self.binary_version.clone(),
        }
    }
}

impl InstalledLocalBinaryGeneration {
    pub fn same_as(&self, other: &Self) -> (same: bool)
        ensures
            same == (self@ == other@),
    {
        self.identity.same_as(&other.identity) && same_identity(
            &self.predecessor,
            &other.predecessor,
        ) && self.source.same_as(&other.source) && self.binary_digest.same_as(&other.binary_digest)
            && self.binary_version == other.binary_version
    }
}

#[derive(Debug, PartialEq, Eq)]
pub struct LocalInstallState {
    pub accepted: Option<InstalledLocalBinaryGeneration>,
    pub retained: Vec<InstalledLocalBinaryGeneration>,
}

pub struct StateView {
    pub accepted: Option<GenerationView>,
    pub retained: Seq<GenerationView>,
}

impl View for LocalInstallState {
    type V = StateView;

    open spec fn view(&self) -> StateView {
        StateView {
            accepted: outcome::option_view(self.accepted),
            retained: outcome::seq_view(self.retained@),
        }
    }
}

/// What [`LocalInstallState::new`] answers: at most one retained generation,
/// and it is not the accepted one.
pub open spec fn bounded_state(
    accepted: Option<GenerationView>,
    retained: Seq<GenerationView>,
) -> Result<StateView, PlanErrorView> {
    if retained.len() > MAX_RETAINED_LOCAL_INSTALL_GENERATIONS {
        Err(
            plan_error(
                LocalInstallPlanErrorKind::RetainedGenerationLimit,
                "retained_generation_limit"@,
                "local install retained-generation limit was exceeded"@,
            ),
        )
    } else if retained.len() == 1 && accepted is Some && accepted->0.identity
        == retained[0].identity {
        Err(
            plan_error(
                LocalInstallPlanErrorKind::DuplicateGenerationIdentity,
                "duplicate_generation_identity"@,
                "local install state contains a duplicate generation identity"@,
            ),
        )
    } else {
        Ok(StateView { accepted, retained })
    }
}

impl Clone for LocalInstallState {
    fn clone(&self) -> (copy: Self)
        ensures
            copy@ == self@,
    {
        let accepted = match &self.accepted {
            Some(value) => Some(value.clone()),
            None => None,
        };
        let mut retained: Vec<InstalledLocalBinaryGeneration> = Vec::new();
        let mut i: usize = 0;
        while i < self.retained.len()
            invariant
                i <= self.retained@.len(),
                outcome::seq_view(retained@) == outcome::seq_view(self.retained@.take(i as int)),
            decreases self.retained@.len() - i,
        {
            retained.push(self.retained[i].clone());
            i += 1;
            assert(outcome::seq_view(retained@) =~= outcome::seq_view(
                self.retained@.take(i as int - 1),
            ).push(self.retained@[i as int - 1]@));
            assert(outcome::seq_view(retained@) =~= outcome::seq_view(self.retained@.take(i as int)));
        }
        assert(self.retained@.take(i as int) =~= self.retained@);
        LocalInstallState { accepted, retained }
    }
}

impl LocalInstallState {
    /// Construct bounded accepted and retained local-install state.
    pub fn new(
        accepted: Option<InstalledLocalBinaryGeneration>,
        retained: Vec<InstalledLocalBinaryGeneration>,
    ) -> (r: Result<Self, LocalInstallPlanError>)
        ensures
            outcome::is_outcome(
                r,
                bounded_state(outcome::option_view(accepted), outcome::seq_view(retained@)),
            ),
    {
        if retained.len() > MAX_RETAINED_LOCAL_INSTALL_GENERATIONS {
            return Err(
                error(
                    LocalInstallPlanErrorKind::RetainedGenerationLimit,
                    "retained_generation_limit",
                    "local install retained-generation limit was exceeded",
                ),
            );
        }
        if retained.len() == 1 {
            if let Some(current) = &accepted {
                if current.identity.same_as(&retained[0].identity) {
                    return Err(
                        error(
                            LocalInstallPlanErrorKind::DuplicateGenerationIdentity,
                            "duplicate_generation_identity",
                            "local install state contains a duplicate generation identity",
                        ),
                    );
                }
            }
        }
        Ok(LocalInstallState { accepted, retained })
    }
}

#[derive(Debug, Clone, Copy, PartialEq, Eq, Structural)]
pub enum LocalInstallPlatform {
    Macos,
    Linux,
}

#[derive(Debug, Clone, Copy, PartialEq, Eq, Structural, PartialOrd, Ord)]
pub enum LauncherLocationClass {
    HomeLocalBin,
    HomeBin,
    HomebrewBin,
    UsrLocalBin,
}

#[derive(Debug, Clone, Copy, PartialEq, Eq, Structural)]
pub enum LauncherDirectoryDisposition {
    ReadyUserOwned,
    NeedsElevation,
    Unsafe,
    Unavailable,
}

#[derive(Debug, PartialEq, Eq)]
pub enum LauncherEntryDisposition {
    Absent,
    Owned { generation_digest: Sha256Digest },
    Foreign,
    Unknown,
}

pub enum EntryView {
    Absent,
    Owned { generation_digest: Seq<char> },
    Foreign,
    Unknown,
}

impl View for LauncherEntryDisposition {
    type V = EntryView;

    open spec fn view(&self) -> EntryView {
        match self {
            LauncherEntryDisposition::Absent => EntryView::Absent,
            LauncherEntryDisposition::Owned { generation_digest } => EntryView::Owned {
                generation_digest: generation_digest@,
            },
            LauncherEntryDisposition::Foreign => EntryView::Foreign,
            LauncherEntryDisposition::Unknown => EntryView::Unknown,
        }
    }
}

impl Clone for LauncherEntryDisposition {
    fn clone(&self) -> (copy: Self)
        ensures
            copy@ == self@,
    {
        match self {
            LauncherEntryDisposition::Absent => LauncherEntryDisposition::Absent,
            LauncherEntryDisposition::Owned { generation_digest } => {
                LauncherEntryDisposition::Owned { generation_digest: generation_digest.clone() }
            },
            LauncherEntryDisposition::Foreign => LauncherEntryDisposition::Foreign,
            LauncherEntryDisposition::Unknown => LauncherEntryDisposition::Unknown,
        }
    }
}

#[derive(Debug, PartialEq, Eq)]
pub struct LauncherLocationObservation {
    pub location: LauncherLocationClass,
    pub in_path: bool,
    pub path_rank: Option<u16>,
    pub directory: LauncherDirectoryDisposition,
    pub entry: LauncherEntryDisposition,
}

pub struct ObservationView {
    pub location: LauncherLocationClass,
    pub in_path: bool,
    pub path_rank: Option<u16>,
    pub directory: LauncherDirectoryDisposition,
    pub entry: EntryView,
}

impl View for LauncherLocationObservation {
    type V = ObservationView;

    open spec fn view(&self) -> ObservationView {
        ObservationView {
            location: self.location,
            in_path: self.in_path,
            path_rank: self.path_rank,
            directory: self.directory,
            entry: self.entry@,
        }
    }
}

impl Clone for LauncherLocationObservation {
    fn clone(&self) -> (copy: Self)
        ensures
            copy@ == self@,
    {
        LauncherLocationObservation {
            location: self.location,
            in_path: self.in_path,
            path_rank: self.path_rank,
            directory: self.directory,
            entry: self.entry.clone(),
        }
    }
}

pub open spec fn invalid_observation(problem: Seq<char>) -> PlanErrorView {
    plan_error(
        LocalInstallPlanErrorKind::InvalidLauncherObservation,
        "invalid_launcher_observation"@,
        problem,
    )
}

/// A rank exactly where the location is in PATH, and an entry only where the
/// location is in PATH and its directory available.
pub open spec fn is_consistent_observation(o: ObservationView) -> bool {
    &&& o.in_path == (o.path_rank is Some)
    &&& !o.in_path ==> o.entry is Absent
    &&& o.directory == LauncherDirectoryDisposition::Unavailable ==> o.entry is Absent
}

impl LauncherLocationObservation {
    /// Construct one symbolic observation for an approved launcher location.
    pub fn new(
        location: LauncherLocationClass,
        in_path: bool,
        path_rank: Option<u16>,
        directory: LauncherDirectoryDisposition,
        entry: LauncherEntryDisposition,
    ) -> (r: Result<Self, LocalInstallPlanError>)
        ensures
            ({
                let observation = ObservationView {
                    location,
                    in_path,
                    path_rank,
                    directory,
                    entry: entry@,
                };
                outcome::is_outcome(
                    r,
                    if is_consistent_observation(observation) {
                        Ok(observation)
                    } else {
                        Err(
                            invalid_observation(
                                "approved launcher observation is internally inconsistent"@,
                            ),
                        )
                    },
                )
            }),
    {
        let absent = matches!(entry, LauncherEntryDisposition::Absent);
        if in_path != path_rank.is_some() || (!in_path && !absent) || (directory
            == LauncherDirectoryDisposition::Unavailable && !absent) {
            return Err(
                error(
                    LocalInstallPlanErrorKind::InvalidLauncherObservation,
                    "invalid_launcher_observation",
                    "approved launcher observation is internally inconsistent",
                ),
            );
        }
        Ok(LauncherLocationObservation { location, in_path, path_rank, directory, entry })
    }
}

#[derive(Debug, PartialEq, Eq)]
pub struct LocalInstallBuildPlan {
    pub target_generation: u64,
    pub expected_predecessor: Option<LocalInstallGenerationIdentity>,
    pub source: LocalInstallSourceIdentity,
}

pub struct BuildPlanView {
    pub target_generation: u64,
    pub expected_predecessor: Option<IdentityView>,
    pub source: SourceView,
}

impl View for LocalInstallBuildPlan {
    type V = BuildPlanView;

    open spec fn view(&self) -> BuildPlanView {
        BuildPlanView {
            target_generation: self.target_generation,
            expected_predecessor: outcome::option_view(self.expected_predecessor),
            source: self.source@,
        }
    }
}

impl Clone for LocalInstallBuildPlan {
    fn clone(&self) -> (copy: Self)
        ensures
            copy@ == self@,
    {
        LocalInstallBuildPlan {
            target_generation: self.target_generation,
            expected_predecessor: copied_identity(&self.expected_predecessor),
            source: self.source.clone(),
        }
    }
}

#[derive(Debug, PartialEq, Eq)]
pub struct BuiltLocalBinaryEvidence {
    pub source_digest: Sha256Digest,
    pub predecessor: Option<LocalInstallGenerationIdentity>,
    pub binary_digest: Sha256Digest,
    pub binary_version: String,
}

pub struct EvidenceView {
    pub source_digest: Seq<char>,
    pub predecessor: Option<IdentityView>,
    pub binary_digest: Seq<char>,
    pub binary_version: Seq<char>,
}

impl View for BuiltLocalBinaryEvidence {
    type V = EvidenceView;

    open spec fn view(&self) -> EvidenceView {
        EvidenceView {
            source_digest: self.source_digest@,
            predecessor: outcome::option_view(self.predecessor),
            binary_digest: self.binary_digest@,
            binary_version: self.binary_version@,
        }
    }
}

impl Clone for BuiltLocalBinaryEvidence {
    fn clone(&self) -> (copy: Self)
        ensures
            copy@ == self@,
    {
        BuiltLocalBinaryEvidence {
            source_digest: self.source_digest.clone(),
            predecessor: copied_identity(&self.predecessor),
            binary_digest: self.binary_digest.clone(),
            binary_version: self.binary_version.clone(),
        }
    }
}

pub open spec fn invalid_binary_version() -> PlanErrorView {
    plan_error(
        LocalInstallPlanErrorKind::InvalidBinaryVersion,
        "invalid_binary_version"@,
        "local install binary version is invalid"@,
    )
}

/// Whether `value` is a bounded nonempty run of printable ASCII.
pub fn valid_binary_version(value: &str) -> (valid: bool)
    ensures
        valid == is_binary_version(value@),
{
    let chars = text::chars_of(value);
    if chars.len() == 0 || chars.len() > MAX_LOCAL_INSTALL_VERSION_BYTES {
        return false;
    }
    let mut i: usize = 0;
    while i < chars.len()
        invariant
            i <= chars@.len(),
            chars@ == value@,
            forall|k: int| 0 <= k < i ==> ' ' <= #[trigger] chars@[k] <= '~',
        decreases chars@.len() - i,
    {
        if !(' ' <= chars[i] && chars[i] <= '~') {
            assert(!(' ' <= value@[i as int] <= '~'));
            return false;
        }
        i += 1;
    }
    true
}

impl BuiltLocalBinaryEvidence {
    /// Construct bounded reviewed build evidence.
    pub fn new(
        source_digest: Sha256Digest,
        predecessor: Option<LocalInstallGenerationIdentity>,
        binary_digest: Sha256Digest,
        binary_version: &str,
    ) -> (r: Result<Self, LocalInstallPlanError>)
        ensures
            outcome::is_outcome(
                r,
                if is_binary_version(binary_version@) {
                    Ok(
                        EvidenceView {
                            source_digest: source_digest@,
                            predecessor: outcome::option_view(predecessor),
                            binary_digest: binary_digest@,
                            binary_version: binary_version@,
                        },
                    )
                } else {
                    Err(invalid_binary_version())
                },
            ),
    {
        if !valid_binary_version(binary_version) {
            return Err(
                error(
                    LocalInstallPlanErrorKind::InvalidBinaryVersion,
                    "invalid_binary_version",
                    "local install binary version is invalid",
                ),
            );
        }
        Ok(
            BuiltLocalBinaryEvidence {
                source_digest,
                predecessor,
                binary_digest,
                binary_version: binary_version.to_owned(),
            },
        )
    }
}

#[derive(Debug, Clone, PartialEq, Eq)]
pub struct LauncherSwitchPlan {
    pub target_generation: LocalInstallGenerationIdentity,
    pub location: LauncherLocationClass,
}

#[allow(inconsistent_fields)]
#[derive(Debug, Clone, PartialEq, Eq)]
pub enum LocalInstallDecision {
    BuildRequired { plan: LocalInstallBuildPlan },
    SwitchLauncher { plan: LauncherSwitchPlan },
    Satisfied { generation: LocalInstallGenerationIdentity, location: LauncherLocationClass },
    ElevationRequired { generation: LocalInstallGenerationIdentity, location: LauncherLocationClass },
}

pub enum DecisionView {
    BuildRequired { plan: BuildPlanView },
    SwitchLauncher { target_generation: IdentityView, location: LauncherLocationClass },
    Satisfied { generation: IdentityView, location: LauncherLocationClass },
    ElevationRequired { generation: IdentityView, location: LauncherLocationClass },
}

impl View for LocalInstallDecision {
    type V = DecisionView;

    open spec fn view(&self) -> DecisionView {
        match self {
            LocalInstallDecision::BuildRequired { plan } => DecisionView::BuildRequired {
                plan: plan@,
            },
            LocalInstallDecision::SwitchLauncher { plan } => DecisionView::SwitchLauncher {
                target_generation: plan.target_generation@,
                location: plan.location,
            },
            LocalInstallDecision::Satisfied { generation, location } => DecisionView::Satisfied {
                generation: generation@,
                location: *location,
            },
            LocalInstallDecision::ElevationRequired { generation, location } => {
                DecisionView::ElevationRequired { generation: generation@, location: *location }
            },
        }
    }
}

#[derive(Debug, Clone, PartialEq, Eq)]
pub struct LocalInstallRollbackPlan {
    pub from: LocalInstallGenerationIdentity,
    pub to: LocalInstallGenerationIdentity,
    pub launcher: RollbackLauncherRequirement,
}

pub struct RollbackView {
    pub from: IdentityView,
    pub to: IdentityView,
    pub launcher: RollbackLauncherRequirement,
}

impl View for LocalInstallRollbackPlan {
    type V = RollbackView;

    open spec fn view(&self) -> RollbackView {
        RollbackView { from: self.from@, to: self.to@, launcher: self.launcher }
    }
}

#[derive(Debug, Clone, Copy, PartialEq, Eq, Structural)]
pub enum RollbackLauncherRequirement {
    AlreadyPointsToTarget { location: LauncherLocationClass },
    Switch { location: LauncherLocationClass },
    Elevation { location: LauncherLocationClass },
}

/// What [`plan_local_install`] answers.
pub open spec fn install_decision(
    state: StateView,
    source: SourceView,
    platform: LocalInstallPlatform,
    launchers: Seq<ObservationView>,
) -> Result<DecisionView, PlanErrorView> {
    match state.accepted {
        None => Ok(
            DecisionView::BuildRequired {
                plan: BuildPlanView { target_generation: 1, expected_predecessor: None, source },
            },
        ),
        Some(accepted) => if accepted.source == source {
            launcher_decision(accepted.identity, platform, launchers)
        } else if accepted.identity.number == u64::MAX {
            Err(
                plan_error(
                    LocalInstallPlanErrorKind::GenerationExhausted,
                    "generation_exhausted"@,
                    "local install generation number is exhausted"@,
                ),
            )
        } else {
            Ok(
                DecisionView::BuildRequired {
                    plan: BuildPlanView {
                        target_generation: (accepted.identity.number + 1) as u64,
                        expected_predecessor: Some(accepted.identity),
                        source,
                    },
                },
            )
        },
    }
}

/// Decide whether exact source requires a build or can proceed directly to launcher convergence.
pub fn plan_local_install(
    state: &LocalInstallState,
    source: &LocalInstallSourceIdentity,
    platform: LocalInstallPlatform,
    launchers: &[LauncherLocationObservation],
) -> (r: Result<LocalInstallDecision, LocalInstallPlanError>)
    ensures
        outcome::is_outcome(
            r,
            install_decision(state@, source@, platform, outcome::seq_view(launchers@)),
        ),
{
    match &state.accepted {
        None => Ok(
            LocalInstallDecision::BuildRequired {
                plan: LocalInstallBuildPlan {
                    target_generation: 1,
                    expected_predecessor: None,
                    source: source.clone(),
                },
            },
        ),
        Some(accepted) => {
            if !accepted.source.same_as(source) {
                return match accepted.identity.number.checked_add(1) {
                    None => Err(
                        error(
                            LocalInstallPlanErrorKind::GenerationExhausted,
                            "generation_exhausted",
                            "local install generation number is exhausted",
                        ),
                    ),
                    Some(target_generation) => Ok(
                        LocalInstallDecision::BuildRequired {
                            plan: LocalInstallBuildPlan {
                                target_generation,
                                expected_predecessor: Some(accepted.identity.clone()),
                                source: source.clone(),
                            },
                        },
                    ),
                };
            }
            plan_launcher_for_generation(&accepted.identity, platform, launchers)
        },
    }
}

pub open spec fn identity_json(identity: IdentityView) -> Json {
    Json::Object(
        seq![
            ("number"@, Json::Number(identity.number as nat)),
            ("digest"@, Json::Text(identity.digest)),
        ],
    )
}

/// The document whose digest identifies a generation.
pub open spec fn generation_document(plan: BuildPlanView, evidence: EvidenceView) -> Json {
    let number = ("number"@, Json::Number(plan.target_generation as nat));
    let predecessor = (
        "predecessor"@,
        match plan.expected_predecessor {
            Some(identity) => identity_json(identity),
            None => Json::Null,
        },
    );
    let source = plan.source;
    let bound = source_evidence(
        source.commit,
        source.tree,
        source.cargo_lock_digest,
        source.toolchain,
    ) + seq![("digest"@, Json::Text(source.digest))];
    let binary = seq![
        ("binary_digest"@, Json::Text(evidence.binary_digest)),
        ("binary_version"@, Json::Text(evidence.binary_version)),
    ];
    match source.identity_generation {
        LocalInstallIdentityGeneration::SmolrunnerV1 => Json::Object(
            seq![
                ("schema_version"@, Json::Number(1)),
                number,
                predecessor,
                ("source"@, Json::Object(bound)),
            ] + binary,
        ),
        LocalInstallIdentityGeneration::GlaedaV2 => Json::Object(
            seq![
                ("schema_version"@, Json::Number(LOCAL_INSTALL_PLAN_SCHEMA_VERSION as nat)),
                ("identity_generation"@, Json::Text(source.identity_generation.name())),
                number,
                predecessor,
                (
                    "source"@,
                    Json::Object(
                        seq![
                            (
                                "identity_generation"@,
                                Json::Text(source.identity_generation.name()),
                            ),
                        ] + bound,
                    ),
                ),
            ] + binary,
        ),
    }
}

pub open spec fn generation_domain(generation: LocalInstallIdentityGeneration) -> Seq<char> {
    match generation {
        LocalInstallIdentityGeneration::SmolrunnerV1 => "smolrunner-local-install-generation-v1\0"@,
        LocalInstallIdentityGeneration::GlaedaV2 => "glaeda-local-install-generation-v2\0"@,
    }
}

pub open spec fn generation_digest(plan: BuildPlanView, evidence: EvidenceView) -> Seq<char> {
    domain_digest(
        generation_domain(plan.source.identity_generation),
        generation_document(plan, evidence),
    )
}

/// The generation that a plan and its artifact evidence determine.
pub open spec fn built_generation(plan: BuildPlanView, evidence: EvidenceView) -> GenerationView {
    GenerationView {
        identity: IdentityView {
            number: plan.target_generation,
            digest: generation_digest(plan, evidence),
        },
        predecessor: plan.expected_predecessor,
        source: plan.source,
        binary_digest: evidence.binary_digest,
        binary_version: evidence.binary_version,
    }
}

/// What [`complete_local_install_build`] answers.
pub open spec fn completed_build(plan: BuildPlanView, evidence: EvidenceView) -> Result<
    GenerationView,
    PlanErrorView,
> {
    if evidence.source_digest == plan.source.digest && evidence.predecessor
        == plan.expected_predecessor {
        Ok(built_generation(plan, evidence))
    } else {
        Err(
            plan_error(
                LocalInstallPlanErrorKind::BuildEvidenceConflict,
                "build_evidence_conflict"@,
                "local install build evidence does not match the exact build plan"@,
            ),
        )
    }
}

/// The JSON text of an identity.
pub fn identity_text(identity: &LocalInstallGenerationIdentity) -> (object: String)
    ensures
        object@ == canonical_json::rendered(identity_json(identity@)),
{
    let mut writer = ObjectWriter::new();
    writer.number("number", identity.number);
    writer.string("digest", identity.digest.as_str());
    assert(writer.members() =~= seq![
        ("number"@, Json::Number(identity@.number as nat)),
        ("digest"@, Json::Text(identity@.digest)),
    ]);
    writer.finish()
}

fn write_generation_body(
    writer: &mut ObjectWriter,
    plan: &LocalInstallBuildPlan,
    evidence: &BuiltLocalBinaryEvidence,
    source: &str,
    Ghost(source_json): Ghost<Json>,
)
    requires
        old(writer).wf(),
        source@ == canonical_json::rendered(source_json),
    ensures
        final(writer).wf(),
        final(writer).members() == old(writer).members() + seq![
            ("number"@, Json::Number(plan@.target_generation as nat)),
            (
                "predecessor"@,
                match plan@.expected_predecessor {
                    Some(identity) => identity_json(identity),
                    None => Json::Null,
                },
            ),
            ("source"@, source_json),
            ("binary_digest"@, Json::Text(evidence@.binary_digest)),
            ("binary_version"@, Json::Text(evidence@.binary_version)),
        ],
{
    let ghost before = writer.members();
    writer.number("number", plan.target_generation);
    match &plan.expected_predecessor {
        Some(identity) => {
            let object = identity_text(identity);
            writer.value("predecessor", object.as_str(), Ghost(identity_json(identity@)));
        },
        None => {
            writer.null("predecessor");
        },
    }
    writer.value("source", source, Ghost(source_json));
    writer.string("binary_digest", evidence.binary_digest.as_str());
    writer.string("binary_version", evidence.binary_version.as_str());
    assert(writer.members() =~= before + seq![
        ("number"@, Json::Number(plan@.target_generation as nat)),
        (
            "predecessor"@,
            match plan@.expected_predecessor {
                Some(identity) => identity_json(identity),
                None => Json::Null,
            },
        ),
        ("source"@, source_json),
        ("binary_digest"@, Json::Text(evidence@.binary_digest)),
        ("binary_version"@, Json::Text(evidence@.binary_version)),
    ]);
}

fn derived_generation_digest(
    plan: &LocalInstallBuildPlan,
    evidence: &BuiltLocalBinaryEvidence,
) -> (digest: Sha256Digest)
    ensures
        digest@ == generation_digest(plan@, evidence@),
        artifact::is_sha256(digest@),
{
    let source = &plan.source;
    let ghost json = generation_document(plan@, evidence@);
    let ghost bound = source_evidence(
        source@.commit,
        source@.tree,
        source@.cargo_lock_digest,
        source@.toolchain,
    ) + seq![("digest"@, Json::Text(source@.digest))];
    let mut inner = ObjectWriter::new();
    let mut writer = ObjectWriter::new();
    match source.identity_generation {
        LocalInstallIdentityGeneration::SmolrunnerV1 => {
            write_source_evidence(
                &mut inner,
                &source.commit,
                &source.tree,
                &source.cargo_lock_digest,
                &source.toolchain,
            );
            inner.string("digest", source.digest.as_str());
            assert(inner.members() =~= bound);
            let source_text = inner.finish();
            writer.number("schema_version", 1);
            write_generation_body(
                &mut writer,
                plan,
                evidence,
                source_text.as_str(),
                Ghost(Json::Object(bound)),
            );
            assert(writer.members() =~= json->Object_0);
            let document = writer.finish();
            canonical_digest(
                "smolrunner-local-install-generation-v1\0",
                document.as_str(),
                Ghost(json),
            )
        },
        LocalInstallIdentityGeneration::GlaedaV2 => {
            inner.string("identity_generation", source.identity_generation.as_str());
            write_source_evidence(
                &mut inner,
                &source.commit,
                &source.tree,
                &source.cargo_lock_digest,
                &source.toolchain,
            );
            inner.string("digest", source.digest.as_str());
            let ghost full = seq![
                ("identity_generation"@, Json::Text(source@.identity_generation.name())),
            ] + bound;
            assert(inner.members() =~= full);
            let source_text = inner.finish();
            writer.number("schema_version", LOCAL_INSTALL_PLAN_SCHEMA_VERSION as u64);
            writer.string("identity_generation", source.identity_generation.as_str());
            write_generation_body(
                &mut writer,
                plan,
                evidence,
                source_text.as_str(),
                Ghost(Json::Object(full)),
            );
            assert(writer.members() =~= json->Object_0);
            let document = writer.finish();
            canonical_digest(
                "glaeda-local-install-generation-v2\0",
                document.as_str(),
                Ghost(json),
            )
        },
    }
}

/// Turn one exact build plan plus reviewed artifact evidence into an immutable candidate generation.
pub fn complete_local_install_build(
    plan: &LocalInstallBuildPlan,
    evidence: BuiltLocalBinaryEvidence,
) -> (r: Result<InstalledLocalBinaryGeneration, LocalInstallPlanError>)
    ensures
        outcome::is_outcome(r, completed_build(plan@, evidence@)),
        r matches Ok(generation) ==> artifact::is_sha256(generation.identity.digest@),
{
    if !evidence.source_digest.same_as(&plan.source.digest) || !same_identity(
        &evidence.predecessor,
        &plan.expected_predecessor,
    ) {
        return Err(
            error(
                LocalInstallPlanErrorKind::BuildEvidenceConflict,
                "build_evidence_conflict",
                "local install build evidence does not match the exact build plan",
            ),
        );
    }
    let digest = derived_generation_digest(plan, &evidence);
    Ok(
        InstalledLocalBinaryGeneration {
            identity: LocalInstallGenerationIdentity { number: plan.target_generation, digest },
            predecessor: copied_identity(&plan.expected_predecessor),
            source: plan.source.clone(),
            binary_digest: evidence.binary_digest,
            binary_version: evidence.binary_version,
        },
    )
}

/// An observation that settles the plan when the PATH scan reaches it.
///
/// An absent entry in an elevation-requiring or unavailable directory shadows
/// nothing and is passed over.
pub open spec fn decides(o: ObservationView) -> bool {
    !(o.entry is Absent && (o.directory == LauncherDirectoryDisposition::NeedsElevation
        || o.directory == LauncherDirectoryDisposition::Unavailable))
}

/// An absent entry that elevation could create.
pub open spec fn can_elevate(o: ObservationView) -> bool {
    o.entry is Absent && o.directory == LauncherDirectoryDisposition::NeedsElevation
}

pub open spec fn unsafe_location() -> PlanErrorView {
    plan_error(
        LocalInstallPlanErrorKind::UnsafeLauncherLocation,
        "unsafe_launcher_location"@,
        "approved launcher location is unsafe"@,
    )
}

/// What a deciding observation demands.
pub open spec fn decision_at(generation: IdentityView, o: ObservationView) -> Result<
    DecisionView,
    PlanErrorView,
> {
    let switch = Ok(
        DecisionView::SwitchLauncher { target_generation: generation, location: o.location },
    );
    match o.entry {
        EntryView::Foreign => Err(
            plan_error(
                LocalInstallPlanErrorKind::ForeignLauncher,
                "foreign_launcher"@,
                "an earlier approved PATH location contains a foreign smol launcher"@,
            ),
        ),
        EntryView::Unknown => Err(
            plan_error(
                LocalInstallPlanErrorKind::UnknownLauncher,
                "unknown_launcher"@,
                "an earlier approved PATH location contains an unclassified smol launcher"@,
            ),
        ),
        EntryView::Owned { generation_digest } => if o.directory
            == LauncherDirectoryDisposition::Unsafe {
            Err(unsafe_location())
        } else if generation_digest == generation.digest {
            Ok(DecisionView::Satisfied { generation, location: o.location })
        } else {
            match o.directory {
                LauncherDirectoryDisposition::ReadyUserOwned => switch,
                LauncherDirectoryDisposition::NeedsElevation => Ok(
                    DecisionView::ElevationRequired { generation, location: o.location },
                ),
                _ => Err(
                    invalid_observation("owned launcher cannot exist in an unavailable location"@),
                ),
            }
        },
        EntryView::Absent => if o.directory == LauncherDirectoryDisposition::ReadyUserOwned {
            switch
        } else {
            Err(unsafe_location())
        },
    }
}

pub open spec fn in_play(s: Seq<ObservationView>, i: int, fallback: bool) -> bool {
    &&& 0 <= i < s.len()
    &&& s[i].path_rank is Some
    &&& if fallback {
        can_elevate(s[i])
    } else {
        decides(s[i])
    }
}

pub open spec fn is_earliest(s: Seq<ObservationView>, i: int, fallback: bool) -> bool {
    in_play(s, i, fallback) && forall|j: int| #[trigger]
        in_play(s, j, fallback) ==> s[i].path_rank->0 <= s[j].path_rank->0
}

/// The lowest-ranked observation in PATH that decides, or that elevation could
/// serve.
pub open spec fn earliest(s: Seq<ObservationView>, fallback: bool) -> Option<int> {
    if exists|i: int| is_earliest(s, i, fallback) {
        Some(choose|i: int| is_earliest(s, i, fallback))
    } else {
        None
    }
}

/// Why the observation at `i` is refused, given those before it.
pub open spec fn observation_refusal(
    platform: LocalInstallPlatform,
    s: Seq<ObservationView>,
    i: int,
) -> Option<PlanErrorView> {
    let o = s[i];
    if exists|j: int| 0 <= j < i && (#[trigger] s[j]).location == o.location {
        Some(
            plan_error(
                LocalInstallPlanErrorKind::DuplicateLauncherLocation,
                "duplicate_launcher_location"@,
                "approved launcher location was observed more than once"@,
            ),
        )
    } else if platform == LocalInstallPlatform::Linux && o.location
        == LauncherLocationClass::HomebrewBin {
        Some(
            plan_error(
                LocalInstallPlanErrorKind::UnsupportedLauncherLocation,
                "unsupported_launcher_location"@,
                "Homebrew launcher location is unsupported on Linux"@,
            ),
        )
    } else if o.in_path != (o.path_rank is Some) {
        Some(invalid_observation("approved launcher observation PATH rank is inconsistent"@))
    } else if o.path_rank is Some && exists|j: int|
        0 <= j < i && (#[trigger] s[j]).path_rank == o.path_rank {
        Some(
            plan_error(
                LocalInstallPlanErrorKind::DuplicatePathRank,
                "duplicate_path_rank"@,
                "approved launcher observations contain duplicate PATH ranks"@,
            ),
        )
    } else {
        None
    }
}

/// The refusal of the first refused observation among the first `n`.
pub open spec fn first_refusal(
    platform: LocalInstallPlatform,
    s: Seq<ObservationView>,
    n: nat,
) -> Option<PlanErrorView>
    decreases n,
{
    if n == 0 {
        None
    } else {
        match first_refusal(platform, s, (n - 1) as nat) {
            Some(refusal) => Some(refusal),
            None => observation_refusal(platform, s, n - 1),
        }
    }
}

/// Why the observations are refused as a whole.
pub open spec fn launcher_refusal(platform: LocalInstallPlatform, s: Seq<ObservationView>) -> Option<
    PlanErrorView,
> {
    if s.len() > MAX_LAUNCHER_OBSERVATIONS {
        Some(
            plan_error(
                LocalInstallPlanErrorKind::TooManyLauncherObservations,
                "too_many_launcher_observations"@,
                "local install launcher observation bound was exceeded"@,
            ),
        )
    } else {
        first_refusal(platform, s, s.len())
    }
}

/// What [`plan_launcher_for_generation`] answers: the lowest-ranked deciding
/// observation decides; without one, the lowest-ranked absent entry that
/// elevation could create.
pub open spec fn launcher_decision(
    generation: IdentityView,
    platform: LocalInstallPlatform,
    s: Seq<ObservationView>,
) -> Result<DecisionView, PlanErrorView> {
    match launcher_refusal(platform, s) {
        Some(refusal) => Err(refusal),
        None => match earliest(s, false) {
            Some(i) => decision_at(generation, s[i]),
            None => match earliest(s, true) {
                Some(i) => Ok(
                    DecisionView::ElevationRequired { generation, location: s[i].location },
                ),
                None => Err(
                    plan_error(
                        LocalInstallPlanErrorKind::NoApprovedLauncherLocation,
                        "no_approved_launcher_location"@,
                        "no approved launcher location is available in PATH"@,
                    ),
                ),
            },
        },
    }
}

pub open spec fn listed(order: Seq<usize>, i: int) -> bool {
    exists|k: int| 0 <= k < order.len() && #[trigger] order[k] == i
}

/// The indices of the observations in PATH, in PATH order.
pub open spec fn is_path_order(s: Seq<ObservationView>, n: int, order: Seq<usize>) -> bool {
    &&& forall|k: int|
        0 <= k < order.len() ==> (#[trigger] order[k]) < n && s[order[k] as int].path_rank is Some
    &&& forall|k: int, l: int|
        #![trigger order[k], order[l]]
        0 <= k < l < order.len() ==> s[order[k] as int].path_rank->0
            < s[order[l] as int].path_rank->0
    &&& forall|i: int|
        0 <= i < n && s[i].path_rank is Some ==> #[trigger] listed(order, i)
}

fn observation_problem(
    platform: LocalInstallPlatform,
    launchers: &[LauncherLocationObservation],
    i: usize,
) -> (problem: Option<LocalInstallPlanError>)
    requires
        i < launchers@.len(),
    ensures
        outcome::option_view(problem) == observation_refusal(
            platform,
            outcome::seq_view(launchers@),
            i as int,
        ),
{
    let ghost s = outcome::seq_view(launchers@);
    let o = &launchers[i];
    let mut same_location = false;
    let mut same_rank = false;
    let mut j: usize = 0;
    while j < i
        invariant
            j <= i < launchers@.len(),
            s == outcome::seq_view(launchers@),
            o@ == s[i as int],
            o == launchers@[i as int],
            same_location == exists|k: int|
                0 <= k < j && (#[trigger] s[k]).location == o.location,
            same_rank == exists|k: int| 0 <= k < j && (#[trigger] s[k]).path_rank == o.path_rank,
        decreases i - j,
    {
        assert(s[j as int] == launchers@[j as int]@);
        let same_here = match (launchers[j].path_rank, o.path_rank) {
            (Some(a), Some(b)) => a == b,
            (None, None) => true,
            _ => false,
        };
        if launchers[j].location == o.location {
            same_location = true;
        }
        if same_here {
            same_rank = true;
        }
        j += 1;
    }
    if same_location {
        return Some(
            error(
                LocalInstallPlanErrorKind::DuplicateLauncherLocation,
                "duplicate_launcher_location",
                "approved launcher location was observed more than once",
            ),
        );
    }
    if platform == LocalInstallPlatform::Linux && o.location == LauncherLocationClass::HomebrewBin {
        return Some(
            error(
                LocalInstallPlanErrorKind::UnsupportedLauncherLocation,
                "unsupported_launcher_location",
                "Homebrew launcher location is unsupported on Linux",
            ),
        );
    }
    if o.in_path != o.path_rank.is_some() {
        return Some(
            error(
                LocalInstallPlanErrorKind::InvalidLauncherObservation,
                "invalid_launcher_observation",
                "approved launcher observation PATH rank is inconsistent",
            ),
        );
    }
    if o.path_rank.is_some() && same_rank {
        return Some(
            error(
                LocalInstallPlanErrorKind::DuplicatePathRank,
                "duplicate_path_rank",
                "approved launcher observations contain duplicate PATH ranks",
            ),
        );
    }
    None
}

/// Puts index `i` in its place in PATH order.
fn insert_by_rank(
    launchers: &[LauncherLocationObservation],
    order: &mut Vec<usize>,
    i: usize,
    rank: u16,
)
    requires
        i < launchers@.len(),
        launchers@[i as int].path_rank == Some(rank),
        is_path_order(outcome::seq_view(launchers@), i as int, old(order)@),
        forall|j: int|
            0 <= j < i ==> (#[trigger] outcome::seq_view(launchers@)[j]).path_rank != Some(rank),
    ensures
        is_path_order(outcome::seq_view(launchers@), i + 1, final(order)@),
{
    let ghost s = outcome::seq_view(launchers@);
    let ghost before = order@;
    let mut at: usize = 0;
    let mut placed = false;
    while at < order.len() && !placed
        invariant
            at <= order@.len(),
            order@ == before,
            s == outcome::seq_view(launchers@),
            i < launchers@.len(),
            is_path_order(s, i as int, order@),
            forall|j: int| 0 <= j < i ==> (#[trigger] s[j]).path_rank != Some(rank),
            forall|k: int| 0 <= k < at ==> s[#[trigger] order@[k] as int].path_rank->0 < rank,
            placed ==> at < order@.len() && s[order@[at as int] as int].path_rank->0 > rank,
        decreases
            order@.len() - at,
            if placed {
                0int
            } else {
                1int
            },
    {
        let other = order[at];
        assert(s[other as int] == launchers@[other as int]@);
        match launchers[other].path_rank {
            Some(other_rank) => {
                assert(other_rank != rank);
                if other_rank > rank {
                    placed = true;
                } else {
                    at += 1;
                }
            },
            None => {
                at += 1;
            },
        }
    }
    order.insert(at, i);
    proof {
        lemma_insert_by_rank(s, i as int, before, at as int, i);
    }
}

proof fn lemma_insert_by_rank(
    s: Seq<ObservationView>,
    n: int,
    before: Seq<usize>,
    at: int,
    i: usize,
)
    requires
        0 <= n < s.len(),
        n == i,
        s[n].path_rank is Some,
        is_path_order(s, n, before),
        0 <= at <= before.len(),
        forall|k: int|
            0 <= k < at ==> s[#[trigger] before[k] as int].path_rank->0 < s[n].path_rank->0,
        at < before.len() ==> s[before[at] as int].path_rank->0 > s[n].path_rank->0,
    ensures
        is_path_order(s, n + 1, before.insert(at, i)),
{
    let after = before.insert(at, i);
    assert forall|j: int| 0 <= j < n + 1 && s[j].path_rank is Some implies #[trigger] listed(
        after,
        j,
    ) by {
        if j == n {
            assert(after[at] == j);
        } else {
            assert(listed(before, j));
            let k = choose|k: int| 0 <= k < before.len() && #[trigger] before[k] == j;
            if k < at {
                assert(after[k] == j);
            } else {
                assert(after[k + 1] == j);
            }
        }
    }
    assert forall|k: int, l: int|
        #![trigger after[k], after[l]]
        0 <= k < l < after.len() implies s[after[k] as int].path_rank->0
        < s[after[l] as int].path_rank->0 by {
        if k == at {
            assert(after[l] == before[l - 1]);
            assert(s[before[at] as int].path_rank->0 <= s[before[l - 1] as int].path_rank->0) by {
                if l - 1 > at {
                    assert(before[at] == before[at]);
                }
            }
        } else if l == at {
            assert(after[k] == before[k]);
        } else {
            let bk = if k < at {
                k
            } else {
                k - 1
            };
            let bl = if l < at {
                l
            } else {
                l - 1
            };
            assert(after[k] == before[bk] && after[l] == before[bl]);
        }
    }
    assert forall|k: int| 0 <= k < after.len() implies (#[trigger] after[k]) < n + 1
        && s[after[k] as int].path_rank is Some by {
        if k < at {
            assert(after[k] == before[k]);
        } else if k > at {
            assert(after[k] == before[k - 1]);
        }
    }
}

fn validated_launcher_observations(
    platform: LocalInstallPlatform,
    launchers: &[LauncherLocationObservation],
) -> (r: Result<Vec<usize>, LocalInstallPlanError>)
    ensures
        match r {
            Ok(order) => launcher_refusal(platform, outcome::seq_view(launchers@)) is None
                && is_path_order(
                outcome::seq_view(launchers@),
                launchers@.len() as int,
                order@,
            ),
            Err(e) => launcher_refusal(platform, outcome::seq_view(launchers@)) == Some(e@),
        },
{
    let ghost s = outcome::seq_view(launchers@);
    if launchers.len() > MAX_LAUNCHER_OBSERVATIONS {
        return Err(
            error(
                LocalInstallPlanErrorKind::TooManyLauncherObservations,
                "too_many_launcher_observations",
                "local install launcher observation bound was exceeded",
            ),
        );
    }
    let mut order: Vec<usize> = Vec::new();
    let mut i: usize = 0;
    while i < launchers.len()
        invariant
            i <= launchers@.len() <= MAX_LAUNCHER_OBSERVATIONS,
            s == outcome::seq_view(launchers@),
            first_refusal(platform, s, i as nat) is None,
            is_path_order(s, i as int, order@),
        decreases launchers@.len() - i,
    {
        let problem = observation_problem(platform, launchers, i);
        assert(first_refusal(platform, s, (i + 1) as nat) == observation_refusal(
            platform,
            s,
            i as int,
        ));
        if let Some(refusal) = problem {
            proof {
                lemma_refusal_stays(platform, s, (i + 1) as nat, s.len());
            }
            return Err(refusal);
        }
        assert(s[i as int] == launchers@[i as int]@);
        if let Some(rank) = launchers[i].path_rank {
            assert forall|j: int| 0 <= j < i implies (#[trigger] s[j]).path_rank != Some(rank) by {}
            insert_by_rank(launchers, &mut order, i, rank);
        }
        i += 1;
    }
    Ok(order)
}

proof fn lemma_refusal_stays(
    platform: LocalInstallPlatform,
    s: Seq<ObservationView>,
    n: nat,
    m: nat,
)
    requires
        n <= m,
        first_refusal(platform, s, n) is Some,
    ensures
        first_refusal(platform, s, m) == first_refusal(platform, s, n),
    decreases m,
{
    if n < m {
        lemma_refusal_stays(platform, s, n, (m - 1) as nat);
    }
}

proof fn lemma_no_refusal(
    platform: LocalInstallPlatform,
    s: Seq<ObservationView>,
    n: nat,
    i: int,
)
    requires
        first_refusal(platform, s, n) is None,
        0 <= i < n,
    ensures
        observation_refusal(platform, s, i) is None,
    decreases n,
{
    if i < n - 1 {
        lemma_no_refusal(platform, s, (n - 1) as nat, i);
    }
}

/// Accepted observations never share a PATH rank.
proof fn lemma_ranks_distinct(
    platform: LocalInstallPlatform,
    s: Seq<ObservationView>,
    i: int,
    j: int,
)
    requires
        launcher_refusal(platform, s) is None,
        0 <= i < s.len(),
        0 <= j < s.len(),
        s[i].path_rank is Some,
        s[i].path_rank == s[j].path_rank,
    ensures
        i == j,
{
    lemma_no_refusal(platform, s, s.len(), i);
    lemma_no_refusal(platform, s, s.len(), j);
    if i < j {
        assert(s[i].path_rank == s[j].path_rank);
    } else if j < i {
        assert(s[j].path_rank == s[i].path_rank);
    }
}

/// The earliest observation is the one that is found.
proof fn lemma_earliest_is(
    platform: LocalInstallPlatform,
    s: Seq<ObservationView>,
    i: int,
    fallback: bool,
)
    requires
        launcher_refusal(platform, s) is None,
        is_earliest(s, i, fallback),
    ensures
        earliest(s, fallback) == Some(i),
{
    let found = choose|k: int| is_earliest(s, k, fallback);
    assert(is_earliest(s, found, fallback));
    assert(in_play(s, i, fallback) && in_play(s, found, fallback));
    lemma_ranks_distinct(platform, s, i, found);
}

/// Plan only the stable `smol` launcher for one already-accepted or candidate generation.
///
/// The first existing launcher entry in PATH controls command resolution. A stale owned launcher at
/// an earlier elevation-requiring location therefore produces an elevation barrier immediately;
/// installing another launcher later in PATH would leave the stale command shadowing it. An absent
/// elevation-requiring location does not shadow later PATH entries and may be skipped in favor of a
/// later user-owned location.
pub fn plan_launcher_for_generation(
    generation: &LocalInstallGenerationIdentity,
    platform: LocalInstallPlatform,
    launchers: &[LauncherLocationObservation],
) -> (r: Result<LocalInstallDecision, LocalInstallPlanError>)
    ensures
        outcome::is_outcome(
            r,
            launcher_decision(generation@, platform, outcome::seq_view(launchers@)),
        ),
        r matches Ok(decision) ==> !(decision is BuildRequired),
{
    let ghost s = outcome::seq_view(launchers@);
    let order = validated_launcher_observations(platform, launchers)?;
    let mut candidate: Option<usize> = None;
    let mut k: usize = 0;
    while k < order.len()
        invariant
            s == outcome::seq_view(launchers@),
            k <= order@.len(),
            launcher_refusal(platform, s) is None,
            is_path_order(s, launchers@.len() as int, order@),
            forall|l: int| 0 <= l < k ==> !decides(s[#[trigger] order@[l] as int]),
            match candidate {
                Some(i) => exists|c: int|
                    0 <= c < k && order@[c] == i && can_elevate(s[i as int]) && forall|l: int|
                        0 <= l < c ==> !can_elevate(s[#[trigger] order@[l] as int]),
                None => forall|l: int| 0 <= l < k ==> !can_elevate(s[#[trigger] order@[l] as int]),
            },
        decreases order@.len() - k,
    {
        let index = order[k];
        let observation = &launchers[index];
        assert(s[index as int] == observation@);
        let decided = match &observation.entry {
            LauncherEntryDisposition::Absent => observation.directory
                != LauncherDirectoryDisposition::NeedsElevation && observation.directory
                != LauncherDirectoryDisposition::Unavailable,
            _ => true,
        };
        if decided {
            proof {
                lemma_scan_reaches(s, order@, k as int, false);
                lemma_earliest_is(platform, s, index as int, false);
            }
            return decide_at(generation, observation);
        }
        if observation.directory == LauncherDirectoryDisposition::NeedsElevation
            && candidate.is_none() {
            candidate = Some(index);
            assert(order@[k as int] == index && can_elevate(s[index as int]));
        }
        k += 1;
    }
    proof {
        lemma_scan_ends(s, order@, false);
    }
    if let Some(index) = candidate {
        proof {
            let c = choose|c: int|
                0 <= c < k && order@[c] == index && can_elevate(s[index as int]) && forall|l: int|
                    0 <= l < c ==> !can_elevate(s[#[trigger] order@[l] as int]);
            lemma_scan_reaches(s, order@, c, true);
            lemma_earliest_is(platform, s, index as int, true);
            assert(s[index as int] == launchers@[index as int]@);
        }
        return Ok(
            LocalInstallDecision::ElevationRequired {
                generation: generation.clone(),
                location: launchers[index].location,
            },
        );
    }
    proof {
        lemma_scan_ends(s, order@, true);
    }
    Err(
        error(
            LocalInstallPlanErrorKind::NoApprovedLauncherLocation,
            "no_approved_launcher_location",
            "no approved launcher location is available in PATH",
        ),
    )
}

proof fn lemma_scan_reaches(s: Seq<ObservationView>, order: Seq<usize>, k: int, fallback: bool)
    requires
        is_path_order(s, s.len() as int, order),
        0 <= k < order.len(),
        in_play(s, order[k] as int, fallback),
        forall|l: int| 0 <= l < k ==> !in_play(s, #[trigger] order[l] as int, fallback),
    ensures
        is_earliest(s, order[k] as int, fallback),
{
    assert forall|j: int| #[trigger] in_play(s, j, fallback) implies s[order[k] as int].path_rank->0
        <= s[j].path_rank->0 by {
        assert(listed(order, j));
        let l = choose|l: int| 0 <= l < order.len() && #[trigger] order[l] == j;
        if l < k {
            assert(!in_play(s, order[l] as int, fallback));
        }
    }
}

proof fn lemma_scan_ends(s: Seq<ObservationView>, order: Seq<usize>, fallback: bool)
    requires
        is_path_order(s, s.len() as int, order),
        forall|l: int| 0 <= l < order.len() ==> !in_play(s, #[trigger] order[l] as int, fallback),
    ensures
        earliest(s, fallback) is None,
{
    assert forall|j: int| !is_earliest(s, j, fallback) by {
        if in_play(s, j, fallback) {
            assert(listed(order, j));
            let l = choose|l: int| 0 <= l < order.len() && #[trigger] order[l] == j;
            assert(!in_play(s, order[l] as int, fallback));
        }
    }
}

fn decide_at(
    generation: &LocalInstallGenerationIdentity,
    observation: &LauncherLocationObservation,
) -> (r: Result<LocalInstallDecision, LocalInstallPlanError>)
    requires
        decides(observation@),
    ensures
        outcome::is_outcome(r, decision_at(generation@, observation@)),
        r matches Ok(decision) ==> !(decision is BuildRequired),
{
    match &observation.entry {
        LauncherEntryDisposition::Foreign => Err(
            error(
                LocalInstallPlanErrorKind::ForeignLauncher,
                "foreign_launcher",
                "an earlier approved PATH location contains a foreign smol launcher",
            ),
        ),
        LauncherEntryDisposition::Unknown => Err(
            error(
                LocalInstallPlanErrorKind::UnknownLauncher,
                "unknown_launcher",
                "an earlier approved PATH location contains an unclassified smol launcher",
            ),
        ),
        LauncherEntryDisposition::Owned { generation_digest } => {
            if observation.directory == LauncherDirectoryDisposition::Unsafe {
                return Err(
                    error(
                        LocalInstallPlanErrorKind::UnsafeLauncherLocation,
                        "unsafe_launcher_location",
                        "approved launcher location is unsafe",
                    ),
                );
            }
            if generation_digest.same_as(&generation.digest) {
                return Ok(
                    LocalInstallDecision::Satisfied {
                        generation: generation.clone(),
                        location: observation.location,
                    },
                );
            }
            match observation.directory {
                LauncherDirectoryDisposition::ReadyUserOwned => Ok(
                    LocalInstallDecision::SwitchLauncher {
                        plan: LauncherSwitchPlan {
                            target_generation: generation.clone(),
                            location: observation.location,
                        },
                    },
                ),
                LauncherDirectoryDisposition::NeedsElevation => Ok(
                    LocalInstallDecision::ElevationRequired {
                        generation: generation.clone(),
                        location: observation.location,
                    },
                ),
                _ => Err(
                    error(
                        LocalInstallPlanErrorKind::InvalidLauncherObservation,
                        "invalid_launcher_observation",
                        "owned launcher cannot exist in an unavailable location",
                    ),
                ),
            }
        },
        LauncherEntryDisposition::Absent => {
            if observation.directory == LauncherDirectoryDisposition::ReadyUserOwned {
                Ok(
                    LocalInstallDecision::SwitchLauncher {
                        plan: LauncherSwitchPlan {
                            target_generation: generation.clone(),
                            location: observation.location,
                        },
                    },
                )
            } else {
                Err(
                    error(
                        LocalInstallPlanErrorKind::UnsafeLauncherLocation,
                        "unsafe_launcher_location",
                        "approved launcher location is unsafe",
                    ),
                )
            }
        },
    }
}

pub open spec fn is_retained(state: StateView, target: IdentityView) -> bool {
    exists|i: int| 0 <= i < state.retained.len() && (#[trigger] state.retained[i]).identity == target
}

/// The launcher step that a decision leaves to a rollback.
pub open spec fn rollback_requirement(decision: DecisionView) -> RollbackLauncherRequirement {
    match decision {
        DecisionView::Satisfied { location, .. } => {
            RollbackLauncherRequirement::AlreadyPointsToTarget { location }
        },
        DecisionView::SwitchLauncher { location, .. } => RollbackLauncherRequirement::Switch {
            location,
        },
        DecisionView::ElevationRequired { location, .. } => RollbackLauncherRequirement::Elevation {
            location,
        },
        DecisionView::BuildRequired { .. } => arbitrary(),
    }
}

/// What [`plan_local_install_rollback`] answers.
pub open spec fn rollback_decision(
    state: StateView,
    target: IdentityView,
    platform: LocalInstallPlatform,
    launchers: Seq<ObservationView>,
) -> Result<RollbackView, PlanErrorView> {
    if state.accepted is None {
        Err(
            plan_error(
                LocalInstallPlanErrorKind::MissingAcceptedGeneration,
                "missing_accepted_generation"@,
                "local install rollback requires an accepted generation"@,
            ),
        )
    } else if !is_retained(state, target) {
        Err(
            plan_error(
                LocalInstallPlanErrorKind::RollbackTargetUnavailable,
                "rollback_target_unavailable"@,
                "requested local install rollback generation is not retained"@,
            ),
        )
    } else {
        match launcher_decision(target, platform, launchers) {
            Err(refusal) => Err(refusal),
            Ok(decision) => Ok(
                RollbackView {
                    from: state.accepted->0.identity,
                    to: target,
                    launcher: rollback_requirement(decision),
                },
            ),
        }
    }
}

/// Plan rollback to one retained verified generation through the same launcher safety rules.
pub fn plan_local_install_rollback(
    state: &LocalInstallState,
    target: &LocalInstallGenerationIdentity,
    platform: LocalInstallPlatform,
    launchers: &[LauncherLocationObservation],
) -> (r: Result<LocalInstallRollbackPlan, LocalInstallPlanError>)
    ensures
        outcome::is_outcome(
            r,
            rollback_decision(state@, target@, platform, outcome::seq_view(launchers@)),
        ),
{
    let current = match &state.accepted {
        Some(current) => current,
        None => {
            return Err(
                error(
                    LocalInstallPlanErrorKind::MissingAcceptedGeneration,
                    "missing_accepted_generation",
                    "local install rollback requires an accepted generation",
                ),
            );
        },
    };
    let mut found: Option<usize> = None;
    let mut i: usize = 0;
    while i < state.retained.len() && found.is_none()
        invariant
            i <= state.retained@.len(),
            match found {
                Some(at) => at < state.retained@.len() && state.retained@[at as int].identity@
                    == target@,
                None => forall|k: int|
                    0 <= k < i ==> (#[trigger] state@.retained[k]).identity != target@,
            },
        decreases state.retained@.len() - i,
    {
        if state.retained[i].identity.same_as(target) {
            found = Some(i);
        }
        assert(state@.retained[i as int] == state.retained@[i as int]@);
        i += 1;
    }
    match found {
        None => Err(
            error(
                LocalInstallPlanErrorKind::RollbackTargetUnavailable,
                "rollback_target_unavailable",
                "requested local install rollback generation is not retained",
            ),
        ),
        Some(at) => {
            assert(state@.retained[at as int].identity == target@);
            let retained = &state.retained[at];
            let decision = plan_launcher_for_generation(&retained.identity, platform, launchers)?;
            let launcher = match &decision {
                LocalInstallDecision::Satisfied { location, .. } => {
                    RollbackLauncherRequirement::AlreadyPointsToTarget { location: *location }
                },
                LocalInstallDecision::SwitchLauncher { plan } => {
                    RollbackLauncherRequirement::Switch { location: plan.location }
                },
                LocalInstallDecision::ElevationRequired { location, .. } => {
                    RollbackLauncherRequirement::Elevation { location: *location }
                },
                LocalInstallDecision::BuildRequired { .. } => vstd::pervasive::unreached(),
            };
            Ok(
                LocalInstallRollbackPlan {
                    from: current.identity.clone(),
                    to: retained.identity.clone(),
                    launcher,
                },
            )
        },
    }
}

/// The first existing launcher entry in PATH decides: when nothing earlier in
/// PATH settles the plan, a foreign, unknown or owned entry does, whatever
/// stands later.
pub proof fn law_earliest_existing_entry_decides(
    generation: IdentityView,
    platform: LocalInstallPlatform,
    s: Seq<ObservationView>,
    i: int,
)
    requires
        launcher_refusal(platform, s) is None,
        0 <= i < s.len(),
        s[i].path_rank is Some,
        !(s[i].entry is Absent),
        forall|j: int|
            0 <= j < s.len() && (#[trigger] s[j]).path_rank is Some && s[j].path_rank->0
                < s[i].path_rank->0 ==> !decides(s[j]),
    ensures
        launcher_decision(generation, platform, s) == decision_at(generation, s[i]),
{
    assert(in_play(s, i, false));
    assert forall|j: int| #[trigger] in_play(s, j, false) implies s[i].path_rank->0
        <= s[j].path_rank->0 by {}
    lemma_earliest_is(platform, s, i, false);
}

/// The order in which locations were observed does not matter.
pub proof fn law_observation_order_is_irrelevant(
    generation: IdentityView,
    platform: LocalInstallPlatform,
    s: Seq<ObservationView>,
    t: Seq<ObservationView>,
)
    requires
        launcher_refusal(platform, s) is None,
        launcher_refusal(platform, t) is None,
        forall|o: ObservationView| s.contains(o) <==> t.contains(o),
    ensures
        launcher_decision(generation, platform, s) == launcher_decision(generation, platform, t),
{
    lemma_same_earliest(platform, s, t, false);
    lemma_same_earliest(platform, s, t, true);
}

proof fn lemma_same_earliest(
    platform: LocalInstallPlatform,
    s: Seq<ObservationView>,
    t: Seq<ObservationView>,
    fallback: bool,
)
    requires
        launcher_refusal(platform, s) is None,
        launcher_refusal(platform, t) is None,
        forall|o: ObservationView| s.contains(o) <==> t.contains(o),
    ensures
        match (earliest(s, fallback), earliest(t, fallback)) {
            (Some(i), Some(j)) => s[i] == t[j],
            (None, None) => true,
            _ => false,
        },
{
    if exists|i: int| is_earliest(s, i, fallback) {
        let i = choose|i: int| is_earliest(s, i, fallback);
        lemma_transfer_earliest(s, t, i, fallback);
        let j = choose|j: int| is_earliest(t, j, fallback) && t[j] == s[i];
        lemma_earliest_is(platform, t, j, fallback);
        lemma_earliest_is(platform, s, i, fallback);
    } else if exists|j: int| is_earliest(t, j, fallback) {
        let j = choose|j: int| is_earliest(t, j, fallback);
        lemma_transfer_earliest(t, s, j, fallback);
    }
}

proof fn lemma_transfer_earliest(
    s: Seq<ObservationView>,
    t: Seq<ObservationView>,
    i: int,
    fallback: bool,
)
    requires
        is_earliest(s, i, fallback),
        forall|o: ObservationView| s.contains(o) <==> t.contains(o),
    ensures
        exists|j: int| is_earliest(t, j, fallback) && t[j] == s[i],
{
    assert(s.contains(s[i]));
    assert(t.contains(s[i]));
    let j = choose|j: int| 0 <= j < t.len() && t[j] == s[i];
    assert forall|k: int| #[trigger] in_play(t, k, fallback) implies t[j].path_rank->0
        <= t[k].path_rank->0 by {
        assert(t.contains(t[k]));
        assert(s.contains(t[k]));
        let l = choose|l: int| 0 <= l < s.len() && s[l] == t[k];
        assert(in_play(s, l, fallback));
    }
    assert(is_earliest(t, j, fallback) && t[j] == s[i]);
}

/// A plan is satisfied only by an owned entry of exactly this generation that
/// no earlier PATH entry shadows.
pub proof fn law_satisfied_is_what_path_resolves(
    generation: IdentityView,
    platform: LocalInstallPlatform,
    s: Seq<ObservationView>,
)
    requires
        launcher_decision(generation, platform, s) matches Ok(DecisionView::Satisfied { .. }),
    ensures
        exists|i: int|
            0 <= i < s.len() && (#[trigger] s[i]).path_rank is Some && s[i].entry
                == (EntryView::Owned { generation_digest: generation.digest }) && launcher_decision(
                generation,
                platform,
                s,
            ) == Ok::<DecisionView, PlanErrorView>(
                DecisionView::Satisfied { generation, location: s[i].location },
            ) && forall|j: int|
                0 <= j < s.len() && (#[trigger] s[j]).path_rank is Some && s[j].path_rank->0
                    < s[i].path_rank->0 ==> s[j].entry is Absent,
{
    let i = earliest(s, false)->0;
    assert(is_earliest(s, i, false));
    assert(s[i].path_rank is Some);
    assert forall|j: int|
        0 <= j < s.len() && (#[trigger] s[j]).path_rank is Some && s[j].path_rank->0
            < s[i].path_rank->0 implies s[j].entry is Absent by {
        if !(s[j].entry is Absent) {
            assert(in_play(s, j, false));
        }
    }
}

/// A required build leads to the exact successor of the accepted generation,
/// and once that is accepted the same source never asks for a build again.
pub proof fn law_build_is_required_once(
    state: StateView,
    source: SourceView,
    evidence: EvidenceView,
    retained: Seq<GenerationView>,
    platform: LocalInstallPlatform,
    launchers: Seq<ObservationView>,
)
    requires
        install_decision(state, source, platform, launchers) matches Ok(
            DecisionView::BuildRequired { plan },
        ) && evidence.source_digest == plan.source.digest && evidence.predecessor
            == plan.expected_predecessor,
    ensures
        ({
            let plan = (install_decision(state, source, platform, launchers)->Ok_0)->plan;
            let built = built_generation(plan, evidence);
            &&& completed_build(plan, evidence) == Ok::<GenerationView, PlanErrorView>(built)
            &&& built.source == source
            &&& match state.accepted {
                Some(accepted) => built.predecessor == Some(accepted.identity)
                    && built.identity.number == accepted.identity.number + 1,
                None => built.predecessor is None && built.identity.number == 1,
            }
            &&& install_decision(
                StateView { accepted: Some(built), retained },
                source,
                platform,
                launchers,
            ) == launcher_decision(built.identity, platform, launchers)
        }),
{
    match state.accepted {
        Some(accepted) => {
            if accepted.source == source {
                assert(!(launcher_decision(accepted.identity, platform, launchers) matches Ok(
                    DecisionView::BuildRequired { .. },
                )));
            }
        },
        None => {},
    }
}

/// The bytes that identify a legacy source are never the bytes that identify a
/// current one.
pub proof fn law_source_domains_are_separate(
    legacy: (Seq<char>, Seq<char>, Seq<char>, Seq<char>),
    current: (Seq<char>, Seq<char>, Seq<char>, Seq<char>),
)
    ensures
        source_domain(LocalInstallIdentityGeneration::SmolrunnerV1) + canonical_json::rendered(
            source_document(
                LocalInstallIdentityGeneration::SmolrunnerV1,
                legacy.0,
                legacy.1,
                legacy.2,
                legacy.3,
            ),
        ) != source_domain(LocalInstallIdentityGeneration::GlaedaV2) + canonical_json::rendered(
            source_document(
                LocalInstallIdentityGeneration::GlaedaV2,
                current.0,
                current.1,
                current.2,
                current.3,
            ),
        ),
{
    reveal_strlit("smolrunner-local-install-source-v1\0");
    reveal_strlit("glaeda-local-install-source-v2\0");
    let left = source_domain(LocalInstallIdentityGeneration::SmolrunnerV1)
        + canonical_json::rendered(
        source_document(
            LocalInstallIdentityGeneration::SmolrunnerV1,
            legacy.0,
            legacy.1,
            legacy.2,
            legacy.3,
        ),
    );
    let right = source_domain(LocalInstallIdentityGeneration::GlaedaV2) + canonical_json::rendered(
        source_document(
            LocalInstallIdentityGeneration::GlaedaV2,
            current.0,
            current.1,
            current.2,
            current.3,
        ),
    );
    assert(left[0] == 's');
    assert(right[0] == 'g');
}

/// Within one identity generation, the bytes that identify a source determine
/// all of its evidence.
pub proof fn law_source_evidence_is_bound(
    generation: LocalInstallIdentityGeneration,
    a: (Seq<char>, Seq<char>, Seq<char>, Seq<char>),
    b: (Seq<char>, Seq<char>, Seq<char>, Seq<char>),
)
    requires
        source_domain(generation) + canonical_json::rendered(
            source_document(generation, a.0, a.1, a.2, a.3),
        ) == source_domain(generation) + canonical_json::rendered(
            source_document(generation, b.0, b.1, b.2, b.3),
        ),
    ensures
        a == b,
{
    let domain = source_domain(generation);
    let x = source_document(generation, a.0, a.1, a.2, a.3);
    let y = source_document(generation, b.0, b.1, b.2, b.3);
    lemma_same_rest(domain, canonical_json::rendered(x), canonical_json::rendered(y));
    canonical_json::law_canonical_text_is_injective(x, y);
    let offset: int = if generation == LocalInstallIdentityGeneration::GlaedaV2 {
        2
    } else {
        0
    };
    assert(x->Object_0[offset].1 == Json::Text(a.0) && y->Object_0[offset].1 == Json::Text(b.0));
    assert(x->Object_0[offset + 1].1 == Json::Text(a.1) && y->Object_0[offset + 1].1 == Json::Text(
        b.1,
    ));
    assert(x->Object_0[offset + 2].1 == Json::Text(a.2) && y->Object_0[offset + 2].1 == Json::Text(
        b.2,
    ));
    assert(x->Object_0[offset + 3].1 == Json::Text(a.3) && y->Object_0[offset + 3].1 == Json::Text(
        b.3,
    ));
}

proof fn lemma_same_rest(prefix: Seq<char>, x: Seq<char>, y: Seq<char>)
    requires
        prefix + x == prefix + y,
    ensures
        x == y,
{
    assert(x =~= (prefix + x).skip(prefix.len() as int));
    assert(y =~= (prefix + y).skip(prefix.len() as int));
}

/// The bytes that identify a generation determine its number, predecessor,
/// source and artifact.
pub proof fn law_generation_evidence_is_bound(
    a: BuildPlanView,
    x: EvidenceView,
    b: BuildPlanView,
    y: EvidenceView,
)
    requires
        a.source.identity_generation == b.source.identity_generation,
        generation_domain(a.source.identity_generation) + canonical_json::rendered(
            generation_document(a, x),
        ) == generation_domain(b.source.identity_generation) + canonical_json::rendered(
            generation_document(b, y),
        ),
    ensures
        a == b,
        x.binary_digest == y.binary_digest,
        x.binary_version == y.binary_version,
{
    let left = generation_document(a, x);
    let right = generation_document(b, y);
    lemma_same_rest(
        generation_domain(a.source.identity_generation),
        canonical_json::rendered(left),
        canonical_json::rendered(right),
    );
    canonical_json::law_canonical_text_is_injective(left, right);
    let current = a.source.identity_generation == LocalInstallIdentityGeneration::GlaedaV2;
    let at: int = if current {
        2
    } else {
        1
    };
    let l = left->Object_0;
    let r = right->Object_0;
    assert(l[at] == r[at] && l[at + 1] == r[at + 1] && l[at + 2] == r[at + 2] && l[at + 3] == r[at
        + 3] && l[at + 4] == r[at + 4]);
    assert(l[at].1 == Json::Number(a.target_generation as nat));
    assert(r[at].1 == Json::Number(b.target_generation as nat));
    match (a.expected_predecessor, b.expected_predecessor) {
        (Some(p), Some(q)) => {
            assert(l[at + 1].1 == identity_json(p) && r[at + 1].1 == identity_json(q));
            let ps = identity_json(p)->Object_0;
            let qs = identity_json(q)->Object_0;
            assert(ps[0].1 == Json::Number(p.number as nat) && qs[0].1 == Json::Number(
                q.number as nat,
            ));
            assert(ps[1].1 == Json::Text(p.digest) && qs[1].1 == Json::Text(q.digest));
        },
        (None, None) => {},
        _ => {
            assert(l[at + 1].1 != r[at + 1].1);
        },
    }
    let ls = l[at + 2].1->Object_0;
    let rs = r[at + 2].1->Object_0;
    let from: int = if current {
        1
    } else {
        0
    };
    assert(ls[from].1 == Json::Text(a.source.commit) && rs[from].1 == Json::Text(b.source.commit));
    assert(ls[from + 1].1 == Json::Text(a.source.tree) && rs[from + 1].1 == Json::Text(
        b.source.tree,
    ));
    assert(ls[from + 2].1 == Json::Text(a.source.cargo_lock_digest) && rs[from + 2].1 == Json::Text(
        b.source.cargo_lock_digest,
    ));
    assert(ls[from + 3].1 == Json::Text(a.source.toolchain) && rs[from + 3].1 == Json::Text(
        b.source.toolchain,
    ));
    assert(ls[from + 4].1 == Json::Text(a.source.digest) && rs[from + 4].1 == Json::Text(
        b.source.digest,
    ));
    assert(l[at + 3].1 == Json::Text(x.binary_digest) && r[at + 3].1 == Json::Text(y.binary_digest));
    assert(l[at + 4].1 == Json::Text(x.binary_version) && r[at + 4].1 == Json::Text(
        y.binary_version,
    ));
}

/// The accepted generation is kept exactly when all of its source evidence is
/// what is asked for. Whatever part of it differs, a build of the exact
/// successor is required, or the numbers are exhausted; nothing is decided about
/// the launcher then.
pub proof fn law_changed_source_is_built_again(
    state: StateView,
    source: SourceView,
    platform: LocalInstallPlatform,
    launchers: Seq<ObservationView>,
)
    requires
        state.accepted is Some,
    ensures
        ({
            let accepted = state.accepted->0;
            let decision = install_decision(state, source, platform, launchers);
            let number = accepted.identity.number;
            let same = {
                &&& accepted.source.identity_generation == source.identity_generation
                &&& accepted.source.commit == source.commit
                &&& accepted.source.tree == source.tree
                &&& accepted.source.cargo_lock_digest == source.cargo_lock_digest
                &&& accepted.source.toolchain == source.toolchain
                &&& accepted.source.digest == source.digest
            };
            &&& same ==> decision == launcher_decision(accepted.identity, platform, launchers)
            &&& !same && number < 0xffff_ffff_ffff_ffff ==> match decision {
                Ok(DecisionView::BuildRequired { plan }) => {
                    &&& plan.target_generation == number + 1
                    &&& plan.expected_predecessor == Some(accepted.identity)
                    &&& plan.source == source
                },
                _ => false,
            }
            &&& !same && number == 0xffff_ffff_ffff_ffff ==> decision is Err
                && decision->Err_0.kind == LocalInstallPlanErrorKind::GenerationExhausted
        }),
{
}

/// Without an accepted generation the first one is built, whatever launchers
/// were observed.
pub proof fn law_first_generation_is_built(
    state: StateView,
    source: SourceView,
    platform: LocalInstallPlatform,
    launchers: Seq<ObservationView>,
)
    requires
        state.accepted is None,
    ensures
        match install_decision(state, source, platform, launchers) {
            Ok(DecisionView::BuildRequired { plan }) => {
                &&& plan.target_generation == 1
                &&& plan.expected_predecessor is None
                &&& plan.source == source
            },
            _ => false,
        },
{
}

/// Where the launcher has to point is decided by what PATH resolves first, and
/// a plan about the launcher never asks for a build.
pub proof fn law_launcher_plans_follow_their_observation(
    generation: IdentityView,
    platform: LocalInstallPlatform,
    s: Seq<ObservationView>,
)
    requires
        launcher_decision(generation, platform, s) is Ok,
    ensures
        s.len() <= 4,
        launcher_decision(generation, platform, s) matches Ok(decision) ==> match decision {
            DecisionView::BuildRequired { .. } => false,
            DecisionView::Satisfied { generation: target, location } => target == generation
                && exists|k: int|
                {
                    &&& 0 <= k < s.len()
                    &&& (#[trigger] s[k]).location == location
                    &&& s[k].in_path
                    &&& s[k].directory != LauncherDirectoryDisposition::Unsafe
                    &&& s[k].entry == (EntryView::Owned { generation_digest: generation.digest })
                    &&& is_not_shadowed(s, k)
                },
            DecisionView::SwitchLauncher { target_generation, location } => target_generation
                == generation && exists|k: int|
                {
                    &&& 0 <= k < s.len()
                    &&& (#[trigger] s[k]).location == location
                    &&& s[k].in_path
                    &&& s[k].directory == LauncherDirectoryDisposition::ReadyUserOwned
                    &&& s[k].entry is Absent || s[k].entry is Owned
                    &&& s[k].entry != (EntryView::Owned { generation_digest: generation.digest })
                    &&& is_not_shadowed(s, k)
                },
            DecisionView::ElevationRequired { generation: target, location } => target
                == generation && exists|k: int|
                {
                    &&& 0 <= k < s.len()
                    &&& (#[trigger] s[k]).location == location
                    &&& s[k].in_path
                    &&& s[k].directory == LauncherDirectoryDisposition::NeedsElevation
                    &&& s[k].entry is Absent || s[k].entry is Owned
                    &&& s[k].entry != (EntryView::Owned { generation_digest: generation.digest })
                    &&& s[k].entry is Owned ==> is_not_shadowed(s, k)
                    &&& s[k].entry is Absent ==> forall|j: int|
                        0 <= j < s.len() && (#[trigger] s[j]).in_path ==> s[j].entry is Absent && (
                        s[j].directory == LauncherDirectoryDisposition::Unavailable || (
                        s[j].directory == LauncherDirectoryDisposition::NeedsElevation
                            && s[k].path_rank->0 <= s[j].path_rank->0))
                },
        },
{
    assert forall|k: int| 0 <= k < s.len() implies (#[trigger] s[k]).in_path == (
    s[k].path_rank is Some) by {
        lemma_no_refusal(platform, s, s.len(), k);
    }
    match earliest(s, false) {
        Some(k) => {
            assert(is_earliest(s, k, false));
            assert(0 <= k < s.len() && s[k].in_path);
            assert forall|j: int|
                0 <= j < s.len() && (#[trigger] s[j]).in_path && s[j].path_rank->0
                    < s[k].path_rank->0 implies s[j].entry is Absent && (s[j].directory
                == LauncherDirectoryDisposition::NeedsElevation || s[j].directory
                == LauncherDirectoryDisposition::Unavailable) by {
                if decides(s[j]) {
                    assert(in_play(s, j, false));
                }
            }
            assert(is_not_shadowed(s, k));
        },
        None => {
            let k = earliest(s, true)->0;
            assert(is_earliest(s, k, true));
            assert(0 <= k < s.len() && s[k].in_path);
            assert forall|j: int| 0 <= j < s.len() && (#[trigger] s[j]).in_path implies !decides(
                s[j],
            ) && (can_elevate(s[j]) ==> s[k].path_rank->0 <= s[j].path_rank->0) by {
                if decides(s[j]) {
                    lemma_some_is_earliest(s, j, false);
                }
                if can_elevate(s[j]) {
                    assert(in_play(s, j, true));
                }
            }
        },
    }
}

/// Nothing that PATH reaches before this observation holds an entry or could
/// take one without elevation.
pub open spec fn is_not_shadowed(s: Seq<ObservationView>, k: int) -> bool {
    forall|j: int|
        0 <= j < s.len() && (#[trigger] s[j]).in_path && s[j].path_rank->0 < s[k].path_rank->0
            ==> s[j].entry is Absent && (s[j].directory
            == LauncherDirectoryDisposition::NeedsElevation || s[j].directory
            == LauncherDirectoryDisposition::Unavailable)
}

/// Where something is in play, something is earliest.
proof fn lemma_some_is_earliest(s: Seq<ObservationView>, i: int, fallback: bool)
    requires
        in_play(s, i, fallback),
    ensures
        earliest(s, fallback) is Some,
    decreases s[i].path_rank->0,
{
    if !is_earliest(s, i, fallback) {
        let j = choose|j: int| #[trigger]
            in_play(s, j, fallback) && s[j].path_rank->0 < s[i].path_rank->0;
        lemma_some_is_earliest(s, j, fallback);
    }
}

/// Observations that can stand side by side: at most four, of different
/// locations that the platform has, with a rank of their own in PATH if they
/// are in it.
pub open spec fn are_compatible(platform: LocalInstallPlatform, s: Seq<ObservationView>) -> bool {
    &&& s.len() <= 4
    &&& forall|i: int|
        0 <= i < s.len() ==> (#[trigger] s[i]).in_path == (s[i].path_rank is Some) && (platform
            == LocalInstallPlatform::Macos || s[i].location != LauncherLocationClass::HomebrewBin)
    &&& forall|i: int, j: int|
        0 <= i < j < s.len() ==> (#[trigger] s[i]).location != (#[trigger] s[j]).location && (
        s[i].path_rank is None || s[i].path_rank != s[j].path_rank)
}

/// Observations are refused exactly when they cannot stand side by side.
pub proof fn law_only_incompatible_observations_are_refused(
    platform: LocalInstallPlatform,
    s: Seq<ObservationView>,
)
    ensures
        launcher_refusal(platform, s) is None <==> are_compatible(platform, s),
        s.len() > 4 ==> launcher_refusal(platform, s)->0.kind
            == LocalInstallPlanErrorKind::TooManyLauncherObservations,
{
    if launcher_refusal(platform, s) is None {
        assert forall|i: int| 0 <= i < s.len() implies (#[trigger] s[i]).in_path == (
        s[i].path_rank is Some) && (platform == LocalInstallPlatform::Macos || s[i].location
            != LauncherLocationClass::HomebrewBin) by {
            lemma_no_refusal(platform, s, s.len(), i);
        }
        assert forall|i: int, j: int| 0 <= i < j < s.len() implies (#[trigger] s[i]).location
            != (#[trigger] s[j]).location && (s[i].path_rank is None || s[i].path_rank
            != s[j].path_rank) by {
            lemma_no_refusal(platform, s, s.len(), j);
        }
    }
    if are_compatible(platform, s) {
        lemma_nothing_refused(platform, s, s.len());
    }
}

proof fn lemma_nothing_refused(platform: LocalInstallPlatform, s: Seq<ObservationView>, n: nat)
    requires
        are_compatible(platform, s),
        n <= s.len(),
    ensures
        first_refusal(platform, s, n) is None,
    decreases n,
{
    if n > 0 {
        lemma_nothing_refused(platform, s, (n - 1) as nat);
        assert(s[n - 1].in_path == (s[n - 1].path_rank is Some));
    }
}

/// The first entry that PATH reaches decides: one that is owned and current
/// satisfies the plan, a stale or missing one is switched by the user or needs
/// elevation, and one that is not the installer's is never touched.
pub proof fn law_first_reached_observation_decides(
    generation: IdentityView,
    platform: LocalInstallPlatform,
    s: Seq<ObservationView>,
    k: int,
)
    requires
        are_compatible(platform, s),
        0 <= k < s.len(),
        s[k].in_path,
        is_not_shadowed(s, k),
        !(s[k].entry is Absent) || s[k].directory == LauncherDirectoryDisposition::ReadyUserOwned
            || s[k].directory == LauncherDirectoryDisposition::Unsafe,
    ensures
        ({
            let decision = launcher_decision(generation, platform, s);
            let location = s[k].location;
            let directory = s[k].directory;
            let current = EntryView::Owned { generation_digest: generation.digest };
            match s[k].entry {
                EntryView::Foreign => decision is Err && decision->Err_0.kind
                    == LocalInstallPlanErrorKind::ForeignLauncher,
                EntryView::Unknown => decision is Err && decision->Err_0.kind
                    == LocalInstallPlanErrorKind::UnknownLauncher,
                _ => if directory == LauncherDirectoryDisposition::Unsafe {
                    decision is Err && decision->Err_0.kind
                        == LocalInstallPlanErrorKind::UnsafeLauncherLocation
                } else if s[k].entry == current {
                    decision == Ok::<DecisionView, PlanErrorView>(
                        DecisionView::Satisfied { generation, location },
                    )
                } else if directory == LauncherDirectoryDisposition::ReadyUserOwned {
                    decision == Ok::<DecisionView, PlanErrorView>(
                        DecisionView::SwitchLauncher { target_generation: generation, location },
                    )
                } else if directory == LauncherDirectoryDisposition::NeedsElevation {
                    decision == Ok::<DecisionView, PlanErrorView>(
                        DecisionView::ElevationRequired { generation, location },
                    )
                } else {
                    decision is Err && decision->Err_0.kind
                        == LocalInstallPlanErrorKind::InvalidLauncherObservation
                },
            }
        }),
{
    law_only_incompatible_observations_are_refused(platform, s);
    assert(in_play(s, k, false));
    assert forall|j: int| #[trigger] in_play(s, j, false) implies s[k].path_rank->0
        <= s[j].path_rank->0 by {
        assert(s[j].in_path);
    }
    lemma_earliest_is(platform, s, k, false);
}

/// Where PATH reaches no entry and no directory of the user, the first absent
/// entry that elevation could create is asked for; where there is none of
/// these either, no launcher location is left.
pub proof fn law_elevation_is_the_last_resort(
    generation: IdentityView,
    platform: LocalInstallPlatform,
    s: Seq<ObservationView>,
)
    requires
        are_compatible(platform, s),
        forall|j: int|
            0 <= j < s.len() && (#[trigger] s[j]).in_path ==> s[j].entry is Absent && (s[j].directory
                == LauncherDirectoryDisposition::NeedsElevation || s[j].directory
                == LauncherDirectoryDisposition::Unavailable),
    ensures
        ({
            let decision = launcher_decision(generation, platform, s);
            if exists|k: int|
                0 <= k < s.len() && (#[trigger] s[k]).in_path && s[k].directory
                    == LauncherDirectoryDisposition::NeedsElevation {
                decision matches Ok(answer) && answer is ElevationRequired
            } else {
                decision matches Err(e) && e.kind
                    == LocalInstallPlanErrorKind::NoApprovedLauncherLocation
            }
        }),
{
    law_only_incompatible_observations_are_refused(platform, s);
    assert forall|j: int| !is_earliest(s, j, false) by {
        if in_play(s, j, false) {
            assert(s[j].in_path);
        }
    }
    if exists|k: int|
        0 <= k < s.len() && (#[trigger] s[k]).in_path && s[k].directory
            == LauncherDirectoryDisposition::NeedsElevation {
        let k = choose|k: int|
            0 <= k < s.len() && (#[trigger] s[k]).in_path && s[k].directory
                == LauncherDirectoryDisposition::NeedsElevation;
        assert(in_play(s, k, true));
        lemma_some_is_earliest(s, k, true);
    } else {
        assert forall|j: int| !is_earliest(s, j, true) by {
            if in_play(s, j, true) {
                assert(s[j].in_path);
            }
        }
    }
}

/// A rollback leads from the accepted generation to a retained one, through the
/// launcher decision that a fresh plan of that generation would make, and is
/// refused when either is missing.
pub proof fn law_rollback_leads_to_a_retained_generation(
    state: StateView,
    target: IdentityView,
    platform: LocalInstallPlatform,
    launchers: Seq<ObservationView>,
)
    ensures
        ({
            let rollback = rollback_decision(state, target, platform, launchers);
            let launcher = launcher_decision(target, platform, launchers);
            let kept = exists|i: int|
                0 <= i < state.retained.len() && (#[trigger] state.retained[i]).identity == target;
            &&& rollback is Ok <==> state.accepted is Some && kept && launcher is Ok
            &&& state.accepted is None ==> rollback->Err_0.kind
                == LocalInstallPlanErrorKind::MissingAcceptedGeneration
            &&& state.accepted is Some && !kept ==> rollback->Err_0.kind
                == LocalInstallPlanErrorKind::RollbackTargetUnavailable
            &&& state.accepted is Some && kept && launcher is Err ==> rollback->Err_0
                == launcher->Err_0
            &&& rollback matches Ok(plan) ==> {
                &&& plan.from == state.accepted->0.identity
                &&& plan.to == target
                &&& match plan.launcher {
                    RollbackLauncherRequirement::AlreadyPointsToTarget { location } => launcher
                        == Ok::<DecisionView, PlanErrorView>(
                        DecisionView::Satisfied { generation: target, location },
                    ),
                    RollbackLauncherRequirement::Switch { location } => launcher == Ok::<
                        DecisionView,
                        PlanErrorView,
                    >(DecisionView::SwitchLauncher { target_generation: target, location }),
                    RollbackLauncherRequirement::Elevation { location } => launcher == Ok::<
                        DecisionView,
                        PlanErrorView,
                    >(DecisionView::ElevationRequired { generation: target, location }),
                }
            }
        }),
{
    if launcher_decision(target, platform, launchers) is Ok {
        law_launcher_plans_follow_their_observation(target, platform, launchers);
    }
}

/// A toolchain name or a binary version is bounded and printable: it is not
/// empty, has at most 128 characters, and none that could break a line. Every
/// toolchain name could be a version, and a name stays one when its characters
/// are put in another order.
pub proof fn law_names_are_bounded_and_printable(value: Seq<char>, other: Seq<char>)
    ensures
        is_toolchain(value) ==> is_binary_version(value),
        is_binary_version(value) ==> 1 <= value.len() <= 128,
        is_binary_version(value) <==> 1 <= value.len() <= 128 && forall|i: int|
            0 <= i < value.len() ==> 32 <= (#[trigger] value[i]) as int <= 126,
        is_toolchain(value) <==> 1 <= value.len() <= 128 && forall|i: int|
            0 <= i < value.len() ==> {
                let c = (#[trigger] value[i]) as int;
                48 <= c <= 57 || 65 <= c <= 90 || 97 <= c <= 122 || c == 46 || c == 95 || c == 43
                    || c == 45
            },
        is_toolchain(value) && is_toolchain(other) && value.len() + other.len() <= 128
            ==> is_toolchain(value + other),
{
}

/// A build is completed exactly by evidence of its own source and predecessor,
/// and the generation that comes of it is the planned one with the artifact of
/// the evidence.
pub proof fn law_builds_are_completed_by_their_own_evidence(
    plan: BuildPlanView,
    evidence: EvidenceView,
)
    ensures
        ({
            let built = completed_build(plan, evidence);
            &&& built is Ok <==> evidence.source_digest == plan.source.digest
                && evidence.predecessor == plan.expected_predecessor
            &&& built matches Err(e) ==> e.kind == LocalInstallPlanErrorKind::BuildEvidenceConflict
            &&& built matches Ok(generation) ==> {
                &&& generation.identity.number == plan.target_generation
                &&& generation.predecessor == plan.expected_predecessor
                &&& generation.source == plan.source
                &&& generation.binary_digest == evidence.binary_digest
                &&& generation.binary_version == evidence.binary_version
            }
        }),
{
}

/// A state holds at most one retained generation beside the accepted one, and
/// never the same one twice.
pub proof fn law_states_retain_at_most_one_other_generation(
    accepted: Option<GenerationView>,
    retained: Seq<GenerationView>,
)
    ensures
        bounded_state(accepted, retained) is Ok <==> retained.len() == 0 || (retained.len() == 1
            && (accepted is None || accepted->0.identity.number != retained[0].identity.number
            || accepted->0.identity.digest != retained[0].identity.digest)),
        bounded_state(accepted, retained) matches Ok(state) ==> state.accepted == accepted
            && state.retained == retained,
        retained.len() > 1 ==> bounded_state(accepted, retained)->Err_0.kind
            == LocalInstallPlanErrorKind::RetainedGenerationLimit,
{
}

/// An observation is consistent exactly when it has a rank if it is in PATH,
/// and no entry where PATH or the directory does not reach one.
pub proof fn law_observations_outside_path_are_empty(o: ObservationView)
    ensures
        is_consistent_observation(o) <==> {
            &&& o.in_path <==> o.path_rank is Some
            &&& o.entry is Absent || (o.in_path && o.directory
                != LauncherDirectoryDisposition::Unavailable)
        },
{
}

/// A source and a generation are digested under the domains of their identity
/// generation, which end in a character that no document holds.
pub proof fn law_digests_are_of_their_domains(
    source: (Seq<char>, Seq<char>, Seq<char>, Seq<char>),
    plan: BuildPlanView,
    evidence: EvidenceView,
)
    ensures
        source_digest(
            LocalInstallIdentityGeneration::GlaedaV2,
            source.0,
            source.1,
            source.2,
            source.3,
        ) == artifact::digest_text(
            vstd::utf8::encode_utf8(
                "glaeda-local-install-source-v2\0"@ + canonical_json::rendered(
                    source_document(
                        LocalInstallIdentityGeneration::GlaedaV2,
                        source.0,
                        source.1,
                        source.2,
                        source.3,
                    ),
                ),
            ),
        ),
        source_digest(
            LocalInstallIdentityGeneration::SmolrunnerV1,
            source.0,
            source.1,
            source.2,
            source.3,
        ) == artifact::digest_text(
            vstd::utf8::encode_utf8(
                "smolrunner-local-install-source-v1\0"@ + canonical_json::rendered(
                    Json::Object(
                        seq![
                            ("commit"@, Json::Text(source.0)),
                            ("tree"@, Json::Text(source.1)),
                            ("cargo_lock_digest"@, Json::Text(source.2)),
                            ("toolchain"@, Json::Text(source.3)),
                        ],
                    ),
                ),
            ),
        ),
        generation_digest(plan, evidence) == artifact::digest_text(
            vstd::utf8::encode_utf8(
                (match plan.source.identity_generation {
                    LocalInstallIdentityGeneration::SmolrunnerV1 =>
                        "smolrunner-local-install-generation-v1\0"@,
                    LocalInstallIdentityGeneration::GlaedaV2 =>
                        "glaeda-local-install-generation-v2\0"@,
                }) + canonical_json::rendered(generation_document(plan, evidence)),
            ),
        ),
{
}

/// The documents of the current identity generation say so, and hold every part
/// of what they identify under its name.
pub proof fn law_current_documents_name_their_parts(
    plan: BuildPlanView,
    evidence: EvidenceView,
)
    requires
        plan.source.identity_generation == LocalInstallIdentityGeneration::GlaedaV2,
    ensures
        ({
            let source = plan.source;
            let s = source_document(
                source.identity_generation,
                source.commit,
                source.tree,
                source.cargo_lock_digest,
                source.toolchain,
            );
            let g = generation_document(plan, evidence);
            let kind = Json::Text("glaeda_v2"@);
            &&& canonical_json::has_member(s, 0, "schema_version"@, Json::Number(2))
            &&& canonical_json::has_member(s, 1, "identity_generation"@, kind)
            &&& canonical_json::has_member(s, 2, "commit"@, Json::Text(source.commit))
            &&& canonical_json::has_member(s, 3, "tree"@, Json::Text(source.tree))
            &&& canonical_json::has_member(
                s,
                4,
                "cargo_lock_digest"@,
                Json::Text(source.cargo_lock_digest),
            )
            &&& canonical_json::has_member(s, 5, "toolchain"@, Json::Text(source.toolchain))
            &&& canonical_json::has_member(g, 0, "schema_version"@, Json::Number(2))
            &&& canonical_json::has_member(g, 1, "identity_generation"@, kind)
            &&& canonical_json::has_member(
                g,
                2,
                "number"@,
                Json::Number(plan.target_generation as nat),
            )
            &&& plan.expected_predecessor is None ==> canonical_json::has_member(
                g,
                3,
                "predecessor"@,
                Json::Null,
            )
            &&& canonical_json::has_member(
                g,
                5,
                "binary_digest"@,
                Json::Text(evidence.binary_digest),
            )
            &&& canonical_json::has_member(
                g,
                6,
                "binary_version"@,
                Json::Text(evidence.binary_version),
            )
        }),
{
}

} // verus!
