//! Crash-safe private per-user storage for verified Glaeda binary generations.
//!
//! The store owns only binary-generation persistence. It does not build binaries, inspect or
//! modify `PATH`, switch a launcher, adopt legacy SmolRunner state, or grant execution authority.
//! All owned path components are fixed or derived from canonical digests.
use vstd::prelude::*;

use crate::artifact;
use crate::artifact::Sha256Digest;
use crate::canonical_json;
use crate::canonical_json::{Json, ObjectWriter};
use crate::file_evidence;
use crate::file_evidence::FileStat;
use crate::local_install_plan;
use crate::local_install_plan::{
    complete_local_install_build, copied_identity, identity_text, same_identity,
    BuiltLocalBinaryEvidence, GenerationView, IdentityView, InstalledLocalBinaryGeneration,
    LocalInstallBuildPlan, LocalInstallGenerationIdentity, LocalInstallIdentityGeneration,
    LocalInstallSourceIdentity, LocalInstallState, SourceView,
    StateView,
};
use crate::outcome;
use crate::scan;
use crate::text;

verus! {

pub const LOCAL_INSTALL_GENERATION_STORE_SCHEMA_VERSION: u8 = 1;

pub const MAX_LOCAL_INSTALL_GENERATION_DOCUMENT_BYTES: usize = 16384;

pub const MAX_LOCAL_INSTALL_CURRENT_DOCUMENT_BYTES: usize = 4096;

pub const MAX_LOCAL_INSTALL_BINARY_BYTES: u64 = 536870912;

pub const MAX_LOCAL_INSTALL_STORE_IDENTITY_BYTES: usize = 1024;

pub const LOCAL_INSTALL_DIRECTORY: &'static str = "local-install";

pub const STORE_IDENTITY_FILE: &'static str = "store.identity.json";

pub const INITIALIZATION_STAGE_PREFIX: &'static str = ".local-install.init-";

pub const LOCK_FILE: &'static str = "lock";

pub const CURRENT_FILE: &'static str = "current";

pub const CURRENT_NEXT_FILE: &'static str = "current.next";

pub const GENERATIONS_DIRECTORY: &'static str = "generations";

pub const STAGED_DIRECTORY: &'static str = "staged";

pub const GENERATION_DOCUMENT: &'static str = "generation.json";

pub const BINARY_FILE: &'static str = "glaeda";

pub const MAX_GENERATION_ENTRIES: usize = 4;

pub const MAX_STAGED_ENTRIES: usize = 2;

pub const PRIVATE_DIRECTORY_MODE: u32 = 0o700;

pub const PRIVATE_FILE_MODE: u32 = 0o600;

pub const PRIVATE_BINARY_MODE: u32 = 0o500;

/// Closed namespace generation for fresh current-product state.
#[derive(Debug, Clone, Copy, PartialEq, Eq, Structural)]
pub enum LocalInstallStoreGeneration {
    GlaedaCurrentV1,
}

/// Public class of the automatically selected private user-data location.
#[derive(Debug, Clone, Copy, PartialEq, Eq, Structural)]
pub enum LocalInstallStoreLocationClass {
    LinuxXdgDataHome,
    LinuxHomeDefault,
    MacosApplicationSupport,
}

impl LocalInstallStoreLocationClass {
    pub open spec fn name(self) -> Seq<char> {
        match self {
            LocalInstallStoreLocationClass::LinuxXdgDataHome => "linux_xdg_data_home"@,
            LocalInstallStoreLocationClass::LinuxHomeDefault => "linux_home_default"@,
            LocalInstallStoreLocationClass::MacosApplicationSupport => "macos_application_support"@,
        }
    }

    /// The stable name under which documents record the class.
    pub fn as_str(self) -> (name: &'static str)
        ensures
            name@ == self.name(),
    {
        match self {
            LocalInstallStoreLocationClass::LinuxXdgDataHome => "linux_xdg_data_home",
            LocalInstallStoreLocationClass::LinuxHomeDefault => "linux_home_default",
            LocalInstallStoreLocationClass::MacosApplicationSupport => "macos_application_support",
        }
    }
}

#[derive(Debug, Clone, Copy, PartialEq, Eq, Structural)]
pub enum LocalInstallGenerationStoreErrorKind {
    UnsupportedPlatform,
    InvalidLocation,
    InvalidRequest,
    Busy,
    Conflict,
    RecoveryRequired,
    CorruptState,
    UnsafeFilesystem,
    Io,
    InjectedFailure,
}

#[derive(Debug, PartialEq, Eq)]
pub struct LocalInstallGenerationStoreError {
    kind: LocalInstallGenerationStoreErrorKind,
    message: String,
}

pub struct StoreErrorView {
    pub kind: LocalInstallGenerationStoreErrorKind,
    pub message: Seq<char>,
}

impl View for LocalInstallGenerationStoreError {
    type V = StoreErrorView;

    closed spec fn view(&self) -> StoreErrorView {
        StoreErrorView { kind: self.kind, message: self.message@ }
    }
}

impl Clone for LocalInstallGenerationStoreError {
    fn clone(&self) -> (copy: Self)
        ensures
            copy@ == self@,
    {
        LocalInstallGenerationStoreError { kind: self.kind, message: self.message.clone() }
    }
}

impl LocalInstallGenerationStoreError {
    pub fn kind(&self) -> (kind: LocalInstallGenerationStoreErrorKind)
        ensures
            kind == self@.kind,
    {
        self.kind
    }

    /// The bounded, path-free explanation.
    pub fn message(&self) -> (message: &str)
        ensures
            message@ == self@.message,
    {
        self.message.as_str()
    }
}

pub open spec fn refusal(
    kind: LocalInstallGenerationStoreErrorKind,
    message: Seq<char>,
) -> StoreErrorView {
    StoreErrorView { kind, message }
}

pub open spec fn corrupt(message: Seq<char>) -> StoreErrorView {
    StoreErrorView { kind: LocalInstallGenerationStoreErrorKind::CorruptState, message }
}

pub open spec fn recovery_required(message: Seq<char>) -> StoreErrorView {
    StoreErrorView { kind: LocalInstallGenerationStoreErrorKind::RecoveryRequired, message }
}

pub open spec fn conflict(message: Seq<char>) -> StoreErrorView {
    StoreErrorView { kind: LocalInstallGenerationStoreErrorKind::Conflict, message }
}

pub open spec fn invalid_request(message: Seq<char>) -> StoreErrorView {
    StoreErrorView { kind: LocalInstallGenerationStoreErrorKind::InvalidRequest, message }
}

pub open spec fn unsafe_filesystem(message: Seq<char>) -> StoreErrorView {
    StoreErrorView { kind: LocalInstallGenerationStoreErrorKind::UnsafeFilesystem, message }
}

/// A store error with the given explanation.
pub fn store_error(
    kind: LocalInstallGenerationStoreErrorKind,
    message: &str,
) -> (e: LocalInstallGenerationStoreError)
    ensures
        e@ == refusal(kind, message@),
{
    LocalInstallGenerationStoreError { kind, message: message.to_owned() }
}

/// A store error whose explanation starts with its subject.
pub fn subject_error(
    kind: LocalInstallGenerationStoreErrorKind,
    subject: &str,
    problem: &str,
) -> (e: LocalInstallGenerationStoreError)
    ensures
        e@ == refusal(kind, subject@ + problem@),
{
    LocalInstallGenerationStoreError { kind, message: text::joined(subject, problem) }
}

/// Canonical caller identity for one replayable publication operation.
#[derive(Debug, PartialEq, Eq, PartialOrd, Ord, Hash)]
pub struct LocalInstallStoreOperationId(String);

impl View for LocalInstallStoreOperationId {
    type V = Seq<char>;

    closed spec fn view(&self) -> Seq<char> {
        self.0@
    }
}

impl Clone for LocalInstallStoreOperationId {
    fn clone(&self) -> (copy: Self)
        ensures
            copy@ == self@,
    {
        proof {
            use_type_invariant(self);
        }
        LocalInstallStoreOperationId(self.0.clone())
    }
}

/// The name of the directory in which an operation is staged.
pub open spec fn operation_name(operation: Seq<char>) -> Seq<char> {
    "op-"@ + operation.skip("sha256:"@.len() as int)
}

impl LocalInstallStoreOperationId {
    #[verifier::type_invariant]
    spec fn is_canonical(self) -> bool {
        artifact::is_sha256(self.0@)
    }

    /// Parse canonical SHA-256 operation identity.
    pub fn parse(value: &str) -> (r: Result<Self, LocalInstallGenerationStoreError>)
        ensures
            outcome::is_outcome(
                r,
                if artifact::is_sha256(value@) {
                    Ok(value@)
                } else {
                    Err(invalid_request("the local-install operation identity is invalid"@))
                },
            ),
    {
        if !artifact::canonical_sha256(value) {
            return Err(
                store_error(
                    LocalInstallGenerationStoreErrorKind::InvalidRequest,
                    "the local-install operation identity is invalid",
                ),
            );
        }
        Ok(LocalInstallStoreOperationId(value.to_owned()))
    }

    pub fn as_str(&self) -> (value: &str)
        ensures
            value@ == self@,
    {
        self.0.as_str()
    }

    pub fn same_as(&self, other: &Self) -> (same: bool)
        ensures
            same == (self@ == other@),
    {
        self.0 == other.0
    }

    /// The name of the directory in which the operation is staged.
    pub fn directory_name(&self) -> (name: String)
        ensures
            name@ == operation_name(self@),
    {
        proof {
            use_type_invariant(self);
        }
        let hex = after_digest_prefix(self.0.as_str());
        text::joined("op-", hex.as_str())
    }
}

/// What follows the `sha256:` prefix.
fn after_digest_prefix(digest: &str) -> (hex: String)
    requires
        digest@.len() >= "sha256:"@.len(),
    ensures
        hex@ == digest@.skip("sha256:"@.len() as int),
{
    proof {
        reveal_strlit("sha256:");
    }
    let chars = text::chars_of(digest);
    assert(chars@.skip(7) =~= chars@.subrange(7, chars@.len() as int));
    text::text_of(vstd::slice::slice_subrange(chars.as_slice(), 7, chars.len()))
}

/// A number and digest that can name a generation directory.
pub open spec fn is_nameable(identity: IdentityView) -> bool {
    identity.number > 0 && artifact::is_sha256(identity.digest)
}

/// The name of the directory that holds a generation.
pub open spec fn generation_name(identity: IdentityView) -> Seq<char> {
    "g"@ + text::decimal(identity.number as nat) + "-"@ + identity.digest.skip(
        "sha256:"@.len() as int,
    )
}

/// What [`generation_directory_name`] answers.
pub open spec fn named_generation(identity: IdentityView) -> Result<Seq<char>, StoreErrorView> {
    if is_nameable(identity) {
        Ok(generation_name(identity))
    } else {
        Err(
            invalid_request("the generation identity cannot form a canonical directory name"@),
        )
    }
}

/// The canonical directory name of a generation.
pub fn generation_directory_name(identity: &LocalInstallGenerationIdentity) -> (r: Result<
    String,
    LocalInstallGenerationStoreError,
>)
    ensures
        outcome::is_outcome(r, named_generation(identity@)),
{
    if !artifact::canonical_sha256(identity.digest.as_str()) || identity.number == 0 {
        return Err(
            store_error(
                LocalInstallGenerationStoreErrorKind::InvalidRequest,
                "the generation identity cannot form a canonical directory name",
            ),
        );
    }
    let mut name = text::joined("g", text::decimal_text(identity.number).as_str());
    name.append("-");
    let hex = after_digest_prefix(identity.digest.as_str());
    name.append(hex.as_str());
    assert(name@ =~= generation_name(identity@));
    Ok(name)
}

pub open spec fn noncanonical_name() -> StoreErrorView {
    corrupt("the generation directory name is noncanonical"@)
}

/// What [`identity_from_generation_directory_name`] answers.
pub open spec fn generation_named(name: Seq<char>) -> Result<IdentityView, StoreErrorView> {
    if !text::has_prefix(name, "g"@) {
        Err(noncanonical_name())
    } else {
        let rest = name.skip(1);
        let dash = scan::first_position(rest, '-');
        if dash >= rest.len() {
            Err(noncanonical_name())
        } else {
            let number_text = rest.take(dash);
            let hex = rest.skip(dash + 1);
            match text::parsed_number(number_text, u64::MAX as nat) {
                None => Err(corrupt("the generation directory number is noncanonical"@)),
                Some(number) => if number == 0 {
                    Err(corrupt("the generation directory number is noncanonical"@))
                } else if text::decimal(number) != number_text || vstd::utf8::encode_utf8(hex).len()
                    != 64 {
                    Err(noncanonical_name())
                } else if !artifact::is_sha256("sha256:"@ + hex) {
                    Err(corrupt("the generation directory digest is noncanonical"@))
                } else {
                    Ok(IdentityView { number: number as u64, digest: "sha256:"@ + hex })
                },
            }
        }
    }
}

fn noncanonical() -> (e: LocalInstallGenerationStoreError)
    ensures
        e@ == noncanonical_name(),
{
    store_error(
        LocalInstallGenerationStoreErrorKind::CorruptState,
        "the generation directory name is noncanonical",
    )
}

/// The generation that a canonical directory name stands for.
pub fn identity_from_generation_directory_name(name: &str) -> (r: Result<
    LocalInstallGenerationIdentity,
    LocalInstallGenerationStoreError,
>)
    ensures
        outcome::is_outcome(r, generation_named(name@)),
{
    proof {
        reveal_strlit("g");
    }
    let chars = text::chars_of(name);
    if !text::starts_with(chars.as_slice(), "g") {
        return Err(noncanonical());
    }
    let rest = vstd::slice::slice_subrange(chars.as_slice(), 1, chars.len());
    assert(rest@ =~= name@.skip(1));
    let dash = scan::position_of(rest, '-');
    if dash >= rest.len() {
        return Err(noncanonical());
    }
    let number_chars = vstd::slice::slice_subrange(rest, 0, dash);
    assert(number_chars@ =~= rest@.take(dash as int));
    let hex_chars = vstd::slice::slice_subrange(rest, dash + 1, rest.len());
    assert(hex_chars@ =~= rest@.skip(dash + 1));
    let number = match text::parse_number(number_chars, u64::MAX) {
        Some(value) => value,
        None => 0,
    };
    if number == 0 {
        return Err(
            store_error(
                LocalInstallGenerationStoreErrorKind::CorruptState,
                "the generation directory number is noncanonical",
            ),
        );
    }
    let number_text = text::text_of(number_chars);
    let canonical_number = text::decimal_text(number);
    let hex = text::text_of(hex_chars);
    if canonical_number != number_text || text::byte_length(hex.as_str()) != 64 {
        return Err(noncanonical());
    }
    match Sha256Digest::parse(text::joined("sha256:", hex.as_str()).as_str()) {
        Ok(digest) => Ok(LocalInstallGenerationIdentity { number, digest }),
        Err(_) => Err(
            store_error(
                LocalInstallGenerationStoreErrorKind::CorruptState,
                "the generation directory digest is noncanonical",
            ),
        ),
    }
}

/// Whether `name` is the canonical name of a generation directory.
pub fn is_generation_directory_name(name: &str) -> (r: bool)
    ensures
        r == (generation_named(name@) is Ok),
{
    identity_from_generation_directory_name(name).is_ok()
}

/// The name of the directory in which a superseded generation is taken apart.
pub open spec fn retirement_name(identity: IdentityView) -> Seq<char> {
    "retire-"@ + generation_name(identity)
}

pub open spec fn named_retirement(identity: IdentityView) -> Result<Seq<char>, StoreErrorView> {
    match named_generation(identity) {
        Ok(name) => Ok("retire-"@ + name),
        Err(e) => Err(e),
    }
}

/// The canonical retirement directory name of a generation.
pub fn retirement_directory_name(identity: &LocalInstallGenerationIdentity) -> (r: Result<
    String,
    LocalInstallGenerationStoreError,
>)
    ensures
        outcome::is_outcome(r, named_retirement(identity@)),
{
    let name = generation_directory_name(identity)?;
    Ok(text::joined("retire-", name.as_str()))
}

/// What [`identity_from_retirement_directory_name`] answers.
pub open spec fn retirement_named(name: Seq<char>) -> Result<IdentityView, StoreErrorView> {
    if text::has_prefix(name, "retire-"@) {
        generation_named(name.skip("retire-"@.len() as int))
    } else {
        Err(corrupt("the retirement directory name is noncanonical"@))
    }
}

/// The generation that a canonical retirement directory name stands for.
pub fn identity_from_retirement_directory_name(name: &str) -> (r: Result<
    LocalInstallGenerationIdentity,
    LocalInstallGenerationStoreError,
>)
    ensures
        outcome::is_outcome(r, retirement_named(name@)),
{
    proof {
        reveal_strlit("retire-");
    }
    let chars = text::chars_of(name);
    if !text::starts_with(chars.as_slice(), "retire-") {
        return Err(
            store_error(
                LocalInstallGenerationStoreErrorKind::CorruptState,
                "the retirement directory name is noncanonical",
            ),
        );
    }
    let rest = vstd::slice::slice_subrange(chars.as_slice(), 7, chars.len());
    assert(rest@ =~= name@.skip(7));
    identity_from_generation_directory_name(text::text_of(rest).as_str())
}

/// Whether `name` is the canonical name of a retirement directory.
pub fn is_retirement_directory_name(name: &str) -> (r: bool)
    ensures
        r == (retirement_named(name@) is Ok),
{
    identity_from_retirement_directory_name(name).is_ok()
}

/// What [`operation_id_from_directory_name`] answers.
pub open spec fn operation_named(name: Seq<char>) -> Result<Seq<char>, StoreErrorView> {
    if !text::has_prefix(name, "op-"@) {
        Err(corrupt("the staged operation directory name is noncanonical"@))
    } else {
        let operation = "sha256:"@ + name.skip("op-"@.len() as int);
        if artifact::is_sha256(operation) {
            Ok(operation)
        } else {
            Err(invalid_request("the local-install operation identity is invalid"@))
        }
    }
}

/// The operation that a canonical staging directory name stands for.
pub fn operation_id_from_directory_name(name: &str) -> (r: Result<
    LocalInstallStoreOperationId,
    LocalInstallGenerationStoreError,
>)
    ensures
        outcome::is_outcome(r, operation_named(name@)),
{
    proof {
        reveal_strlit("op-");
    }
    let chars = text::chars_of(name);
    if !text::starts_with(chars.as_slice(), "op-") {
        return Err(
            store_error(
                LocalInstallGenerationStoreErrorKind::CorruptState,
                "the staged operation directory name is noncanonical",
            ),
        );
    }
    let rest = vstd::slice::slice_subrange(chars.as_slice(), 3, chars.len());
    assert(rest@ =~= name@.skip(3));
    let hex = text::text_of(rest);
    LocalInstallStoreOperationId::parse(text::joined("sha256:", hex.as_str()).as_str())
}

/// Whether `name` is the canonical name of an operation directory.
pub fn is_operation_directory_name(name: &str) -> (r: bool)
    ensures
        r == (operation_named(name@) is Ok),
{
    operation_id_from_directory_name(name).is_ok()
}

proof fn lemma_digest_parts(digest: Seq<char>)
    requires
        artifact::is_sha256(digest),
    ensures
        digest == "sha256:"@ + digest.skip(7),
        digest.skip(7).len() == 64,
        vstd::utf8::encode_utf8(digest.skip(7)).len() == 64,
        forall|i: int| 0 <= i < 64 ==> text::is_lower_hex(#[trigger] digest.skip(7)[i]),
{
    reveal_strlit("sha256:");
    let hex = digest.skip(7);
    assert(digest.take(7) =~= "sha256:"@);
    assert(digest =~= digest.take(7) + hex);
    assert(vstd::utf8::is_ascii_chars(hex)) by {
        assert forall|i: int| 0 <= i < hex.len() implies (#[trigger] hex[i]) as nat <= 0x7f by {
            assert(text::is_lower_hex(hex[i]));
        }
    }
    vstd::utf8::is_ascii_chars_encode_utf8(hex);
}

/// A generation can be read back from the name of its directory.
pub proof fn law_generation_name_round_trip(identity: IdentityView)
    requires
        is_nameable(identity),
    ensures
        generation_named(generation_name(identity)) == Ok::<IdentityView, StoreErrorView>(identity),
{
    reveal_strlit("g");
    reveal_strlit("-");
    reveal_strlit("sha256:");
    let name = generation_name(identity);
    let number_text = text::decimal(identity.number as nat);
    let hex = identity.digest.skip(7);
    lemma_digest_parts(identity.digest);
    text::lemma_decimal_spells(identity.number as nat);
    assert(name.take(1) =~= "g"@);
    let rest = name.skip(1);
    assert(rest =~= number_text + "-"@ + hex);
    assert forall|k: int| 0 <= k < number_text.len() implies rest[k] != '-' by {
        assert(rest[k] == number_text[k]);
        assert(text::is_decimal_digit(number_text[k]));
    }
    assert(rest[number_text.len() as int] == '-');
    scan::lemma_first_position(rest, '-', number_text.len() as int);
    assert(rest.take(number_text.len() as int) =~= number_text);
    assert(rest.skip(number_text.len() as int + 1) =~= hex);
    assert(text::is_decimal_digit(number_text[0]));
    assert(text::parsed_number(number_text, u64::MAX as nat) == Some(identity.number as nat));
}

/// Only the canonical name of a generation is read as that generation.
pub proof fn law_generation_name_is_canonical(name: Seq<char>)
    requires
        generation_named(name) is Ok,
    ensures
        is_nameable(generation_named(name)->Ok_0),
        name == generation_name(generation_named(name)->Ok_0),
{
    reveal_strlit("g");
    reveal_strlit("-");
    reveal_strlit("sha256:");
    let rest = name.skip(1);
    let dash = scan::first_position(rest, '-');
    scan::lemma_first_position_found(rest, '-');
    let number_text = rest.take(dash);
    let hex = rest.skip(dash + 1);
    assert(name =~= "g"@ + number_text + "-"@ + hex) by {
        assert(name =~= name.take(1) + rest);
        assert(rest =~= number_text + seq!['-'] + hex);
        assert("-"@ =~= seq!['-']);
    }
    assert(("sha256:"@ + hex).skip(7) =~= hex);
}

/// Distinct generations have distinct directory names.
pub proof fn law_generation_names_are_distinct(a: IdentityView, b: IdentityView)
    requires
        is_nameable(a),
        is_nameable(b),
        generation_name(a) == generation_name(b),
    ensures
        a == b,
{
    law_generation_name_round_trip(a);
    law_generation_name_round_trip(b);
}

/// A generation can be read back from its retirement name, and only from that.
pub proof fn law_retirement_name_round_trip(identity: IdentityView, name: Seq<char>)
    ensures
        is_nameable(identity) ==> retirement_named(retirement_name(identity)) == Ok::<
            IdentityView,
            StoreErrorView,
        >(identity),
        retirement_named(name) matches Ok(id) ==> is_nameable(id) && name == retirement_name(id),
{
    reveal_strlit("retire-");
    if is_nameable(identity) {
        let full = retirement_name(identity);
        assert(full.take(7) =~= "retire-"@);
        assert(full.skip(7) =~= generation_name(identity));
        law_generation_name_round_trip(identity);
    }
    if retirement_named(name) is Ok {
        law_generation_name_is_canonical(name.skip(7));
        assert(name =~= name.take(7) + name.skip(7));
    }
}

/// An operation can be read back from its staging name, and only from that.
pub proof fn law_operation_name_round_trip(operation: Seq<char>, name: Seq<char>)
    ensures
        artifact::is_sha256(operation) ==> operation_named(operation_name(operation)) == Ok::<
            Seq<char>,
            StoreErrorView,
        >(operation),
        operation_named(name) matches Ok(op) ==> artifact::is_sha256(op) && name == operation_name(
            op,
        ),
{
    reveal_strlit("op-");
    reveal_strlit("sha256:");
    if artifact::is_sha256(operation) {
        lemma_digest_parts(operation);
        let full = operation_name(operation);
        assert(full.take(3) =~= "op-"@);
        assert(full.skip(3) =~= operation.skip(7));
    }
    if operation_named(name) is Ok {
        let op = operation_named(name)->Ok_0;
        assert(op.skip(7) =~= name.skip(3));
        assert(name =~= name.take(3) + name.skip(3));
    }
}

/// No name stands for a staged operation and for a retirement at once.
pub proof fn law_staged_names_are_disjoint(name: Seq<char>)
    ensures
        !(operation_named(name) is Ok && retirement_named(name) is Ok),
{
    reveal_strlit("op-");
    reveal_strlit("retire-");
    if operation_named(name) is Ok && retirement_named(name) is Ok {
        assert(name.take(3)[0] == name.take(7)[0]);
        assert("op-"@[0] == 'o' && "retire-"@[0] == 'r');
    }
}

pub open spec fn not_exact_predecessor() -> StoreErrorView {
    invalid_request("the candidate is not bound to the exact current-Glaeda predecessor"@)
}

pub open spec fn plan_of(candidate: GenerationView) -> local_install_plan::BuildPlanView {
    local_install_plan::BuildPlanView {
        target_generation: candidate.identity.number,
        expected_predecessor: candidate.predecessor,
        source: candidate.source,
    }
}

pub open spec fn evidence_of(candidate: GenerationView) -> local_install_plan::EvidenceView {
    local_install_plan::EvidenceView {
        source_digest: candidate.source.digest,
        predecessor: candidate.predecessor,
        binary_digest: candidate.binary_digest,
        binary_version: candidate.binary_version,
    }
}

/// The number that succeeds a predecessor, if there is one left.
pub open spec fn successor_number(predecessor: Option<IdentityView>) -> int {
    match predecessor {
        Some(identity) => identity.number + 1,
        None => 1,
    }
}

/// Why a candidate may not be published after `expected`, if so.
pub open spec fn candidate_problem(
    candidate: GenerationView,
    expected: Option<IdentityView>,
) -> Option<StoreErrorView> {
    if candidate.source.identity_generation != LocalInstallIdentityGeneration::GlaedaV2
        || candidate.predecessor != expected {
        Some(not_exact_predecessor())
    } else if successor_number(expected) != candidate.identity.number {
        Some(invalid_request("the candidate is not the exact successor generation"@))
    } else if !local_install_plan::is_binary_version(candidate.binary_version) {
        Some(invalid_request("the candidate artifact evidence is invalid"@))
    } else if candidate.identity.digest != local_install_plan::generation_digest(
        plan_of(candidate),
        evidence_of(candidate),
    ) {
        Some(
            invalid_request(
                "the candidate generation identity does not match its canonical evidence"@,
            ),
        )
    } else {
        None
    }
}

/// Checks that a candidate reproduces from its own evidence and exactly
/// succeeds `expected_predecessor`.
pub fn validate_candidate(
    candidate: &InstalledLocalBinaryGeneration,
    expected_predecessor: &Option<LocalInstallGenerationIdentity>,
) -> (r: Result<(), LocalInstallGenerationStoreError>)
    ensures
        match r {
            Ok(()) => candidate_problem(candidate@, outcome::option_view(*expected_predecessor))
                is None && artifact::is_sha256(candidate.identity.digest@),
            Err(e) => candidate_problem(candidate@, outcome::option_view(*expected_predecessor))
                == Some(e@),
        },
{
    if candidate.source.identity_generation() != LocalInstallIdentityGeneration::GlaedaV2
        || !same_identity(&candidate.predecessor, expected_predecessor) {
        return Err(
            store_error(
                LocalInstallGenerationStoreErrorKind::InvalidRequest,
                "the candidate is not bound to the exact current-Glaeda predecessor",
            ),
        );
    }
    let expected_number: Option<u64> = match expected_predecessor {
        Some(predecessor) => predecessor.number.checked_add(1),
        None => Some(1),
    };
    let is_successor = match expected_number {
        Some(number) => number == candidate.identity.number,
        None => false,
    };
    if !is_successor {
        return Err(
            store_error(
                LocalInstallGenerationStoreErrorKind::InvalidRequest,
                "the candidate is not the exact successor generation",
            ),
        );
    }
    let plan = LocalInstallBuildPlan {
        target_generation: candidate.identity.number,
        expected_predecessor: copied_identity(&candidate.predecessor),
        source: candidate.source.clone(),
    };
    let evidence = match BuiltLocalBinaryEvidence::new(
        candidate.source.digest().clone(),
        copied_identity(&candidate.predecessor),
        candidate.binary_digest.clone(),
        candidate.binary_version.as_str(),
    ) {
        Ok(evidence) => evidence,
        Err(_) => {
            return Err(
                store_error(
                    LocalInstallGenerationStoreErrorKind::InvalidRequest,
                    "the candidate artifact evidence is invalid",
                ),
            );
        },
    };
    assert(plan@ == plan_of(candidate@));
    assert(evidence@ == evidence_of(candidate@));
    let derived = match complete_local_install_build(&plan, evidence) {
        Ok(derived) => derived,
        Err(_) => {
            return Err(
                store_error(
                    LocalInstallGenerationStoreErrorKind::InvalidRequest,
                    "the candidate generation identity could not be reproduced",
                ),
            );
        },
    };
    if !derived.same_as(candidate) {
        assert(derived@.identity.digest != candidate@.identity.digest);
        return Err(
            store_error(
                LocalInstallGenerationStoreErrorKind::InvalidRequest,
                "the candidate generation identity does not match its canonical evidence",
            ),
        );
    }
    Ok(())
}

pub open spec fn source_json(source: SourceView) -> Json {
    Json::Object(
        seq![
            ("identity_generation"@, Json::Text(source.identity_generation.name())),
            ("commit"@, Json::Text(source.commit)),
            ("tree"@, Json::Text(source.tree)),
            ("cargo_lock_digest"@, Json::Text(source.cargo_lock_digest)),
            ("toolchain"@, Json::Text(source.toolchain)),
            ("digest"@, Json::Text(source.digest)),
        ],
    )
}

/// An optional identity as a member, left out where there is none.
pub open spec fn optional_identity(
    key: Seq<char>,
    identity: Option<IdentityView>,
) -> Seq<(Seq<char>, Json)> {
    match identity {
        Some(value) => seq![(key, local_install_plan::identity_json(value))],
        None => Seq::empty(),
    }
}

pub open spec fn generation_json(generation: GenerationView) -> Json {
    Json::Object(
        seq![("identity"@, local_install_plan::identity_json(generation.identity))]
            + optional_identity("predecessor"@, generation.predecessor) + seq![
            ("source"@, source_json(generation.source)),
            ("binary_digest"@, Json::Text(generation.binary_digest)),
            ("binary_version"@, Json::Text(generation.binary_version)),
        ],
    )
}

/// The document whose digest identifies a publication request.
pub open spec fn request_json(
    operation: Seq<char>,
    expected: Option<IdentityView>,
    candidate: GenerationView,
) -> Json {
    Json::Object(
        seq![("operation_id"@, Json::Text(operation))] + optional_identity(
            "expected_predecessor"@,
            expected,
        ) + seq![("candidate"@, generation_json(candidate))],
    )
}

pub open spec fn request_digest(
    operation: Seq<char>,
    expected: Option<IdentityView>,
    candidate: GenerationView,
) -> Seq<char> {
    artifact::digest_text(
        vstd::utf8::encode_utf8(
            canonical_json::rendered(request_json(operation, expected, candidate)),
        ),
    )
}

fn write_identity(
    writer: &mut ObjectWriter,
    key: &str,
    identity: &Option<LocalInstallGenerationIdentity>,
)
    requires
        old(writer).wf(),
    ensures
        final(writer).wf(),
        final(writer).members() == old(writer).members() + optional_identity(
            key@,
            outcome::option_view(*identity),
        ),
{
    let ghost before = writer.members();
    if let Some(value) = identity {
        let object = identity_text(value);
        writer.value(
            key,
            object.as_str(),
            Ghost(local_install_plan::identity_json(value@)),
        );
    }
    assert(writer.members() =~= before + optional_identity(key@, outcome::option_view(*identity)));
}

fn source_text(source: &LocalInstallSourceIdentity) -> (object: String)
    ensures
        object@ == canonical_json::rendered(source_json(source@)),
{
    let mut writer = ObjectWriter::new();
    writer.string("identity_generation", source.identity_generation().as_str());
    writer.string("commit", source.commit().as_str());
    writer.string("tree", source.tree().as_str());
    writer.string("cargo_lock_digest", source.cargo_lock_digest().as_str());
    writer.string("toolchain", source.toolchain().as_str());
    writer.string("digest", source.digest().as_str());
    assert(writer.members() =~= source_json(source@)->Object_0);
    writer.finish()
}

/// The canonical JSON text of a generation.
pub fn generation_text(generation: &InstalledLocalBinaryGeneration) -> (object: String)
    ensures
        object@ == canonical_json::rendered(generation_json(generation@)),
{
    let mut writer = ObjectWriter::new();
    let identity = identity_text(&generation.identity);
    writer.value(
        "identity",
        identity.as_str(),
        Ghost(local_install_plan::identity_json(generation@.identity)),
    );
    write_identity(&mut writer, "predecessor", &generation.predecessor);
    let source = source_text(&generation.source);
    writer.value("source", source.as_str(), Ghost(source_json(generation@.source)));
    writer.string("binary_digest", generation.binary_digest.as_str());
    writer.string("binary_version", generation.binary_version.as_str());
    assert(writer.members() =~= generation_json(generation@)->Object_0);
    writer.finish()
}

fn derived_request_digest(
    operation_id: &LocalInstallStoreOperationId,
    expected_predecessor: &Option<LocalInstallGenerationIdentity>,
    candidate: &InstalledLocalBinaryGeneration,
) -> (digest: Sha256Digest)
    ensures
        digest@ == request_digest(
            operation_id@,
            outcome::option_view(*expected_predecessor),
            candidate@,
        ),
{
    let mut writer = ObjectWriter::new();
    writer.string("operation_id", operation_id.as_str());
    write_identity(&mut writer, "expected_predecessor", expected_predecessor);
    let generation = generation_text(candidate);
    writer.value("candidate", generation.as_str(), Ghost(generation_json(candidate@)));
    assert(writer.members() =~= request_json(
        operation_id@,
        outcome::option_view(*expected_predecessor),
        candidate@,
    )->Object_0);
    let document = writer.finish();
    Sha256Digest::of_bytes(document.as_str().as_bytes())
}

/// One exact CAS-bound request to persist an already verified generation.
#[derive(Debug, PartialEq, Eq)]
pub struct LocalInstallGenerationPublishRequest {
    operation_id: LocalInstallStoreOperationId,
    expected_predecessor: Option<LocalInstallGenerationIdentity>,
    candidate: InstalledLocalBinaryGeneration,
    request_digest: Sha256Digest,
}

pub struct RequestView {
    pub operation_id: Seq<char>,
    pub expected_predecessor: Option<IdentityView>,
    pub candidate: GenerationView,
    pub request_digest: Seq<char>,
}

impl View for LocalInstallGenerationPublishRequest {
    type V = RequestView;

    closed spec fn view(&self) -> RequestView {
        RequestView {
            operation_id: self.operation_id@,
            expected_predecessor: outcome::option_view(self.expected_predecessor),
            candidate: self.candidate@,
            request_digest: self.request_digest@,
        }
    }
}

impl Clone for LocalInstallGenerationPublishRequest {
    fn clone(&self) -> (copy: Self)
        ensures
            copy@ == self@,
    {
        LocalInstallGenerationPublishRequest {
            operation_id: self.operation_id.clone(),
            expected_predecessor: copied_identity(&self.expected_predecessor),
            candidate: self.candidate.clone(),
            request_digest: self.request_digest.clone(),
        }
    }
}

/// The request that binds a candidate to its predecessor and operation.
pub open spec fn bound_request(
    operation: Seq<char>,
    expected: Option<IdentityView>,
    candidate: GenerationView,
) -> RequestView {
    RequestView {
        operation_id: operation,
        expected_predecessor: expected,
        candidate,
        request_digest: request_digest(operation, expected, candidate),
    }
}

impl LocalInstallGenerationPublishRequest {
    /// Bind a current-Glaeda candidate to its exact predecessor and replay identity.
    ///
    /// This re-derives the generation identity from its source and artifact evidence. Legacy
    /// identity generations and non-successor candidates are refused before filesystem access.
    pub fn new(
        operation_id: LocalInstallStoreOperationId,
        expected_predecessor: Option<LocalInstallGenerationIdentity>,
        candidate: InstalledLocalBinaryGeneration,
    ) -> (r: Result<Self, LocalInstallGenerationStoreError>)
        ensures
            outcome::is_outcome(
                r,
                match candidate_problem(candidate@, outcome::option_view(expected_predecessor)) {
                    Some(problem) => Err(problem),
                    None => Ok(
                        bound_request(
                            operation_id@,
                            outcome::option_view(expected_predecessor),
                            candidate@,
                        ),
                    ),
                },
            ),
    {
        validate_candidate(&candidate, &expected_predecessor)?;
        let request_digest = derived_request_digest(
            &operation_id,
            &expected_predecessor,
            &candidate,
        );
        Ok(
            LocalInstallGenerationPublishRequest {
                operation_id,
                expected_predecessor,
                candidate,
                request_digest,
            },
        )
    }

    pub fn operation_id(&self) -> (r: &LocalInstallStoreOperationId)
        ensures
            r@ == self@.operation_id,
    {
        &self.operation_id
    }

    pub fn expected_predecessor(&self) -> (r: Option<&LocalInstallGenerationIdentity>)
        ensures
            match r {
                Some(identity) => self@.expected_predecessor == Some(identity@),
                None => self@.expected_predecessor is None,
            },
    {
        self.expected_predecessor.as_ref()
    }

    pub fn candidate(&self) -> (r: &InstalledLocalBinaryGeneration)
        ensures
            r@ == self@.candidate,
    {
        &self.candidate
    }

    /// The digest by which a replay of this request is recognised.
    pub fn request_digest(&self) -> (r: &Sha256Digest)
        ensures
            r@ == self@.request_digest,
    {
        &self.request_digest
    }
}

/// Narrow authority of a verified store snapshot.
#[derive(Debug, Clone, Copy, PartialEq, Eq, Structural)]
pub enum LocalInstallGenerationStoreAuthority {
    PrivateGenerationSnapshotOnly,
}

/// One fully verified accepted state loaded through the atomic current document.
#[derive(Debug, PartialEq, Eq)]
pub struct LocalInstallGenerationStoreSnapshot {
    store_generation: LocalInstallStoreGeneration,
    state: LocalInstallState,
    last_operation: Option<LocalInstallStoreOperationId>,
}

pub struct SnapshotView {
    pub state: StateView,
    pub last_operation: Option<Seq<char>>,
}

impl View for LocalInstallGenerationStoreSnapshot {
    type V = SnapshotView;

    closed spec fn view(&self) -> SnapshotView {
        SnapshotView {
            state: self.state@,
            last_operation: outcome::option_view(self.last_operation),
        }
    }
}

impl Clone for LocalInstallGenerationStoreSnapshot {
    fn clone(&self) -> (copy: Self)
        ensures
            copy@ == self@,
    {
        LocalInstallGenerationStoreSnapshot {
            store_generation: self.store_generation,
            state: self.state.clone(),
            last_operation: match &self.last_operation {
                Some(operation) => Some(operation.clone()),
                None => None,
            },
        }
    }
}

impl LocalInstallGenerationStoreSnapshot {
    pub(crate) fn of_state(
        state: LocalInstallState,
        last_operation: Option<LocalInstallStoreOperationId>,
    ) -> (snapshot: Self)
        ensures
            snapshot@ == (SnapshotView {
                state: state@,
                last_operation: outcome::option_view(last_operation),
            }),
    {
        LocalInstallGenerationStoreSnapshot {
            store_generation: LocalInstallStoreGeneration::GlaedaCurrentV1,
            state,
            last_operation,
        }
    }

    pub fn store_generation(&self) -> (r: LocalInstallStoreGeneration)
        ensures
            r == LocalInstallStoreGeneration::GlaedaCurrentV1,
    {
        self.store_generation
    }

    pub fn authority(&self) -> (r: LocalInstallGenerationStoreAuthority)
        ensures
            r == LocalInstallGenerationStoreAuthority::PrivateGenerationSnapshotOnly,
    {
        LocalInstallGenerationStoreAuthority::PrivateGenerationSnapshotOnly
    }

    pub fn state(&self) -> (r: &LocalInstallState)
        ensures
            r@ == self@.state,
    {
        &self.state
    }

    pub fn last_operation(&self) -> (r: Option<&LocalInstallStoreOperationId>)
        ensures
            match r {
                Some(operation) => self@.last_operation == Some(operation@),
                None => self@.last_operation is None,
            },
    {
        self.last_operation.as_ref()
    }
}

#[derive(Debug, Clone, Copy, PartialEq, Eq, Structural)]
pub enum LocalInstallGenerationPublishDisposition {
    Published,
    Replayed,
}

#[derive(Debug, PartialEq, Eq)]
pub struct LocalInstallGenerationPublishReceipt {
    disposition: LocalInstallGenerationPublishDisposition,
    location: LocalInstallStoreLocationClass,
    generation: LocalInstallGenerationIdentity,
    state: LocalInstallGenerationStoreSnapshot,
}

pub struct PublishReceiptView {
    pub disposition: LocalInstallGenerationPublishDisposition,
    pub location: LocalInstallStoreLocationClass,
    pub generation: IdentityView,
    pub state: SnapshotView,
}

impl View for LocalInstallGenerationPublishReceipt {
    type V = PublishReceiptView;

    closed spec fn view(&self) -> PublishReceiptView {
        PublishReceiptView {
            disposition: self.disposition,
            location: self.location,
            generation: self.generation@,
            state: self.state@,
        }
    }
}

impl LocalInstallGenerationPublishReceipt {
    pub(crate) fn of_parts(
        disposition: LocalInstallGenerationPublishDisposition,
        location: LocalInstallStoreLocationClass,
        generation: LocalInstallGenerationIdentity,
        state: LocalInstallGenerationStoreSnapshot,
    ) -> (receipt: Self)
        ensures
            receipt@ == (PublishReceiptView {
                disposition,
                location,
                generation: generation@,
                state: state@,
            }),
    {
        LocalInstallGenerationPublishReceipt { disposition, location, generation, state }
    }

    pub fn disposition(&self) -> (r: LocalInstallGenerationPublishDisposition)
        ensures
            r == self@.disposition,
    {
        self.disposition
    }

    pub fn location(&self) -> (r: LocalInstallStoreLocationClass)
        ensures
            r == self@.location,
    {
        self.location
    }

    pub fn generation(&self) -> (r: &LocalInstallGenerationIdentity)
        ensures
            r@ == self@.generation,
    {
        &self.generation
    }

    pub fn state(&self) -> (r: &LocalInstallGenerationStoreSnapshot)
        ensures
            r@ == self@.state,
    {
        &self.state
    }
}

#[derive(Debug, Clone, Copy, PartialEq, Eq, Structural)]
pub enum LocalInstallGenerationRecoveryDisposition {
    Clean,
    CompletedStagedGeneration,
    CompletedCurrentSwitch,
    RemovedDuplicateStage,
    RemovedCleanupDebt,
}

#[derive(Debug, PartialEq, Eq)]
pub struct LocalInstallGenerationRecoveryReceipt {
    disposition: LocalInstallGenerationRecoveryDisposition,
    state: LocalInstallGenerationStoreSnapshot,
}

pub struct RecoveryReceiptView {
    pub disposition: LocalInstallGenerationRecoveryDisposition,
    pub state: SnapshotView,
}

impl View for LocalInstallGenerationRecoveryReceipt {
    type V = RecoveryReceiptView;

    closed spec fn view(&self) -> RecoveryReceiptView {
        RecoveryReceiptView { disposition: self.disposition, state: self.state@ }
    }
}

impl LocalInstallGenerationRecoveryReceipt {
    pub(crate) fn of_parts(
        disposition: LocalInstallGenerationRecoveryDisposition,
        state: LocalInstallGenerationStoreSnapshot,
    ) -> (receipt: Self)
        ensures
            receipt@ == (RecoveryReceiptView { disposition, state: state@ }),
    {
        LocalInstallGenerationRecoveryReceipt { disposition, state }
    }

    pub fn disposition(&self) -> (r: LocalInstallGenerationRecoveryDisposition)
        ensures
            r == self@.disposition,
    {
        self.disposition
    }

    pub fn state(&self) -> (r: &LocalInstallGenerationStoreSnapshot)
        ensures
            r@ == self@.state,
    {
        &self.state
    }
}

pub open spec fn inspected_directory(
    stat: FileStat,
    expected_owner: Option<(u32, u32)>,
    exact_private: bool,
    subject: Seq<char>,
) -> Result<(), StoreErrorView> {
    if file_evidence::is_owned_directory(stat, expected_owner, exact_private) {
        Ok(())
    } else {
        Err(unsafe_filesystem(subject + " has unsafe type, permissions, or ownership"@))
    }
}

/// Checks the type, permissions and owner of a directory.
pub fn inspect_directory(
    stat: &FileStat,
    expected_owner: Option<(u32, u32)>,
    exact_private: bool,
    subject: &str,
) -> (r: Result<(), LocalInstallGenerationStoreError>)
    ensures
        outcome::is_check(r, inspected_directory(*stat, expected_owner, exact_private, subject@)),
{
    if file_evidence::owned_directory(stat, expected_owner, exact_private) {
        Ok(())
    } else {
        Err(
            subject_error(
                LocalInstallGenerationStoreErrorKind::UnsafeFilesystem,
                subject,
                " has unsafe type, permissions, or ownership",
            ),
        )
    }
}

pub open spec fn inspected_file(
    stat: FileStat,
    owner: (u32, u32),
    mode: u32,
    size: Option<u64>,
    subject: Seq<char>,
) -> Result<(), StoreErrorView> {
    if file_evidence::is_private_file(stat, owner, mode, size) {
        Ok(())
    } else {
        Err(
            unsafe_filesystem(subject + " is not an exact private single-link regular file"@),
        )
    }
}

/// Checks that a file is a private single-link regular file of exactly this
/// mode and, if given, size.
pub fn inspect_private_file(
    stat: &FileStat,
    owner: (u32, u32),
    mode: u32,
    size: Option<u64>,
    subject: &str,
) -> (r: Result<(), LocalInstallGenerationStoreError>)
    ensures
        outcome::is_check(r, inspected_file(*stat, owner, mode, size, subject@)),
{
    if file_evidence::private_file(stat, owner, mode, size) {
        Ok(())
    } else {
        Err(
            subject_error(
                LocalInstallGenerationStoreErrorKind::UnsafeFilesystem,
                subject,
                " is not an exact private single-link regular file",
            ),
        )
    }
}

/// A bounded executable regular file that only its owner can change.
pub open spec fn is_candidate_binary(stat: FileStat, owner: (u32, u32)) -> bool {
    &&& stat.spec_is_regular()
    &&& stat.links == 1
    &&& owner == (stat.owner, stat.group)
    &&& !stat.spec_foreign_writable()
    &&& stat.mode & 0o100 != 0
    &&& 0 < stat.size <= MAX_LOCAL_INSTALL_BINARY_BYTES
}

/// What [`verify_candidate_binary`] answers.
pub open spec fn verified_candidate(
    stat: FileStat,
    owner: (u32, u32),
    digest: Result<Seq<char>, StoreErrorView>,
    expected: Seq<char>,
) -> Result<u64, StoreErrorView> {
    if !is_candidate_binary(stat, owner) {
        Err(
            unsafe_filesystem(
                "the candidate binary is not a bounded private executable regular file"@,
            ),
        )
    } else {
        match digest {
            Err(e) => Err(e),
            Ok(value) => if value == expected {
                Ok(stat.size as u64)
            } else {
                Err(
                    conflict("the candidate binary digest does not match the verified generation"@),
                )
            },
        }
    }
}

/// Checks an opened candidate binary, whose bytes hash to `digest`, against
/// the generation it is published as, and tells its size.
pub fn verify_candidate_binary(
    stat: &FileStat,
    owner: (u32, u32),
    digest: Result<Sha256Digest, LocalInstallGenerationStoreError>,
    expected: &Sha256Digest,
) -> (r: Result<u64, LocalInstallGenerationStoreError>)
    ensures
        match (r, verified_candidate(*stat, owner, outcome::result_view(digest), expected@)) {
            (Ok(a), Ok(b)) => a == b,
            (Err(a), Err(b)) => a@ == b,
            _ => false,
        },
{
    if !stat.is_regular() || stat.links != 1 || owner.0 != stat.owner || owner.1 != stat.group
        || stat.foreign_writable() || stat.mode & 0o100 == 0 || stat.size <= 0 || stat.size as u64
        > MAX_LOCAL_INSTALL_BINARY_BYTES {
        return Err(
            store_error(
                LocalInstallGenerationStoreErrorKind::UnsafeFilesystem,
                "the candidate binary is not a bounded private executable regular file",
            ),
        );
    }
    let found = digest?;
    if !found.same_as(expected) {
        return Err(
            store_error(
                LocalInstallGenerationStoreErrorKind::Conflict,
                "the candidate binary digest does not match the verified generation",
            ),
        );
    }
    Ok(stat.size as u64)
}

/// A candidate binary is accepted, with its size, exactly when it is a regular
/// single-link file of the caller that nobody else can write, that its owner
/// can execute, that holds between one byte and half a gibibyte, and whose
/// bytes hash to the expected digest.
pub proof fn law_private_executables_are_accepted(
    stat: FileStat,
    owner: (u32, u32),
    digest: Result<Seq<char>, StoreErrorView>,
    expected: Seq<char>,
)
    ensures
        verified_candidate(stat, owner, digest, expected) is Ok <==> {
            &&& stat.mode & 0o170000 == 0o100000
            &&& stat.mode & 0o022 == 0
            &&& stat.mode & 0o100 != 0
            &&& stat.links == 1
            &&& stat.owner == owner.0
            &&& stat.group == owner.1
            &&& 1 <= stat.size <= 536_870_912
            &&& digest is Ok
            &&& digest->Ok_0 == expected
        },
        verified_candidate(stat, owner, digest, expected) matches Ok(size) ==> size == stat.size,
        verified_candidate(stat, owner, digest, expected) matches Err(e) ==> e.kind
            == LocalInstallGenerationStoreErrorKind::UnsafeFilesystem || digest == Err::<
            Seq<char>,
            StoreErrorView,
        >(e) || (e.kind == LocalInstallGenerationStoreErrorKind::Conflict && digest is Ok),
{
}

/// A candidate is published only as what it claims to be: of the current
/// identity generation, the direct successor of the expected predecessor, with
/// a printable version and the digest of its own evidence. Everything else is
/// an invalid request.
pub proof fn law_candidates_are_exact_successors(
    candidate: GenerationView,
    expected: Option<IdentityView>,
)
    ensures
        candidate_problem(candidate, expected) is None <==> {
            &&& candidate.source.identity_generation == LocalInstallIdentityGeneration::GlaedaV2
            &&& candidate.predecessor == expected
            &&& candidate.identity.number == (match expected {
                Some(predecessor) => predecessor.number + 1,
                None => 1,
            })
            &&& 1 <= candidate.binary_version.len() <= 128
            &&& forall|i: int|
                0 <= i < candidate.binary_version.len() ==> ' '
                    <= #[trigger] candidate.binary_version[i] <= '~'
            &&& local_install_plan::completed_build(
                local_install_plan::BuildPlanView {
                    target_generation: candidate.identity.number,
                    expected_predecessor: candidate.predecessor,
                    source: candidate.source,
                },
                local_install_plan::EvidenceView {
                    source_digest: candidate.source.digest,
                    predecessor: candidate.predecessor,
                    binary_digest: candidate.binary_digest,
                    binary_version: candidate.binary_version,
                },
            ) == Ok::<GenerationView, local_install_plan::PlanErrorView>(candidate)
        },
        candidate_problem(candidate, expected) matches Some(e) ==> e.kind
            == LocalInstallGenerationStoreErrorKind::InvalidRequest,
{
}

/// The names of the store are spelled from the identities alone: a generation
/// by its number and the digits of its digest, a staged operation and a
/// retirement by their own prefixes.
pub proof fn law_names_are_spelled_from_identities(identity: IdentityView, operation: Seq<char>)
    requires
        artifact::is_sha256(identity.digest),
        artifact::is_sha256(operation),
    ensures
        named_generation(identity) is Ok <==> identity.number > 0,
        identity.number > 0 ==> named_generation(identity) == Ok::<Seq<char>, StoreErrorView>(
            seq!['g'] + text::decimal(identity.number as nat) + seq!['-'] + identity.digest.skip(7),
        ),
        identity.number > 0 ==> named_retirement(identity) == Ok::<Seq<char>, StoreErrorView>(
            seq!['r', 'e', 't', 'i', 'r', 'e', '-'] + (seq!['g'] + text::decimal(
                identity.number as nat,
            ) + seq!['-'] + identity.digest.skip(7)),
        ),
        operation_name(operation) == seq!['o', 'p', '-'] + operation.skip(7),
{
    reveal_strlit("g");
    reveal_strlit("-");
    reveal_strlit("sha256:");
    reveal_strlit("retire-");
    reveal_strlit("op-");
    assert("g"@ =~= seq!['g']);
    assert("-"@ =~= seq!['-']);
    assert("op-"@ =~= seq!['o', 'p', '-']);
    assert("retire-"@ =~= seq!['r', 'e', 't', 'i', 'r', 'e', '-']);
}

/// A directory passes inspection exactly when it is the owner's and closed to
/// others, wholly so where that is asked for; a file when it is a regular file
/// with one name, the owner, mode and size that are asked for. What fails is
/// unsafe.
pub proof fn law_inspection_passes_private_objects(
    stat: FileStat,
    owner: (u32, u32),
    exact_private: bool,
    mode: u32,
    size: Option<u64>,
    subject: Seq<char>,
)
    ensures
        inspected_directory(stat, Some(owner), exact_private, subject) is Ok <==> {
            &&& stat.mode & 0o170000 == 0o040000
            &&& stat.owner == owner.0 && stat.group == owner.1
            &&& if exact_private {
                stat.mode & 0o7777 == 0o700
            } else {
                stat.mode & 0o022 == 0
            }
        },
        inspected_directory(stat, None, exact_private, subject) is Ok <==> {
            &&& stat.mode & 0o170000 == 0o040000
            &&& if exact_private {
                stat.mode & 0o7777 == 0o700
            } else {
                stat.mode & 0o022 == 0
            }
        },
        inspected_directory(stat, Some(owner), exact_private, subject) matches Err(e) ==> e.kind
            == LocalInstallGenerationStoreErrorKind::UnsafeFilesystem,
        inspected_file(stat, owner, mode, size, subject) is Ok <==> {
            &&& stat.mode & 0o170000 == 0o100000
            &&& stat.mode & 0o7777 == mode
            &&& stat.owner == owner.0 && stat.group == owner.1
            &&& stat.links == 1
            &&& size matches Some(bytes) ==> stat.size == bytes
        },
        inspected_file(stat, owner, mode, size, subject) matches Err(e) ==> e.kind
            == LocalInstallGenerationStoreErrorKind::UnsafeFilesystem,
{
}

/// The bytes whose digest a request is known by determine its operation, its
/// expected predecessor and the identity of its candidate.
pub proof fn law_request_bytes_determine_the_request(
    a: RequestView,
    b: RequestView,
)
    requires
        canonical_json::rendered(request_json(a.operation_id, a.expected_predecessor, a.candidate))
            == canonical_json::rendered(
            request_json(b.operation_id, b.expected_predecessor, b.candidate),
        ),
    ensures
        a.operation_id == b.operation_id,
        a.expected_predecessor == b.expected_predecessor,
        a.candidate.identity == b.candidate.identity,
        a.candidate.binary_digest == b.candidate.binary_digest,
{
    let x = request_json(a.operation_id, a.expected_predecessor, a.candidate);
    let y = request_json(b.operation_id, b.expected_predecessor, b.candidate);
    canonical_json::law_canonical_text_is_injective(x, y);
    let xs = x->Object_0;
    let ys = y->Object_0;
    assert(xs[0].1 == Json::Text(a.operation_id) && ys[0].1 == Json::Text(b.operation_id));
    match (a.expected_predecessor, b.expected_predecessor) {
        (Some(p), Some(q)) => {
            assert(xs[1].1 == local_install_plan::identity_json(p));
            assert(ys[1].1 == local_install_plan::identity_json(q));
            lemma_identity_json_determines(p, q);
        },
        (None, None) => {},
        (Some(_), None) => {
            assert(xs.len() == 3 && ys.len() == 2);
        },
        (None, Some(_)) => {
            assert(xs.len() == 2 && ys.len() == 3);
        },
    }
    let at: int = if a.expected_predecessor is Some {
        2
    } else {
        1
    };
    assert(xs[at].1 == generation_json(a.candidate) && ys[at].1 == generation_json(b.candidate));
    let u = generation_json(a.candidate)->Object_0;
    let v = generation_json(b.candidate)->Object_0;
    assert(u == v);
    assert(u[0].1 == local_install_plan::identity_json(a.candidate.identity));
    assert(v[0].1 == local_install_plan::identity_json(b.candidate.identity));
    lemma_identity_json_determines(a.candidate.identity, b.candidate.identity);
    assert(u[u.len() - 2].1 == Json::Text(a.candidate.binary_digest));
    assert(v[v.len() - 2].1 == Json::Text(b.candidate.binary_digest));
}

proof fn lemma_identity_json_determines(p: IdentityView, q: IdentityView)
    requires
        local_install_plan::identity_json(p) == local_install_plan::identity_json(q),
    ensures
        p == q,
{
    let ps = local_install_plan::identity_json(p)->Object_0;
    let qs = local_install_plan::identity_json(q)->Object_0;
    assert(ps[0].1 == Json::Number(p.number as nat) && qs[0].1 == Json::Number(q.number as nat));
    assert(ps[1].1 == Json::Text(p.digest) && qs[1].1 == Json::Text(q.digest));
}

} // verus!
