//! One exact bounded local self-build attempt: what each of its steps decides.
//!
//! An attempt passes through its stages in one order. Every stage is a type of
//! its own, made only by the stage before it, so that evidence of a build can
//! only come out of an attempt whose every step went well.
use vstd::prelude::*;

use crate::artifact;
use crate::artifact::{DigestStream, Sha256Digest};
use crate::file_evidence::{FileStat, OpenRefusal, OpenedEntry};
use crate::local_install_build_command::{
    DirectoryReceiptView, LocalInstallDirectoryPreflightReceipt,
    LocalInstallToolchainPreflightReceipt, ToolchainReceiptView,
};
use crate::local_install_cargo_config_preflight;
use crate::local_install_cargo_config_preflight::{
    LocalInstallCargoConfigPreflightContext, LocalInstallCargoConfigPreflightReceipt,
    PreflightContextView, PreflightReceiptView,
};
use crate::local_install_plan;
use crate::local_install_plan::{
    copied_identity, valid_binary_version, BuildPlanView, BuiltLocalBinaryEvidence, EvidenceView,
    LocalInstallBuildPlan, LocalInstallIdentityGeneration, LocalInstallPlatform,
};
use crate::local_install_source_preflight::{LocalInstallSourcePreflightReceipt, SourceReceiptView};
use crate::outcome;
use crate::paths;
use crate::process;
use crate::process::{CommandFailure, CommandSpec, CommandView, ExecutionRecord, RecordView,
    VariableView};
use crate::scan;
use crate::text;

verus! {

pub const LOCAL_INSTALL_BUILD_EXECUTION_SCHEMA_VERSION: u8 = 1;

pub const LOCAL_INSTALL_ARTIFACT_VERSION_TIMEOUT_SECONDS: u64 = 10;

pub const MAX_LOCAL_INSTALL_BINARY_BYTES: u64 = 536_870_912;

pub const MAX_LOCAL_INSTALL_BINARY_VERSION_BYTES: usize = 128;

#[derive(Debug, Clone, Copy, PartialEq, Eq, Structural)]
pub enum LocalInstallBuildExecutionOutcome {
    Refused,
    Failed,
    Succeeded,
}

#[derive(Debug, Clone, Copy, PartialEq, Eq, Structural)]
pub enum LocalInstallBuildExecutionCode {
    DirectoryNotReady,
    CargoConfigNotReady,
    ToolchainNotReady,
    SourceNotReady,
    BuildTimeout,
    BuildOutputLimit,
    DependencyMaterialMissing,
    BuildFailed,
    BuildUnavailable,
    SourceChanged,
    ArtifactMissing,
    ArtifactUnsafe,
    ArtifactUnknown,
    ArtifactChanged,
    ArtifactVersionInvalid,
}

#[derive(Debug, Clone, Copy, PartialEq, Eq, Structural)]
pub enum LocalInstallBuildExecutionErrorKind {
    InvalidCommand,
    InvalidRunnerIdentity,
}

#[derive(Debug, PartialEq, Eq)]
pub struct LocalInstallBuildExecutionError {
    pub kind: LocalInstallBuildExecutionErrorKind,
    pub code: &'static str,
    pub problem: &'static str,
}

pub struct ExecutionErrorView {
    pub kind: LocalInstallBuildExecutionErrorKind,
    pub code: Seq<char>,
    pub problem: Seq<char>,
}

impl View for LocalInstallBuildExecutionError {
    type V = ExecutionErrorView;

    open spec fn view(&self) -> ExecutionErrorView {
        ExecutionErrorView { kind: self.kind, code: self.code@, problem: self.problem@ }
    }
}

/// The error of a command outside the reviewed policy.
pub fn invalid_command() -> (e: LocalInstallBuildExecutionError)
    ensures
        e@ == (ExecutionErrorView {
            kind: LocalInstallBuildExecutionErrorKind::InvalidCommand,
            code: "invalid_command"@,
            problem: "local self-build command input is outside the reviewed policy"@,
        }),
{
    LocalInstallBuildExecutionError {
        kind: LocalInstallBuildExecutionErrorKind::InvalidCommand,
        code: "invalid_command",
        problem: "local self-build command input is outside the reviewed policy",
    }
}

/// Binds the build root to the runner that builds in it.
pub fn runner_context(build_root: &str, runner_uid: u32, runner_gid: u32) -> (r: Result<
    LocalInstallCargoConfigPreflightContext,
    LocalInstallBuildExecutionError,
>)
    ensures
        outcome::is_outcome(
            r,
            if local_install_cargo_config_preflight::is_build_root(build_root@) && runner_uid != 0
                && runner_gid != 0 {
                Ok(PreflightContextView { build_root: build_root@, runner_uid, runner_gid })
            } else {
                Err(
                    ExecutionErrorView {
                        kind: LocalInstallBuildExecutionErrorKind::InvalidRunnerIdentity,
                        code: "invalid_runner_identity"@,
                        problem:
                            "local self-build requires one reviewed non-root runner identity"@,
                    },
                )
            },
        ),
{
    match LocalInstallCargoConfigPreflightContext::new(build_root, runner_uid, runner_gid) {
        Ok(context) => Ok(context),
        Err(_) => Err(
            LocalInstallBuildExecutionError {
                kind: LocalInstallBuildExecutionErrorKind::InvalidRunnerIdentity,
                code: "invalid_runner_identity",
                problem: "local self-build requires one reviewed non-root runner identity",
            },
        ),
    }
}

/// What is known before a build starts.
#[derive(Debug, PartialEq, Eq)]
pub struct BuildPreflights {
    pub identity_generation: LocalInstallIdentityGeneration,
    pub command_identity: Sha256Digest,
    pub directory_preflight: LocalInstallDirectoryPreflightReceipt,
    pub cargo_config_preflight: LocalInstallCargoConfigPreflightReceipt,
    pub toolchain_preflight: LocalInstallToolchainPreflightReceipt,
    pub source_before: LocalInstallSourcePreflightReceipt,
}

pub struct PreflightsView {
    pub identity_generation: LocalInstallIdentityGeneration,
    pub command_identity: Seq<char>,
    pub directory_preflight: DirectoryReceiptView,
    pub cargo_config_preflight: PreflightReceiptView,
    pub toolchain_preflight: ToolchainReceiptView,
    pub source_before: SourceReceiptView,
}

impl View for BuildPreflights {
    type V = PreflightsView;

    open spec fn view(&self) -> PreflightsView {
        PreflightsView {
            identity_generation: self.identity_generation,
            command_identity: self.command_identity@,
            directory_preflight: self.directory_preflight@,
            cargo_config_preflight: self.cargo_config_preflight@,
            toolchain_preflight: self.toolchain_preflight@,
            source_before: self.source_before@,
        }
    }
}

/// Path- and output-private result of one exact bounded local self-build attempt.
///
/// The embedded preflight receipts retain their detailed fixed blocker vocabularies. Raw paths,
/// compiler output, filesystem identities, and operating-system errors are never retained here.
#[derive(Debug, PartialEq, Eq)]
pub struct LocalInstallBuildExecutionReceipt {
    schema_version: u8,
    preflights: BuildPreflights,
    source_after: Option<LocalInstallSourcePreflightReceipt>,
    outcome: LocalInstallBuildExecutionOutcome,
    codes: Vec<LocalInstallBuildExecutionCode>,
    evidence: Option<BuiltLocalBinaryEvidence>,
}

pub struct ExecutionReceiptView {
    pub schema_version: u8,
    pub preflights: PreflightsView,
    pub source_after: Option<SourceReceiptView>,
    pub outcome: LocalInstallBuildExecutionOutcome,
    pub codes: Seq<LocalInstallBuildExecutionCode>,
    pub evidence: Option<EvidenceView>,
}

impl View for LocalInstallBuildExecutionReceipt {
    type V = ExecutionReceiptView;

    closed spec fn view(&self) -> ExecutionReceiptView {
        ExecutionReceiptView {
            schema_version: self.schema_version,
            preflights: self.preflights@,
            source_after: outcome::option_view(self.source_after),
            outcome: self.outcome,
            codes: self.codes@,
            evidence: outcome::option_view(self.evidence),
        }
    }
}

impl LocalInstallBuildExecutionReceipt {
    pub fn schema_version(&self) -> (version: u8)
        ensures
            version == self@.schema_version,
    {
        self.schema_version
    }

    pub fn outcome(&self) -> (outcome: LocalInstallBuildExecutionOutcome)
        ensures
            outcome == self@.outcome,
    {
        self.outcome
    }

    pub fn codes(&self) -> (codes: &[LocalInstallBuildExecutionCode])
        ensures
            codes@ == self@.codes,
    {
        self.codes.as_slice()
    }

    pub fn evidence(&self) -> (evidence: Option<&BuiltLocalBinaryEvidence>)
        ensures
            match evidence {
                Some(value) => self@.evidence == Some(value@),
                None => self@.evidence is None,
            },
    {
        self.evidence.as_ref()
    }

    pub fn directory_preflight(&self) -> (receipt: &LocalInstallDirectoryPreflightReceipt)
        ensures
            receipt@ == self@.preflights.directory_preflight,
    {
        &self.preflights.directory_preflight
    }

    pub fn cargo_config_preflight(&self) -> (receipt: &LocalInstallCargoConfigPreflightReceipt)
        ensures
            receipt@ == self@.preflights.cargo_config_preflight,
    {
        &self.preflights.cargo_config_preflight
    }

    pub fn toolchain_preflight(&self) -> (receipt: &LocalInstallToolchainPreflightReceipt)
        ensures
            receipt@ == self@.preflights.toolchain_preflight,
    {
        &self.preflights.toolchain_preflight
    }

    pub fn source_before(&self) -> (receipt: &LocalInstallSourcePreflightReceipt)
        ensures
            receipt@ == self@.preflights.source_before,
    {
        &self.preflights.source_before
    }

    pub fn source_after(&self) -> (receipt: Option<&LocalInstallSourcePreflightReceipt>)
        ensures
            match receipt {
                Some(value) => self@.source_after == Some(value@),
                None => self@.source_after is None,
            },
    {
        self.source_after.as_ref()
    }
}

/// A receipt without evidence.
pub open spec fn ended(
    preflights: PreflightsView,
    source_after: Option<SourceReceiptView>,
    outcome: LocalInstallBuildExecutionOutcome,
    codes: Seq<LocalInstallBuildExecutionCode>,
) -> ExecutionReceiptView {
    ExecutionReceiptView {
        schema_version: LOCAL_INSTALL_BUILD_EXECUTION_SCHEMA_VERSION,
        preflights,
        source_after,
        outcome,
        codes,
        evidence: None,
    }
}

/// The receipt of an attempt that failed for one reason.
pub open spec fn failed(
    preflights: PreflightsView,
    source_after: Option<SourceReceiptView>,
    code: LocalInstallBuildExecutionCode,
) -> ExecutionReceiptView {
    ended(
        preflights,
        source_after,
        LocalInstallBuildExecutionOutcome::Failed,
        seq![code],
    )
}

fn failure(
    preflights: BuildPreflights,
    source_after: Option<LocalInstallSourcePreflightReceipt>,
    code: LocalInstallBuildExecutionCode,
) -> (receipt: LocalInstallBuildExecutionReceipt)
    ensures
        receipt@ == failed(preflights@, outcome::option_view(source_after), code),
{
    let mut codes: Vec<LocalInstallBuildExecutionCode> = Vec::new();
    codes.push(code);
    assert(codes@ =~= seq![code]);
    LocalInstallBuildExecutionReceipt {
        schema_version: LOCAL_INSTALL_BUILD_EXECUTION_SCHEMA_VERSION,
        preflights,
        source_after,
        outcome: LocalInstallBuildExecutionOutcome::Failed,
        codes,
        evidence: None,
    }
}

pub open spec fn code_if(
    applies: bool,
    code: LocalInstallBuildExecutionCode,
) -> Seq<LocalInstallBuildExecutionCode> {
    if applies {
        seq![code]
    } else {
        Seq::empty()
    }
}

/// Every preflight that is not ready refuses the build.
pub open spec fn refusal_codes(
    preflights: PreflightsView,
) -> Seq<LocalInstallBuildExecutionCode> {
    code_if(
        !preflights.directory_preflight.ready,
        LocalInstallBuildExecutionCode::DirectoryNotReady,
    ) + code_if(
        !preflights.cargo_config_preflight.ready,
        LocalInstallBuildExecutionCode::CargoConfigNotReady,
    ) + code_if(
        !preflights.toolchain_preflight.ready,
        LocalInstallBuildExecutionCode::ToolchainNotReady,
    ) + code_if(
        !preflights.source_before.ready,
        LocalInstallBuildExecutionCode::SourceNotReady,
    )
}

fn add_code(
    codes: &mut Vec<LocalInstallBuildExecutionCode>,
    applies: bool,
    code: LocalInstallBuildExecutionCode,
)
    ensures
        final(codes)@ == old(codes)@ + code_if(applies, code),
{
    let ghost before = codes@;
    if applies {
        codes.push(code);
    }
    assert(codes@ =~= before + code_if(applies, code));
}

/// An attempt whose preflights are all ready.
pub struct ApprovedBuild {
    preflights: BuildPreflights,
}

impl View for ApprovedBuild {
    type V = PreflightsView;

    closed spec fn view(&self) -> PreflightsView {
        self.preflights@
    }
}

/// Approves a build, or refuses it for every preflight that is not ready.
pub fn begin_build(preflights: BuildPreflights) -> (r: Result<
    ApprovedBuild,
    LocalInstallBuildExecutionReceipt,
>)
    ensures
        outcome::is_outcome(
            r,
            if refusal_codes(preflights@).len() == 0 {
                Ok(preflights@)
            } else {
                Err(
                    ended(
                        preflights@,
                        None,
                        LocalInstallBuildExecutionOutcome::Refused,
                        refusal_codes(preflights@),
                    ),
                )
            },
        ),
{
    let mut codes: Vec<LocalInstallBuildExecutionCode> = Vec::new();
    add_code(
        &mut codes,
        !preflights.directory_preflight.ready,
        LocalInstallBuildExecutionCode::DirectoryNotReady,
    );
    add_code(
        &mut codes,
        !preflights.cargo_config_preflight.ready,
        LocalInstallBuildExecutionCode::CargoConfigNotReady,
    );
    add_code(
        &mut codes,
        !preflights.toolchain_preflight.ready,
        LocalInstallBuildExecutionCode::ToolchainNotReady,
    );
    add_code(
        &mut codes,
        !preflights.source_before.ready(),
        LocalInstallBuildExecutionCode::SourceNotReady,
    );
    assert(codes@ =~= refusal_codes(preflights@));
    if codes.len() > 0 {
        return Err(
            LocalInstallBuildExecutionReceipt {
                schema_version: LOCAL_INSTALL_BUILD_EXECUTION_SCHEMA_VERSION,
                preflights,
                source_after: None,
                outcome: LocalInstallBuildExecutionOutcome::Refused,
                codes,
                evidence: None,
            },
        );
    }
    Ok(ApprovedBuild { preflights })
}

/// The record is of this very command.
pub open spec fn is_record_of(record: RecordView, spec: CommandView) -> bool {
    record.argv == spec.argv() && record.environment_keys == process::variable_names(
        spec.environment,
    )
}

fn record_matches(record: &ExecutionRecord, spec: &CommandSpec) -> (r: bool)
    ensures
        r == is_record_of(record@, spec@),
{
    let argv = spec.displayed_argv();
    let mut names: Vec<String> = Vec::new();
    let mut i: usize = 0;
    while i < spec.environment.len()
        invariant
            i <= spec.environment@.len(),
            names@.len() == i,
            forall|k: int| 0 <= k < i ==> #[trigger] names@[k]@ == spec.environment@[k].name@,
        decreases spec.environment@.len() - i,
    {
        names.push(spec.environment[i].name.clone());
        i += 1;
    }
    assert(outcome::seq_view(names@) =~= process::variable_names(spec@.environment));
    process::same_texts(&record.argv, &argv) && process::same_texts(
        &record.environment_keys,
        &names,
    )
}

/// The output says that an offline build lacked material.
pub open spec fn lacks_material(record: RecordView) -> bool {
    let output = record.stdout + "\n"@ + record.stderr;
    ||| scan::contains_text(output, "no matching package named"@) && scan::contains_text(
        output,
        "location searched"@,
    )
    ||| scan::contains_text(
        output,
        "attempting to make an HTTP request, but --offline was specified"@,
    )
    ||| scan::contains_text(output, "failed to download"@) && scan::contains_text(
        output,
        "--offline"@,
    )
}

fn dependency_material_missing(record: &ExecutionRecord) -> (r: bool)
    ensures
        r == lacks_material(record@),
{
    let mut joined = text::joined(record.stdout.as_str(), "\n");
    joined.append(record.stderr.as_str());
    let output = text::chars_of(joined.as_str());
    let chars = output.as_slice();
    (scan::contains(chars, "no matching package named") && scan::contains(
        chars,
        "location searched",
    )) || scan::contains(chars, "attempting to make an HTTP request, but --offline was specified")
        || (scan::contains(chars, "failed to download") && scan::contains(chars, "--offline"))
}

/// What is left of running a command.
pub open spec fn run_view(r: Result<ExecutionRecord, CommandFailure>) -> Result<
    RecordView,
    CommandFailure,
> {
    match r {
        Ok(record) => Ok(record@),
        Err(e) => Err(e),
    }
}

/// Why a build that was run did not succeed, if it did not.
pub open spec fn build_code(
    spec: CommandView,
    run: Result<RecordView, CommandFailure>,
) -> Option<LocalInstallBuildExecutionCode> {
    match run {
        Err(CommandFailure::TimedOut) => Some(LocalInstallBuildExecutionCode::BuildTimeout),
        Err(CommandFailure::OutputLimit) => Some(LocalInstallBuildExecutionCode::BuildOutputLimit),
        Err(_) => Some(LocalInstallBuildExecutionCode::BuildUnavailable),
        Ok(record) => if is_record_of(record, spec) && record.success && record.status == Some(
            0i32,
        ) {
            None
        } else if lacks_material(record) {
            Some(LocalInstallBuildExecutionCode::DependencyMaterialMissing)
        } else if is_record_of(record, spec) {
            Some(LocalInstallBuildExecutionCode::BuildFailed)
        } else {
            Some(LocalInstallBuildExecutionCode::BuildUnavailable)
        },
    }
}

fn succeeded(record: &ExecutionRecord) -> (r: bool)
    ensures
        r == (record@.success && record@.status == Some(0i32)),
{
    let zero = match record.status {
        Some(code) => code == 0,
        None => false,
    };
    record.success && zero
}

fn classify_build(spec: &CommandSpec, run: &Result<ExecutionRecord, CommandFailure>) -> (code:
    Option<LocalInstallBuildExecutionCode>)
    ensures
        code == build_code(spec@, run_view(*run)),
{
    match run {
        Err(CommandFailure::TimedOut) => Some(LocalInstallBuildExecutionCode::BuildTimeout),
        Err(CommandFailure::OutputLimit) => Some(LocalInstallBuildExecutionCode::BuildOutputLimit),
        Err(_) => Some(LocalInstallBuildExecutionCode::BuildUnavailable),
        Ok(record) => {
            let matching = record_matches(record, spec);
            if matching && succeeded(record) {
                None
            } else if dependency_material_missing(record) {
                Some(LocalInstallBuildExecutionCode::DependencyMaterialMissing)
            } else if matching {
                Some(LocalInstallBuildExecutionCode::BuildFailed)
            } else {
                Some(LocalInstallBuildExecutionCode::BuildUnavailable)
            }
        },
    }
}

/// An attempt whose build command succeeded.
pub struct CompiledBuild {
    preflights: BuildPreflights,
}

impl View for CompiledBuild {
    type V = PreflightsView;

    closed spec fn view(&self) -> PreflightsView {
        self.preflights@
    }
}

impl ApprovedBuild {
    /// Takes what running the build command left.
    pub fn build_ended(self, spec: &CommandSpec, run: &Result<ExecutionRecord, CommandFailure>) -> (
    r: Result<CompiledBuild, LocalInstallBuildExecutionReceipt>)
        ensures
            outcome::is_outcome(
                r,
                match build_code(spec@, run_view(*run)) {
                    None => Ok(self@),
                    Some(code) => Err(failed(self@, None, code)),
                },
            ),
    {
        match classify_build(spec, run) {
            None => Ok(CompiledBuild { preflights: self.preflights }),
            Some(code) => Err(failure(self.preflights, None, code)),
        }
    }
}

/// An attempt whose source did not change while it was built.
pub struct StableBuild {
    preflights: BuildPreflights,
    source_after: LocalInstallSourcePreflightReceipt,
}

pub struct StableView {
    pub preflights: PreflightsView,
    pub source_after: SourceReceiptView,
}

impl View for StableBuild {
    type V = StableView;

    closed spec fn view(&self) -> StableView {
        StableView { preflights: self.preflights@, source_after: self.source_after@ }
    }
}

impl CompiledBuild {
    /// Takes what the source looks like after the build.
    pub fn source_observed(self, source_after: LocalInstallSourcePreflightReceipt) -> (r: Result<
        StableBuild,
        LocalInstallBuildExecutionReceipt,
    >)
        ensures
            outcome::is_outcome(
                r,
                if source_after@.ready && source_after@ == self@.source_before {
                    Ok(StableView { preflights: self@, source_after: source_after@ })
                } else {
                    Err(
                        failed(
                            self@,
                            Some(source_after@),
                            LocalInstallBuildExecutionCode::SourceChanged,
                        ),
                    )
                },
            ),
    {
        if !source_after.ready() || !source_after.same_as(&self.preflights.source_before) {
            return Err(
                failure(
                    self.preflights,
                    Some(source_after),
                    LocalInstallBuildExecutionCode::SourceChanged,
                ),
            );
        }
        Ok(StableBuild { preflights: self.preflights, source_after })
    }
}

#[derive(Debug, Clone, Copy, PartialEq, Eq, Structural)]
pub enum ArtifactObservationError {
    Missing,
    Unsafe,
    Unknown,
}

impl ArtifactObservationError {
    pub open spec fn execution_code(self) -> LocalInstallBuildExecutionCode {
        match self {
            ArtifactObservationError::Missing => LocalInstallBuildExecutionCode::ArtifactMissing,
            ArtifactObservationError::Unsafe => LocalInstallBuildExecutionCode::ArtifactUnsafe,
            ArtifactObservationError::Unknown => LocalInstallBuildExecutionCode::ArtifactUnknown,
        }
    }

    pub fn code(self) -> (code: LocalInstallBuildExecutionCode)
        ensures
            code == self.execution_code(),
    {
        match self {
            ArtifactObservationError::Missing => LocalInstallBuildExecutionCode::ArtifactMissing,
            ArtifactObservationError::Unsafe => LocalInstallBuildExecutionCode::ArtifactUnsafe,
            ArtifactObservationError::Unknown => LocalInstallBuildExecutionCode::ArtifactUnknown,
        }
    }
}

/// The name of the artifact: the path is that of an entry of `target/release`
/// beneath the build root.
pub open spec fn artifact_name(build_root: Seq<char>, artifact: Seq<char>) -> Option<Seq<char>> {
    let root = paths::plain_segments(scan::split_on(build_root, '/'));
    let full = paths::plain_segments(scan::split_on(artifact, '/'));
    if paths::is_descending(build_root) && paths::is_descending(artifact) && full.len()
        == root.len() + 3 && full.take(root.len() as int) == root && full[root.len() as int]
        == "target"@ && full[root.len() as int + 1] == "release"@ {
        Some(full.last())
    } else {
        None
    }
}

/// Finds the name of the artifact beneath the build root.
pub fn artifact_file_name(build_root: &str, artifact: &str) -> (r: Result<
    String,
    ArtifactObservationError,
>)
    ensures
        match r {
            Ok(name) => artifact_name(build_root@, artifact@) == Some(name@),
            Err(e) => artifact_name(build_root@, artifact@) is None && e
                == ArtifactObservationError::Unsafe,
        },
{
    if !paths::descending(build_root) || !paths::descending(artifact) {
        return Err(ArtifactObservationError::Unsafe);
    }
    let root = paths::normal_components(build_root);
    let full = paths::normal_components(artifact);
    let ghost root_view = outcome::seq_view(root@);
    let ghost full_view = outcome::seq_view(full@);
    if full.len() < 3 || full.len() - 3 != root.len() {
        return Err(ArtifactObservationError::Unsafe);
    }
    let mut i: usize = 0;
    while i < root.len()
        invariant
            i <= root@.len(),
            root@.len() <= full@.len(),
            root_view == outcome::seq_view(root@),
            full_view == outcome::seq_view(full@),
            root_view == paths::plain_segments(scan::split_on(build_root@, '/')),
            full_view == paths::plain_segments(scan::split_on(artifact@, '/')),
            forall|k: int| 0 <= k < i ==> root_view[k] == full_view[k],
        decreases root@.len() - i,
    {
        if !text::same_text(root[i].as_str(), full[i].as_str()) {
            assert(root_view[i as int] != full_view[i as int]);
            assert(full_view.take(root_view.len() as int)[i as int] == full_view[i as int]);
            return Err(ArtifactObservationError::Unsafe);
        }
        i += 1;
    }
    assert(full_view.take(root_view.len() as int) =~= root_view);
    let at = root.len();
    assert(full@[at as int]@ == full_view[at as int]);
    assert(full@[at + 1]@ == full_view[at + 1]);
    assert(full@[at + 2]@ == full_view.last());
    if !text::same_text(full[at].as_str(), "target") || !text::same_text(
        full[at + 1].as_str(),
        "release",
    ) {
        return Err(ArtifactObservationError::Unsafe);
    }
    Ok(full[at + 2].clone())
}

pub open spec fn is_private_build_root(stat: FileStat, uid: u32, gid: u32) -> bool {
    stat.spec_is_directory() && stat.owner == uid && stat.group == gid && stat.spec_permissions()
        == 0o700
}

pub open spec fn is_reviewed_directory(stat: FileStat, uid: u32) -> bool {
    stat.spec_is_directory() && stat.owner == uid && !stat.spec_foreign_writable()
}

/// Some execute bit is set.
pub open spec fn is_executable(stat: FileStat) -> bool {
    stat.mode & 0o111 != 0
}

/// A bounded executable single-link regular file of this owner that nobody else
/// can write to.
pub open spec fn is_reviewed_artifact(stat: FileStat, uid: u32) -> bool {
    stat.spec_is_regular() && stat.owner == uid && stat.links == 1 && !stat.spec_foreign_writable()
        && is_executable(stat) && 4 <= stat.size <= MAX_LOCAL_INSTALL_BINARY_BYTES
}

fn private_build_root(stat: &FileStat, uid: u32, gid: u32) -> (r: bool)
    ensures
        r == is_private_build_root(*stat, uid, gid),
{
    stat.is_directory() && stat.owner == uid && stat.group == gid && stat.permissions() == 0o700
}

fn owned_reviewed_directory(stat: &FileStat, uid: u32) -> (r: bool)
    ensures
        r == is_reviewed_directory(*stat, uid),
{
    stat.is_directory() && stat.owner == uid && !stat.foreign_writable()
}

fn reviewed_artifact(stat: &FileStat, uid: u32) -> (r: bool)
    ensures
        r == is_reviewed_artifact(*stat, uid),
{
    stat.is_regular() && stat.owner == uid && stat.links == 1 && !stat.foreign_writable()
        && stat.mode & 0o111 != 0 && stat.size >= 4 && stat.size
        <= MAX_LOCAL_INSTALL_BINARY_BYTES as i64
}

/// The four bytes that an executable of the platform starts with.
pub open spec fn is_executable_magic(platform: Option<LocalInstallPlatform>, magic: Seq<u8>) -> bool {
    match platform {
        Some(LocalInstallPlatform::Linux) => magic == seq![0x7fu8, 0x45, 0x4c, 0x46],
        Some(LocalInstallPlatform::Macos) => {
            ||| magic == seq![0xfeu8, 0xed, 0xfa, 0xce]
            ||| magic == seq![0xceu8, 0xfa, 0xed, 0xfe]
            ||| magic == seq![0xfeu8, 0xed, 0xfa, 0xcf]
            ||| magic == seq![0xcfu8, 0xfa, 0xed, 0xfe]
            ||| magic == seq![0xcau8, 0xfe, 0xba, 0xbe]
            ||| magic == seq![0xbeu8, 0xba, 0xfe, 0xca]
            ||| magic == seq![0xcau8, 0xfe, 0xba, 0xbf]
            ||| magic == seq![0xbfu8, 0xba, 0xfe, 0xca]
        },
        None => false,
    }
}

fn starts_with_bytes(bytes: &[u8], a: u8, b: u8, c: u8, d: u8) -> (r: bool)
    requires
        bytes@.len() >= 4,
    ensures
        r == (bytes@.take(4) == seq![a, b, c, d]),
{
    let r = bytes[0] == a && bytes[1] == b && bytes[2] == c && bytes[3] == d;
    let ghost head = bytes@.take(4);
    let ghost wanted = seq![a, b, c, d];
    proof {
        assert(head[0] == bytes@[0] && head[1] == bytes@[1] && head[2] == bytes@[2] && head[3]
            == bytes@[3]);
        assert(wanted[0] == a && wanted[1] == b && wanted[2] == c && wanted[3] == d);
        if r {
            assert(head =~= wanted);
        }
    }
    r
}

/// Whether a file starts as an executable of the platform does.
pub fn reviewed_executable_magic(platform: Option<LocalInstallPlatform>, bytes: &[u8]) -> (r: bool)
    requires
        bytes@.len() >= 4,
    ensures
        r == is_executable_magic(platform, bytes@.take(4)),
{
    match platform {
        Some(LocalInstallPlatform::Linux) => starts_with_bytes(bytes, 0x7f, 0x45, 0x4c, 0x46),
        Some(LocalInstallPlatform::Macos) => starts_with_bytes(bytes, 0xfe, 0xed, 0xfa, 0xce)
            || starts_with_bytes(bytes, 0xce, 0xfa, 0xed, 0xfe) || starts_with_bytes(
            bytes,
            0xfe,
            0xed,
            0xfa,
            0xcf,
        ) || starts_with_bytes(bytes, 0xcf, 0xfa, 0xed, 0xfe) || starts_with_bytes(
            bytes,
            0xca,
            0xfe,
            0xba,
            0xbe,
        ) || starts_with_bytes(bytes, 0xbe, 0xba, 0xfe, 0xca) || starts_with_bytes(
            bytes,
            0xca,
            0xfe,
            0xba,
            0xbf,
        ) || starts_with_bytes(bytes, 0xbf, 0xba, 0xfe, 0xca),
        None => false,
    }
}

/// The digest of an artifact that is read piece by piece.
pub struct ArtifactDigest {
    stream: DigestStream,
    total: u64,
    platform: Option<LocalInstallPlatform>,
}

pub struct ArtifactDigestView {
    pub platform: Option<LocalInstallPlatform>,
    pub bytes: Seq<u8>,
}

impl View for ArtifactDigest {
    type V = ArtifactDigestView;

    closed spec fn view(&self) -> ArtifactDigestView {
        ArtifactDigestView { platform: self.platform, bytes: self.stream@ }
    }
}

/// A piece that is refused: the first one has to hold the whole magic, and the
/// pieces together at most the bound.
pub open spec fn refuses_piece(digest: ArtifactDigestView, piece: Seq<u8>) -> bool {
    ||| digest.bytes.len() + piece.len() > MAX_LOCAL_INSTALL_BINARY_BYTES
    ||| digest.bytes.len() == 0 && (piece.len() < 4 || !is_executable_magic(
        digest.platform,
        piece.take(4),
    ))
}

impl ArtifactDigest {
    #[verifier::type_invariant]
    spec fn is_valid(self) -> bool {
        self.total == self.stream@.len() && self.total <= MAX_LOCAL_INSTALL_BINARY_BYTES
    }

    pub fn new(platform: Option<LocalInstallPlatform>) -> (digest: Self)
        ensures
            digest@ == (ArtifactDigestView { platform, bytes: Seq::empty() }),
    {
        ArtifactDigest { stream: DigestStream::new(), total: 0, platform }
    }

    /// Takes the next piece that was read.
    pub fn update(self, piece: &[u8]) -> (r: Result<Self, ArtifactObservationError>)
        ensures
            match r {
                Ok(next) => !refuses_piece(self@, piece@) && next@ == (ArtifactDigestView {
                    bytes: self@.bytes + piece@,
                    ..self@
                }),
                Err(e) => refuses_piece(self@, piece@) && e == ArtifactObservationError::Unsafe,
            },
    {
        proof {
            use_type_invariant(&self);
        }
        let length = piece.len();
        if length > MAX_LOCAL_INSTALL_BINARY_BYTES as usize || self.total + length as u64
            > MAX_LOCAL_INSTALL_BINARY_BYTES {
            return Err(ArtifactObservationError::Unsafe);
        }
        if self.total == 0 && (length < 4 || !reviewed_executable_magic(self.platform, piece)) {
            return Err(ArtifactObservationError::Unsafe);
        }
        let mut stream = self.stream;
        stream.update(piece);
        Ok(
            ArtifactDigest { stream, total: self.total + length as u64, platform: self.platform },
        )
    }

    /// The digest of a file that was read to its end.
    pub fn finish(self, expected_size: u64) -> (r: Result<Sha256Digest, ArtifactObservationError>)
        ensures
            match r {
                Ok(digest) => self@.bytes.len() == expected_size && digest@
                    == artifact::digest_text(self@.bytes),
                Err(e) => self@.bytes.len() != expected_size && e
                    == ArtifactObservationError::Unknown,
            },
    {
        proof {
            use_type_invariant(&self);
        }
        if self.total != expected_size {
            return Err(ArtifactObservationError::Unknown);
        }
        Ok(self.stream.finish())
    }
}

/// One stable reading of the artifact and the directories above it.
#[derive(Debug)]
pub struct ArtifactSnapshot {
    build_root: FileStat,
    target: FileStat,
    release: FileStat,
    file: FileStat,
    digest: Sha256Digest,
}

pub struct ArtifactView {
    pub build_root: FileStat,
    pub target: FileStat,
    pub release: FileStat,
    pub file: FileStat,
    pub digest: Seq<char>,
}

impl View for ArtifactSnapshot {
    type V = ArtifactView;

    closed spec fn view(&self) -> ArtifactView {
        ArtifactView {
            build_root: self.build_root,
            target: self.target,
            release: self.release,
            file: self.file,
            digest: self.digest@,
        }
    }
}

impl ArtifactSnapshot {
    fn same_as(&self, other: &Self) -> (r: bool)
        ensures
            r == (self@ == other@),
    {
        self.build_root == other.build_root && self.target == other.target && self.release
            == other.release && self.file == other.file && self.digest.same_as(&other.digest)
    }
}

/// What was read on the way to the artifact. What stands behind a refusal was
/// not read and does not matter.
pub struct ArtifactReadings {
    pub build_root: OpenedEntry,
    pub target: OpenedEntry,
    pub release: OpenedEntry,
    pub file: OpenedEntry,
    pub digest: Result<Sha256Digest, ArtifactObservationError>,
    /// The metadata of the file after it was read.
    pub file_after: Option<FileStat>,
}

pub open spec fn artifact_open_error(refusal: OpenRefusal) -> ArtifactObservationError {
    match refusal {
        OpenRefusal::Missing => ArtifactObservationError::Missing,
        OpenRefusal::Other => ArtifactObservationError::Unknown,
        _ => ArtifactObservationError::Unsafe,
    }
}

/// What a refusal to open something on the way to the artifact means.
pub fn map_artifact_open(refusal: OpenRefusal) -> (e: ArtifactObservationError)
    ensures
        e == artifact_open_error(refusal),
{
    match refusal {
        OpenRefusal::Missing => ArtifactObservationError::Missing,
        OpenRefusal::SymbolicLink
        | OpenRefusal::NotADirectory
        | OpenRefusal::IsADirectory => ArtifactObservationError::Unsafe,
        OpenRefusal::Other => ArtifactObservationError::Unknown,
    }
}

/// The metadata of what was opened.
pub open spec fn opened_stat(opened: OpenedEntry) -> Result<
    FileStat,
    ArtifactObservationError,
> {
    match opened {
        OpenedEntry::Opened(Some(stat)) => Ok(stat),
        OpenedEntry::Opened(None) => Err(ArtifactObservationError::Unknown),
        OpenedEntry::Refused(refusal) => Err(artifact_open_error(refusal)),
    }
}

fn stat_of(opened: OpenedEntry) -> (r: Result<FileStat, ArtifactObservationError>)
    ensures
        r == opened_stat(opened),
{
    match opened {
        OpenedEntry::Opened(Some(stat)) => Ok(stat),
        OpenedEntry::Opened(None) => Err(ArtifactObservationError::Unknown),
        OpenedEntry::Refused(refusal) => Err(map_artifact_open(refusal)),
    }
}

/// What [`artifact_snapshot`] answers: from the build root inwards, the first
/// object that cannot be read or is not as reviewed decides.
pub open spec fn snapshot_of(
    readings: ArtifactReadings,
    uid: u32,
    gid: u32,
) -> Result<ArtifactView, ArtifactObservationError> {
    match opened_stat(readings.build_root) {
        Err(e) => Err(e),
        Ok(build_root) => if !is_private_build_root(build_root, uid, gid) {
            Err(ArtifactObservationError::Unsafe)
        } else {
            match opened_stat(readings.target) {
                Err(e) => Err(e),
                Ok(target) => if !is_reviewed_directory(target, uid) {
                    Err(ArtifactObservationError::Unsafe)
                } else {
                    match opened_stat(readings.release) {
                        Err(e) => Err(e),
                        Ok(release) => if !is_reviewed_directory(release, uid) {
                            Err(ArtifactObservationError::Unsafe)
                        } else {
                            file_snapshot(readings, uid, build_root, target, release)
                        },
                    }
                },
            }
        },
    }
}

/// The innermost part of [`snapshot_of`]: the file, its digest, and that it did
/// not change while it was read.
pub open spec fn file_snapshot(
    readings: ArtifactReadings,
    uid: u32,
    build_root: FileStat,
    target: FileStat,
    release: FileStat,
) -> Result<ArtifactView, ArtifactObservationError> {
    match opened_stat(readings.file) {
        Err(e) => Err(e),
        Ok(before) => if !is_reviewed_artifact(before, uid) {
            Err(ArtifactObservationError::Unsafe)
        } else {
            match readings.digest {
                Err(e) => Err(e),
                Ok(digest) => if readings.file_after == Some(before) {
                    Ok(ArtifactView { build_root, target, release, file: before, digest: digest@ })
                } else {
                    Err(ArtifactObservationError::Unknown)
                },
            }
        },
    }
}

/// Seals what was read of the artifact.
pub fn artifact_snapshot(readings: ArtifactReadings, uid: u32, gid: u32) -> (r: Result<
    ArtifactSnapshot,
    ArtifactObservationError,
>)
    ensures
        match r {
            Ok(snapshot) => snapshot_of(readings, uid, gid) == Ok::<_, ArtifactObservationError>(
                snapshot@,
            ),
            Err(e) => snapshot_of(readings, uid, gid) == Err::<ArtifactView, _>(e),
        },
{
    let build_root = stat_of(readings.build_root)?;
    if !private_build_root(&build_root, uid, gid) {
        return Err(ArtifactObservationError::Unsafe);
    }
    let target = stat_of(readings.target)?;
    if !owned_reviewed_directory(&target, uid) {
        return Err(ArtifactObservationError::Unsafe);
    }
    let release = stat_of(readings.release)?;
    if !owned_reviewed_directory(&release, uid) {
        return Err(ArtifactObservationError::Unsafe);
    }
    let before = stat_of(readings.file)?;
    if !reviewed_artifact(&before, uid) {
        return Err(ArtifactObservationError::Unsafe);
    }
    let digest = readings.digest?;
    let unchanged = match readings.file_after {
        Some(after) => after == before,
        None => false,
    };
    if !unchanged {
        return Err(ArtifactObservationError::Unknown);
    }
    Ok(ArtifactSnapshot { build_root, target, release, file: before, digest })
}

/// An attempt whose artifact was read.
pub struct LinkedBuild {
    stable: StableBuild,
    artifact: ArtifactSnapshot,
}

pub struct LinkedView {
    pub stable: StableView,
    pub artifact: ArtifactView,
}

impl View for LinkedBuild {
    type V = LinkedView;

    closed spec fn view(&self) -> LinkedView {
        LinkedView { stable: self.stable@, artifact: self.artifact@ }
    }
}

pub open spec fn reading_view(r: Result<ArtifactSnapshot, ArtifactObservationError>) -> Result<
    ArtifactView,
    ArtifactObservationError,
> {
    match r {
        Ok(snapshot) => Ok(snapshot@),
        Err(e) => Err(e),
    }
}

impl StableBuild {
    /// Takes the first reading of the artifact.
    pub fn artifact_read(self, reading: Result<ArtifactSnapshot, ArtifactObservationError>) -> (r:
        Result<LinkedBuild, LocalInstallBuildExecutionReceipt>)
        ensures
            outcome::is_outcome(
                r,
                match reading_view(reading) {
                    Ok(artifact) => Ok(LinkedView { stable: self@, artifact }),
                    Err(e) => Err(
                        failed(self@.preflights, Some(self@.source_after), e.execution_code()),
                    ),
                },
            ),
    {
        match reading {
            Ok(artifact) => Ok(LinkedBuild { stable: self, artifact }),
            Err(e) => Err(failure(self.preflights, Some(self.source_after), e.code())),
        }
    }
}

/// The command that asks an artifact for its version.
pub open spec fn version_request(artifact_path: Seq<char>) -> CommandView {
    CommandView {
        program: artifact_path,
        arguments: seq!["--version"@],
        environment: seq![
            VariableView { name: "LANG"@, value: "C"@ },
            VariableView { name: "LC_ALL"@, value: "C"@ },
        ],
    }
}

/// The command that asks an artifact for its version.
pub fn version_command(artifact_path: &str) -> (spec: CommandSpec)
    ensures
        spec@ == version_request(artifact_path@),
{
    let spec = CommandSpec::new(artifact_path).argument("--version").environment(
        "LANG",
        "C",
    ).environment("LC_ALL", "C");
    proof {
        reveal_strlit("LANG");
        reveal_strlit("LC_ALL");
        let first = VariableView { name: "LANG"@, value: "C"@ };
        let second = VariableView { name: "LC_ALL"@, value: "C"@ };
        reveal_with_fuel(process::with_variable, 3);
        reveal_with_fuel(text::precedes, 4);
        assert("LANG"@[0] == 'L' && "LANG"@[1] == 'A');
        assert("LC_ALL"@[0] == 'L' && "LC_ALL"@[1] == 'C');
        assert("LC_ALL"@.skip(1)[0] == 'C' && "LANG"@.skip(1)[0] == 'A');
        assert(!text::precedes("LC_ALL"@, "LANG"@));
        assert(process::with_variable(Seq::empty(), first) =~= seq![first]);
        assert(seq![first].skip(1) =~= Seq::empty());
        assert(process::with_variable(seq![first].skip(1), second) =~= seq![second]);
        assert(process::with_variable(seq![first], second) =~= seq![first, second]);
        assert(spec@.arguments =~= seq!["--version"@]);
    }
    spec
}

/// The name that the binary of a generation prints.
pub open spec fn binary_name(generation: LocalInstallIdentityGeneration) -> Seq<char> {
    match generation {
        LocalInstallIdentityGeneration::SmolrunnerV1 => "smolrunner"@,
        LocalInstallIdentityGeneration::GlaedaV2 => "glaeda"@,
    }
}

pub open spec fn is_version_char(c: char) -> bool {
    '0' <= c <= '9' || 'a' <= c <= 'z' || 'A' <= c <= 'Z' || c == '.' || c == '-' || c == '+' || c
        == '_'
}

pub open spec fn is_version(version: Seq<char>) -> bool {
    forall|i: int| 0 <= i < version.len() ==> is_version_char(#[trigger] version[i])
}

/// A line of two fields: the binary's name and its version.
pub open spec fn is_version_line(
    generation: LocalInstallIdentityGeneration,
    line: Seq<char>,
) -> bool {
    &&& local_install_plan::is_binary_version(line)
    &&& scan::next_field(line) matches Some(first)
    &&& first.0 == binary_name(generation)
    &&& scan::next_field(first.1) matches Some(second)
    &&& is_version(second.0)
    &&& scan::next_field(second.1) is None
}

/// The output without its one closing line feed.
pub open spec fn without_line_feed(output: Seq<char>) -> Seq<char> {
    if output.len() > 0 && output.last() == '\n' {
        output.drop_last()
    } else {
        output
    }
}

/// What [`canonical_binary_version`] answers.
pub open spec fn binary_version(
    generation: LocalInstallIdentityGeneration,
    record: RecordView,
    spec: CommandView,
) -> Option<Seq<char>> {
    let line = without_line_feed(record.stdout);
    if is_record_of(record, spec) && record.success && record.status == Some(0i32)
        && record.stderr.len() == 0 && vstd::utf8::encode_utf8(record.stdout).len()
        <= MAX_LOCAL_INSTALL_BINARY_VERSION_BYTES && is_version_line(generation, line) {
        Some(line)
    } else {
        None
    }
}

fn version_chars(version: &[char]) -> (r: bool)
    ensures
        r == is_version(version@),
{
    let mut i: usize = 0;
    while i < version.len()
        invariant
            i <= version@.len(),
            forall|k: int| 0 <= k < i ==> is_version_char(#[trigger] version@[k]),
        decreases version@.len() - i,
    {
        let c = version[i];
        if !(('0' <= c && c <= '9') || ('a' <= c && c <= 'z') || ('A' <= c && c <= 'Z') || c == '.'
            || c == '-' || c == '+' || c == '_') {
            assert(!is_version_char(version@[i as int]));
            return false;
        }
        i += 1;
    }
    true
}

fn version_line(generation: LocalInstallIdentityGeneration, line: &str) -> (r: bool)
    ensures
        r == is_version_line(generation, line@),
{
    if !valid_binary_version(line) {
        return false;
    }
    let chars = text::chars_of(line);
    let first = match scan::take_field(chars.as_slice()) {
        Some(first) => first,
        None => {
            return false;
        },
    };
    let named = match generation {
        LocalInstallIdentityGeneration::SmolrunnerV1 => scan::is_text(first.0, "smolrunner"),
        LocalInstallIdentityGeneration::GlaedaV2 => scan::is_text(first.0, "glaeda"),
    };
    if !named {
        return false;
    }
    let second = match scan::take_field(first.1) {
        Some(second) => second,
        None => {
            return false;
        },
    };
    if !version_chars(second.0) {
        return false;
    }
    match scan::take_field(second.1) {
        Some(_) => false,
        None => true,
    }
}

/// Reads the version that an artifact printed.
pub fn canonical_binary_version(
    generation: LocalInstallIdentityGeneration,
    record: &ExecutionRecord,
    spec: &CommandSpec,
) -> (version: Option<String>)
    ensures
        outcome::option_view(version) == binary_version(generation, record@, spec@),
{
    let silent = text::chars_of(record.stderr.as_str()).len() == 0;
    if !record_matches(record, spec) || !succeeded(record) || !silent || text::byte_length(
        record.stdout.as_str(),
    ) > MAX_LOCAL_INSTALL_BINARY_VERSION_BYTES {
        return None;
    }
    let output = text::chars_of(record.stdout.as_str());
    let length = output.len();
    let end = if length > 0 && output[length - 1] == '\n' {
        length - 1
    } else {
        length
    };
    let line_chars = vstd::slice::slice_subrange(output.as_slice(), 0, end);
    assert(line_chars@ =~= without_line_feed(record@.stdout));
    let line = text::text_of(line_chars);
    if version_line(generation, line.as_str()) {
        Some(line)
    } else {
        None
    }
}

/// An attempt whose artifact told its version.
pub struct ProbedBuild {
    linked: LinkedBuild,
    version: String,
}

pub struct ProbedView {
    pub linked: LinkedView,
    pub version: Seq<char>,
}

impl View for ProbedBuild {
    type V = ProbedView;

    closed spec fn view(&self) -> ProbedView {
        ProbedView { linked: self.linked@, version: self.version@ }
    }
}

/// The version that running the version command showed.
pub open spec fn probed_version(
    generation: LocalInstallIdentityGeneration,
    spec: CommandView,
    run: Result<RecordView, CommandFailure>,
) -> Option<Seq<char>> {
    match run {
        Ok(record) => binary_version(generation, record, spec),
        Err(_) => None,
    }
}

impl LinkedBuild {
    /// Takes what running the version command left.
    pub fn version_ended(
        self,
        spec: &CommandSpec,
        run: &Result<ExecutionRecord, CommandFailure>,
    ) -> (r: Result<ProbedBuild, LocalInstallBuildExecutionReceipt>)
        ensures
            outcome::is_outcome(
                r,
                match probed_version(
                    self@.stable.preflights.identity_generation,
                    spec@,
                    run_view(*run),
                ) {
                    Some(version) => Ok(ProbedView { linked: self@, version }),
                    None => Err(
                        failed(
                            self@.stable.preflights,
                            Some(self@.stable.source_after),
                            LocalInstallBuildExecutionCode::ArtifactVersionInvalid,
                        ),
                    ),
                },
            ),
    {
        let version = match run {
            Ok(record) => canonical_binary_version(
                self.stable.preflights.identity_generation,
                record,
                spec,
            ),
            Err(_) => None,
        };
        match version {
            Some(version) => Ok(ProbedBuild { linked: self, version }),
            None => Err(
                failure(
                    self.stable.preflights,
                    Some(self.stable.source_after),
                    LocalInstallBuildExecutionCode::ArtifactVersionInvalid,
                ),
            ),
        }
    }
}

/// The receipt of an attempt that went well.
pub open spec fn succeeded_receipt(build: ProbedView, plan: BuildPlanView) -> ExecutionReceiptView {
    ExecutionReceiptView {
        schema_version: LOCAL_INSTALL_BUILD_EXECUTION_SCHEMA_VERSION,
        preflights: build.linked.stable.preflights,
        source_after: Some(build.linked.stable.source_after),
        outcome: LocalInstallBuildExecutionOutcome::Succeeded,
        codes: Seq::empty(),
        evidence: Some(
            EvidenceView {
                source_digest: plan.source.digest,
                predecessor: plan.expected_predecessor,
                binary_digest: build.linked.artifact.digest,
                binary_version: build.version,
            },
        ),
    }
}

/// What [`ProbedBuild::artifact_read_again`] answers.
pub open spec fn concluded(
    build: ProbedView,
    plan: BuildPlanView,
    reading: Result<ArtifactView, ArtifactObservationError>,
) -> ExecutionReceiptView {
    if reading == Ok::<_, ArtifactObservationError>(build.linked.artifact) {
        succeeded_receipt(build, plan)
    } else {
        failed(
            build.linked.stable.preflights,
            Some(build.linked.stable.source_after),
            LocalInstallBuildExecutionCode::ArtifactChanged,
        )
    }
}

impl ProbedBuild {
    /// The version is one that artifact evidence can hold.
    #[verifier::type_invariant]
    spec fn is_valid(self) -> bool {
        local_install_plan::is_binary_version(self.version@)
    }

    /// Takes the second reading of the artifact: only the very object that was
    /// read before its version was asked for is accepted.
    pub fn artifact_read_again(
        self,
        plan: &LocalInstallBuildPlan,
        reading: Result<ArtifactSnapshot, ArtifactObservationError>,
    ) -> (receipt: LocalInstallBuildExecutionReceipt)
        ensures
            receipt@ == concluded(self@, plan@, reading_view(reading)),
    {
        proof {
            use_type_invariant(&self);
        }
        let artifact = match reading {
            Ok(artifact) => artifact,
            Err(_) => {
                return failure(
                    self.linked.stable.preflights,
                    Some(self.linked.stable.source_after),
                    LocalInstallBuildExecutionCode::ArtifactChanged,
                );
            },
        };
        if !self.linked.artifact.same_as(&artifact) {
            return failure(
                self.linked.stable.preflights,
                Some(self.linked.stable.source_after),
                LocalInstallBuildExecutionCode::ArtifactChanged,
            );
        }
        let built = BuiltLocalBinaryEvidence::new(
            plan.source.digest().clone(),
            copied_identity(&plan.expected_predecessor),
            artifact.digest,
            self.version.as_str(),
        );
        let evidence = match built {
            Ok(evidence) => Some(evidence),
            Err(_) => None,
        };
        LocalInstallBuildExecutionReceipt {
            schema_version: LOCAL_INSTALL_BUILD_EXECUTION_SCHEMA_VERSION,
            preflights: self.linked.stable.preflights,
            source_after: Some(self.linked.stable.source_after),
            outcome: LocalInstallBuildExecutionOutcome::Succeeded,
            codes: Vec::new(),
            evidence,
        }
    }
}

/// Everything that is learned in the course of one attempt.
pub struct BuildRun {
    pub preflights: PreflightsView,
    pub plan: BuildPlanView,
    pub build_command: CommandView,
    pub build: Result<RecordView, CommandFailure>,
    pub source_after: SourceReceiptView,
    pub artifact: Result<ArtifactView, ArtifactObservationError>,
    pub version_command: CommandView,
    pub version: Result<RecordView, CommandFailure>,
    pub artifact_again: Result<ArtifactView, ArtifactObservationError>,
}

/// The receipt that the stages of an attempt amount to, one after the other.
pub open spec fn executed(run: BuildRun) -> ExecutionReceiptView {
    let preflights = run.preflights;
    let after = Some(run.source_after);
    if refusal_codes(preflights).len() > 0 {
        ended(
            preflights,
            None,
            LocalInstallBuildExecutionOutcome::Refused,
            refusal_codes(preflights),
        )
    } else if build_code(run.build_command, run.build) is Some {
        failed(preflights, None, build_code(run.build_command, run.build)->0)
    } else if !run.source_after.ready || run.source_after != preflights.source_before {
        failed(preflights, after, LocalInstallBuildExecutionCode::SourceChanged)
    } else if run.artifact is Err {
        failed(preflights, after, run.artifact->Err_0.execution_code())
    } else {
        match probed_version(preflights.identity_generation, run.version_command, run.version) {
            None => failed(
                preflights,
                after,
                LocalInstallBuildExecutionCode::ArtifactVersionInvalid,
            ),
            Some(version) => concluded(
                ProbedView {
                    linked: LinkedView {
                        stable: StableView { preflights, source_after: run.source_after },
                        artifact: run.artifact->Ok_0,
                    },
                    version,
                },
                run.plan,
                run.artifact_again,
            ),
        }
    }
}

/// The whole attempt on what was learned in its course: running the stages one
/// after the other ends in the receipt that [`executed`] names. Readings that a
/// stage before them refused are not looked at.
pub fn execute_local_install_build(
    plan: &LocalInstallBuildPlan,
    preflights: BuildPreflights,
    build_command: &CommandSpec,
    build: &Result<ExecutionRecord, CommandFailure>,
    source_after: LocalInstallSourcePreflightReceipt,
    artifact: Result<ArtifactSnapshot, ArtifactObservationError>,
    version_spec: &CommandSpec,
    version: &Result<ExecutionRecord, CommandFailure>,
    artifact_again: Result<ArtifactSnapshot, ArtifactObservationError>,
) -> (receipt: LocalInstallBuildExecutionReceipt)
    ensures
        receipt@ == executed(
            BuildRun {
                preflights: preflights@,
                plan: plan@,
                build_command: build_command@,
                build: run_view(*build),
                source_after: source_after@,
                artifact: reading_view(artifact),
                version_command: version_spec@,
                version: run_view(*version),
                artifact_again: reading_view(artifact_again),
            },
        ),
{
    let approved = match begin_build(preflights) {
        Ok(approved) => approved,
        Err(receipt) => {
            return receipt;
        },
    };
    let compiled = match approved.build_ended(build_command, build) {
        Ok(compiled) => compiled,
        Err(receipt) => {
            return receipt;
        },
    };
    let stable = match compiled.source_observed(source_after) {
        Ok(stable) => stable,
        Err(receipt) => {
            return receipt;
        },
    };
    let linked = match stable.artifact_read(artifact) {
        Ok(linked) => linked,
        Err(receipt) => {
            return receipt;
        },
    };
    let probed = match linked.version_ended(version_spec, version) {
        Ok(probed) => probed,
        Err(receipt) => {
            return receipt;
        },
    };
    probed.artifact_read_again(plan, artifact_again)
}

/// Evidence comes only out of an attempt that succeeded, and an attempt
/// succeeded only if every preflight was ready, the reviewed command ran well,
/// the source stayed exactly as it was, and the artifact was the same before
/// and after it told its version.
pub proof fn law_success_is_earned(run: BuildRun)
    ensures
        executed(run).evidence is Some <==> executed(run).outcome
            == LocalInstallBuildExecutionOutcome::Succeeded,
        executed(run).codes.len() == 0 <==> executed(run).outcome
            == LocalInstallBuildExecutionOutcome::Succeeded,
        executed(run).outcome == LocalInstallBuildExecutionOutcome::Succeeded ==> {
            &&& run.preflights.directory_preflight.ready
            &&& run.preflights.cargo_config_preflight.ready
            &&& run.preflights.toolchain_preflight.ready
            &&& run.preflights.source_before.ready
            &&& build_code(run.build_command, run.build) is None
            &&& run.source_after == run.preflights.source_before
            &&& run.artifact is Ok
            &&& run.artifact == run.artifact_again
        },
{
    let refusals = refusal_codes(run.preflights);
    assert(refusals.len() == 0 ==> run.preflights.directory_preflight.ready
        && run.preflights.cargo_config_preflight.ready && run.preflights.toolchain_preflight.ready
        && run.preflights.source_before.ready);
}

/// The evidence of a succeeded attempt is bound to the plan and to the artifact
/// that was read, so that completing the plan with it succeeds.
pub proof fn law_evidence_completes_its_plan(run: BuildRun)
    requires
        executed(run).outcome == LocalInstallBuildExecutionOutcome::Succeeded,
    ensures
        ({
            let evidence = executed(run).evidence->0;
            &&& evidence.source_digest == run.plan.source.digest
            &&& evidence.predecessor == run.plan.expected_predecessor
            &&& evidence.binary_digest == run.artifact->Ok_0.digest
            &&& local_install_plan::is_binary_version(evidence.binary_version)
            &&& local_install_plan::completed_build(run.plan, evidence) is Ok
        }),
{
}

/// A refused attempt never ran anything: what running commands would have left
/// does not matter to it.
pub proof fn law_refusal_ignores_later_steps(first: BuildRun, second: BuildRun)
    requires
        first.preflights == second.preflights,
        refusal_codes(first.preflights).len() > 0,
    ensures
        executed(first) == executed(second),
        executed(first).outcome == LocalInstallBuildExecutionOutcome::Refused,
{
}

/// What the compiler prints never enters a receipt: attempts that differ in
/// nothing but that have the same receipt, except that one of them may say that
/// material for an offline build is missing.
pub proof fn law_compiler_output_never_enters_a_receipt(
    run: BuildRun,
    record: RecordView,
    stdout: Seq<char>,
    stderr: Seq<char>,
)
    requires
        run.build == Ok::<RecordView, CommandFailure>(record),
        lacks_material(record) == lacks_material(RecordView { stdout, stderr, ..record }),
    ensures
        executed(run) == executed(
            BuildRun { build: Ok(RecordView { stdout, stderr, ..record }), ..run },
        ),
{
}

/// The command ran to its end and said so: the record is of this very program
/// with these arguments and variables, and reports success with exit status
/// zero.
pub open spec fn ran_well(record: RecordView, command: CommandView) -> bool {
    &&& record.success
    &&& record.status == Some(0i32)
    &&& record.argv.len() == command.arguments.len() + 1
    &&& record.argv[0] == command.program
    &&& forall|i: int|
        0 <= i < command.arguments.len() ==> record.argv[i + 1] == #[trigger] command.arguments[i]
    &&& record.environment_keys.len() == command.environment.len()
    &&& forall|i: int|
        0 <= i < command.environment.len() ==> record.environment_keys[i]
            == #[trigger] command.environment[i].name
}

proof fn lemma_ran_well(record: RecordView, command: CommandView)
    ensures
        ran_well(record, command) <==> is_record_of(record, command) && record.success
            && record.status == Some(0i32),
{
    let argv = command.argv();
    let names = process::variable_names(command.environment);
    assert(argv.len() == command.arguments.len() + 1 && argv[0] == command.program);
    assert forall|i: int| 0 <= i < command.arguments.len() implies argv[i + 1]
        == #[trigger] command.arguments[i] by {}
    if ran_well(record, command) {
        assert forall|i: int| 0 <= i < argv.len() implies record.argv[i] == #[trigger] argv[i] by {
            if i > 0 {
                assert(argv[i] == command.arguments[i - 1]);
            }
        }
        assert(record.argv =~= argv);
        assert(record.environment_keys =~= names);
    }
}

/// An attempt succeeds only if the build command and the version command both
/// ran well by their own records, the artifact printed nothing but its version,
/// and that version is what the evidence holds.
pub proof fn law_success_rests_on_the_records(run: BuildRun)
    requires
        executed(run).outcome == LocalInstallBuildExecutionOutcome::Succeeded,
    ensures
        run.build matches Ok(record) && ran_well(record, run.build_command),
        run.version matches Ok(record) && ran_well(record, run.version_command)
            && record.stderr.len() == 0 && vstd::utf8::encode_utf8(record.stdout).len() <= 128 && {
            let version = executed(run).evidence->0.binary_version;
            record.stdout == version || record.stdout == version.push('\n')
        },
        run.source_after.ready,
        run.source_after == run.preflights.source_before,
        run.preflights.source_before.ready,
        run.artifact == run.artifact_again,
        executed(run).source_after == Some(run.source_after),
        executed(run).preflights == run.preflights,
        executed(run).schema_version == 1,
{
    lemma_ran_well(run.build->Ok_0, run.build_command);
    lemma_ran_well(run.version->Ok_0, run.version_command);
    let output = run.version->Ok_0.stdout;
    if output.len() > 0 && output.last() == '\n' {
        assert(output =~= output.drop_last().push('\n'));
    }
}

/// What goes wrong first is what an attempt reports: a command that was cut
/// short or could not be started, one that failed, a source that moved, an
/// artifact that is missing, unsafe, unknown or changed, and a version that
/// cannot be read. Whatever failed, there is no evidence.
pub proof fn law_failures_are_reported_as_they_happened(run: BuildRun)
    requires
        run.preflights.directory_preflight.ready,
        run.preflights.cargo_config_preflight.ready,
        run.preflights.toolchain_preflight.ready,
        run.preflights.source_before.ready,
    ensures
        ({
            let receipt = executed(run);
            let built = run.build matches Ok(record) && ran_well(record, run.build_command);
            let stable = built && run.source_after.ready && run.source_after
                == run.preflights.source_before;
            &&& receipt.outcome != LocalInstallBuildExecutionOutcome::Refused
            &&& receipt.outcome == LocalInstallBuildExecutionOutcome::Failed ==> {
                &&& receipt.codes.len() == 1
                &&& receipt.evidence is None
            }
            &&& run.build matches Err(failure) ==> receipt.codes == seq![
                match failure {
                    CommandFailure::TimedOut => LocalInstallBuildExecutionCode::BuildTimeout,
                    CommandFailure::OutputLimit => LocalInstallBuildExecutionCode::BuildOutputLimit,
                    _ => LocalInstallBuildExecutionCode::BuildUnavailable,
                },
            ]
            &&& run.build is Ok && !built ==> {
                ||| receipt.codes == seq![LocalInstallBuildExecutionCode::BuildFailed]
                ||| receipt.codes == seq![LocalInstallBuildExecutionCode::BuildUnavailable]
                ||| receipt.codes == seq![LocalInstallBuildExecutionCode::DependencyMaterialMissing]
            }
            &&& !built ==> receipt.source_after is None
            &&& built && !stable ==> receipt.codes == seq![
                LocalInstallBuildExecutionCode::SourceChanged,
            ]
            &&& stable ==> match run.artifact {
                Err(ArtifactObservationError::Missing) => receipt.codes == seq![
                    LocalInstallBuildExecutionCode::ArtifactMissing,
                ],
                Err(ArtifactObservationError::Unsafe) => receipt.codes == seq![
                    LocalInstallBuildExecutionCode::ArtifactUnsafe,
                ],
                Err(ArtifactObservationError::Unknown) => receipt.codes == seq![
                    LocalInstallBuildExecutionCode::ArtifactUnknown,
                ],
                Ok(_) => {
                    ||| receipt.codes == seq![
                        LocalInstallBuildExecutionCode::ArtifactVersionInvalid,
                    ]
                    ||| receipt.codes == seq![LocalInstallBuildExecutionCode::ArtifactChanged]
                        && run.artifact != run.artifact_again
                    ||| receipt.outcome == LocalInstallBuildExecutionOutcome::Succeeded
                        && run.artifact == run.artifact_again
                },
            }
        }),
{
    if run.build is Ok {
        lemma_ran_well(run.build->Ok_0, run.build_command);
    }
}

/// A build that did not run well for want of material that an offline build
/// cannot fetch says so; any other failure of the very command is a failed
/// build, and a record of another command tells nothing of this one.
pub proof fn law_missing_material_is_told_from_failure(run: BuildRun, record: RecordView)
    requires
        run.preflights.directory_preflight.ready,
        run.preflights.cargo_config_preflight.ready,
        run.preflights.toolchain_preflight.ready,
        run.preflights.source_before.ready,
        run.build == Ok::<RecordView, CommandFailure>(record),
        !ran_well(record, run.build_command),
    ensures
        scan::contains_text(
            record.stderr,
            "attempting to make an HTTP request, but --offline was specified"@,
        ) ==> executed(run).codes == seq![LocalInstallBuildExecutionCode::DependencyMaterialMissing],
        scan::contains_text(record.stderr, "no matching package named"@) && scan::contains_text(
            record.stderr,
            "location searched"@,
        ) ==> executed(run).codes == seq![LocalInstallBuildExecutionCode::DependencyMaterialMissing],
        scan::contains_text(record.stderr, "failed to download"@) && scan::contains_text(
            record.stderr,
            "--offline"@,
        ) ==> executed(run).codes == seq![LocalInstallBuildExecutionCode::DependencyMaterialMissing],
        record.stdout.len() == 0 && record.stderr.len() == 0 ==> executed(run).codes == seq![
            if record.argv == run.build_command.argv() && record.environment_keys
                == process::variable_names(run.build_command.environment) {
                LocalInstallBuildExecutionCode::BuildFailed
            } else {
                LocalInstallBuildExecutionCode::BuildUnavailable
            },
        ],
{
    lemma_ran_well(record, run.build_command);
    let output = record.stdout + "\n"@ + record.stderr;
    assert forall|pattern: Seq<char>| #[trigger]
        scan::contains_text(record.stderr, pattern) implies scan::contains_text(
        output,
        pattern,
    ) by {
        let at = choose|at: int| scan::occurs_at(record.stderr, pattern, at);
        let shift = record.stdout.len() + "\n"@.len();
        assert(output.subrange(at + shift, at + shift + pattern.len()) =~= record.stderr.subrange(
            at,
            at + pattern.len(),
        ));
        assert(scan::occurs_at(output, pattern, at + shift));
    }
    if record.stdout.len() == 0 && record.stderr.len() == 0 {
        reveal_strlit("\n");
        reveal_strlit("no matching package named");
        reveal_strlit("attempting to make an HTTP request, but --offline was specified");
        reveal_strlit("failed to download");
        assert(output.len() == 1);
        assert(!lacks_material(record));
    }
}

/// A build is refused exactly for the preflights that are not ready, each of
/// which is named, and then nothing else is reported.
pub proof fn law_unready_preflights_refuse_the_build(run: BuildRun)
    ensures
        ({
            let p = run.preflights;
            let codes = executed(run).codes;
            let ready = p.directory_preflight.ready && p.cargo_config_preflight.ready
                && p.toolchain_preflight.ready && p.source_before.ready;
            &&& executed(run).outcome == LocalInstallBuildExecutionOutcome::Refused <==> !ready
            &&& !ready ==> {
                &&& codes.contains(LocalInstallBuildExecutionCode::DirectoryNotReady)
                    <==> !p.directory_preflight.ready
                &&& codes.contains(LocalInstallBuildExecutionCode::CargoConfigNotReady)
                    <==> !p.cargo_config_preflight.ready
                &&& codes.contains(LocalInstallBuildExecutionCode::ToolchainNotReady)
                    <==> !p.toolchain_preflight.ready
                &&& codes.contains(LocalInstallBuildExecutionCode::SourceNotReady)
                    <==> !p.source_before.ready
                &&& executed(run).evidence is None
                &&& executed(run).source_after is None
            }
        }),
{
    let p = run.preflights;
    let a = code_if(
        !p.directory_preflight.ready,
        LocalInstallBuildExecutionCode::DirectoryNotReady,
    );
    let b = code_if(
        !p.cargo_config_preflight.ready,
        LocalInstallBuildExecutionCode::CargoConfigNotReady,
    );
    let c = code_if(
        !p.toolchain_preflight.ready,
        LocalInstallBuildExecutionCode::ToolchainNotReady,
    );
    let d = code_if(!p.source_before.ready, LocalInstallBuildExecutionCode::SourceNotReady);
    let all = refusal_codes(p);
    assert(all == a + b + c + d);
    if !p.directory_preflight.ready {
        assert(all[0] == LocalInstallBuildExecutionCode::DirectoryNotReady);
    }
    if !p.cargo_config_preflight.ready {
        assert(all[a.len() as int] == LocalInstallBuildExecutionCode::CargoConfigNotReady);
    }
    if !p.toolchain_preflight.ready {
        assert(all[(a.len() + b.len()) as int]
            == LocalInstallBuildExecutionCode::ToolchainNotReady);
    }
    if !p.source_before.ready {
        assert(all[(a.len() + b.len() + c.len()) as int]
            == LocalInstallBuildExecutionCode::SourceNotReady);
    }
}

/// What was opened, and could be inspected.
pub open spec fn is_inspected(opened: OpenedEntry) -> bool {
    opened matches OpenedEntry::Opened(found) && found is Some
}

pub open spec fn inspected(opened: OpenedEntry) -> FileStat {
    (opened->Opened_0)->0
}

/// An artifact is read exactly when it lies in a build root that is private to
/// the runner, in directories of the runner that nobody else can write to, and
/// is itself a bounded executable of the runner with one name that did not
/// change while it was read.
pub proof fn law_only_reviewed_artifacts_are_read(
    readings: ArtifactReadings,
    uid: u32,
    gid: u32,
)
    ensures
        snapshot_of(readings, uid, gid) is Ok <==> {
            let root = inspected(readings.build_root);
            let target = inspected(readings.target);
            let release = inspected(readings.release);
            let file = inspected(readings.file);
            &&& is_inspected(readings.build_root) && is_inspected(readings.target) && is_inspected(
                readings.release,
            ) && is_inspected(readings.file)
            &&& root.mode & 0o170000 == 0o040000 && root.mode & 0o7777 == 0o700 && root.owner == uid
                && root.group == gid
            &&& target.mode & 0o170000 == 0o040000 && target.mode & 0o022 == 0 && target.owner
                == uid
            &&& release.mode & 0o170000 == 0o040000 && release.mode & 0o022 == 0 && release.owner
                == uid
            &&& file.mode & 0o170000 == 0o100000 && file.mode & 0o022 == 0 && file.mode & 0o111 != 0
                && file.owner == uid && file.links == 1 && 4 <= file.size <= 536_870_912
            &&& readings.digest is Ok
            &&& readings.file_after == Some(file)
        },
        snapshot_of(readings, uid, gid) matches Ok(snapshot) ==> {
            &&& snapshot.build_root == inspected(readings.build_root)
            &&& snapshot.target == inspected(readings.target)
            &&& snapshot.release == inspected(readings.release)
            &&& snapshot.file == inspected(readings.file)
            &&& snapshot.digest == readings.digest->Ok_0@
        },
        readings.build_root == OpenedEntry::Refused(OpenRefusal::Missing) ==> snapshot_of(
            readings,
            uid,
            gid,
        ) == Err::<ArtifactView, _>(ArtifactObservationError::Missing),
        readings.build_root == OpenedEntry::Refused(OpenRefusal::SymbolicLink) ==> snapshot_of(
            readings,
            uid,
            gid,
        ) == Err::<ArtifactView, _>(ArtifactObservationError::Unsafe),
        readings.build_root == OpenedEntry::Refused(OpenRefusal::Other) ==> snapshot_of(
            readings,
            uid,
            gid,
        ) == Err::<ArtifactView, _>(ArtifactObservationError::Unknown),
{
}

/// A missing artifact is missing wherever the way to it ends, and a link or a
/// file in the way of a directory is unsafe.
pub proof fn law_refusals_to_open_are_told_apart(refusal: OpenRefusal)
    ensures
        artifact_open_error(refusal) == ArtifactObservationError::Missing <==> refusal
            == OpenRefusal::Missing,
        artifact_open_error(refusal) == ArtifactObservationError::Unknown <==> refusal
            == OpenRefusal::Other,
        opened_stat(OpenedEntry::Refused(refusal)) == Err::<FileStat, _>(
            artifact_open_error(refusal),
        ),
        opened_stat(OpenedEntry::Opened(None)) == Err::<FileStat, _>(
            ArtifactObservationError::Unknown,
        ),
{
}

/// Executables are told by their first four bytes: those of an ELF file on
/// Linux, and on macOS those of a Mach-O file of either width or of a universal
/// file of either width, in either byte order. No file is an executable of both
/// platforms, nor of an unknown one.
pub proof fn law_executables_are_told_by_their_magic(magic: Seq<u8>)
    ensures
        is_executable_magic(Some(LocalInstallPlatform::Linux), magic) <==> magic.len() == 4
            && magic[0] == 0x7f && magic[1] == 0x45 && magic[2] == 0x4c && magic[3] == 0x46,
        is_executable_magic(Some(LocalInstallPlatform::Macos), magic) ==> magic.len() == 4,
        magic.len() == 4 && magic[0] == 0xfe && magic[1] == 0xed && magic[2] == 0xfa ==> (
        is_executable_magic(Some(LocalInstallPlatform::Macos), magic) <==> magic[3] == 0xce
            || magic[3] == 0xcf),
        magic.len() == 4 && magic[0] == 0xca && magic[1] == 0xfe && magic[2] == 0xba ==> (
        is_executable_magic(Some(LocalInstallPlatform::Macos), magic) <==> magic[3] == 0xbe
            || magic[3] == 0xbf),
        is_executable_magic(Some(LocalInstallPlatform::Macos), magic) <==> is_executable_magic(
            Some(LocalInstallPlatform::Macos),
            magic.reverse(),
        ),
        is_executable_magic(Some(LocalInstallPlatform::Macos), magic) ==> {
            ||| magic[0] == 0xfe && magic[1] == 0xed && magic[2] == 0xfa
            ||| magic[0] == 0xca && magic[1] == 0xfe && magic[2] == 0xba
            ||| magic[3] == 0xfe && magic[2] == 0xed && magic[1] == 0xfa
            ||| magic[3] == 0xca && magic[2] == 0xfe && magic[1] == 0xba
        },
        !is_executable_magic(None, magic),
{
    let elf = seq![0x7fu8, 0x45, 0x4c, 0x46];
    if magic.len() == 4 && magic[0] == 0x7f && magic[1] == 0x45 && magic[2] == 0x4c && magic[3]
        == 0x46 {
        assert(magic =~= elf);
    }
    lemma_mach_magic(magic);
    lemma_mach_magic(magic.reverse());
}

/// The eight forms, byte by byte.
proof fn lemma_mach_magic(magic: Seq<u8>)
    ensures
        is_executable_magic(Some(LocalInstallPlatform::Macos), magic) <==> magic.len() == 4 && {
            ||| magic[0] == 0xfe && magic[1] == 0xed && magic[2] == 0xfa && (magic[3] == 0xce
                || magic[3] == 0xcf)
            ||| magic[3] == 0xfe && magic[2] == 0xed && magic[1] == 0xfa && (magic[0] == 0xce
                || magic[0] == 0xcf)
            ||| magic[0] == 0xca && magic[1] == 0xfe && magic[2] == 0xba && (magic[3] == 0xbe
                || magic[3] == 0xbf)
            ||| magic[3] == 0xca && magic[2] == 0xfe && magic[1] == 0xba && (magic[0] == 0xbe
                || magic[0] == 0xbf)
        },
{
    lemma_four_bytes(magic, 0xfe, 0xed, 0xfa, 0xce);
    lemma_four_bytes(magic, 0xce, 0xfa, 0xed, 0xfe);
    lemma_four_bytes(magic, 0xfe, 0xed, 0xfa, 0xcf);
    lemma_four_bytes(magic, 0xcf, 0xfa, 0xed, 0xfe);
    lemma_four_bytes(magic, 0xca, 0xfe, 0xba, 0xbe);
    lemma_four_bytes(magic, 0xbe, 0xba, 0xfe, 0xca);
    lemma_four_bytes(magic, 0xca, 0xfe, 0xba, 0xbf);
    lemma_four_bytes(magic, 0xbf, 0xba, 0xfe, 0xca);
}

proof fn lemma_four_bytes(magic: Seq<u8>, a: u8, b: u8, c: u8, d: u8)
    ensures
        magic == seq![a, b, c, d] <==> magic.len() == 4 && magic[0] == a && magic[1] == b
            && magic[2] == c && magic[3] == d,
{
    let wanted = seq![a, b, c, d];
    assert(wanted.len() == 4 && wanted[0] == a && wanted[1] == b && wanted[2] == c && wanted[3]
        == d);
    if magic.len() == 4 && magic[0] == a && magic[1] == b && magic[2] == c && magic[3] == d {
        assert(magic =~= wanted);
    }
}

/// It does not matter in how many pieces an artifact is read, as long as the
/// first holds the magic: two pieces are taken exactly when they would be taken
/// as one, and then at most half a gibibyte was taken.
pub proof fn law_pieces_are_taken_as_the_whole(
    platform: Option<LocalInstallPlatform>,
    first: Seq<u8>,
    second: Seq<u8>,
)
    requires
        first.len() >= 4,
    ensures
        ({
            let none = ArtifactDigestView { platform, bytes: Seq::empty() };
            let some = ArtifactDigestView { platform, bytes: first };
            &&& !refuses_piece(none, first + second) <==> !refuses_piece(none, first)
                && !refuses_piece(some, second)
            &&& !refuses_piece(none, first) <==> first.len() <= 536_870_912 && is_executable_magic(
                platform,
                first.take(4),
            )
            &&& !refuses_piece(some, second) <==> first.len() + second.len() <= 536_870_912
        }),
{
    assert((first + second).take(4) =~= first.take(4));
}

/// Asking for the version runs the artifact with one argument, in a plain
/// locale and with no other variable.
pub proof fn law_versions_are_asked_for_in_a_plain_locale(artifact_path: Seq<char>)
    ensures
        version_request(artifact_path).program == artifact_path,
        version_request(artifact_path).arguments == seq!["--version"@],
        forall|i: int|
            0 <= i < version_request(artifact_path).environment.len() ==> (
            #[trigger] version_request(artifact_path).environment[i]).value == "C"@,
        process::variable_names(version_request(artifact_path).environment) == seq![
            "LANG"@,
            "LC_ALL"@,
        ],
{
    assert(process::variable_names(version_request(artifact_path).environment) =~= seq![
        "LANG"@,
        "LC_ALL"@,
    ]);
}

/// The artifact is found by its name in the release directory of the build
/// root, and a path that leads elsewhere names no artifact.
pub proof fn law_artifacts_are_found_in_the_release_directory(
    build_root: Seq<char>,
    name: Seq<char>,
    path: Seq<char>,
)
    ensures
        paths::is_upright(build_root) && paths::named_entries(build_root).len() > 0
            && name.len() > 0 && name != "."@ && name != ".."@ && !name.contains('/')
            ==> artifact_name(
            build_root,
            paths::child(
                paths::child(paths::child(build_root, "target"@), "release"@),
                name,
            ),
        ) == Some(name),
        artifact_name(build_root, path) matches Some(found) ==> paths::is_upright(path)
            && paths::named_entries(path) == paths::named_entries(build_root) + seq![
            "target"@,
            "release"@,
            found,
        ],
{
    let root = paths::named_entries(build_root);
    if paths::is_upright(build_root) && root.len() > 0 && name.len() > 0 && name != "."@ && name
        != ".."@ && !name.contains('/') {
        let target = paths::child(build_root, "target"@);
        let release = paths::child(target, "release"@);
        let artifact = paths::child(release, name);
        reveal_strlit("target");
        reveal_strlit("release");
        reveal_strlit(".");
        reveal_strlit("..");
        lemma_entry("target"@);
        lemma_entry("release"@);
        lemma_entry(name);
        paths::law_children_stand_below_their_directory(build_root, "target"@);
        paths::law_children_stand_below_their_directory(target, "release"@);
        paths::law_children_stand_below_their_directory(release, name);
        let full = paths::named_entries(artifact);
        assert(full =~= root + seq!["target"@, "release"@, name]);
        assert(full.take(root.len() as int) =~= root);
    }
    if artifact_name(build_root, path) is Some {
        let full = paths::named_entries(path);
        assert(full =~= root + seq!["target"@, "release"@, full.last()]) by {
            assert forall|i: int| 0 <= i < root.len() implies full[i] == root[i] by {
                assert(full.take(root.len() as int)[i] == full[i]);
            }
        }
    }
}

proof fn lemma_entry(name: Seq<char>)
    requires
        name.len() > 0,
        name != "."@,
        name != ".."@,
        !name.contains('/'),
    ensures
        paths::named_entries(name) == seq![name],
        scan::split_on(name, '/') == seq![name],
        !scan::split_on(name, '/').contains(".."@),
{
    let one = seq![name];
    scan::law_joining_is_undone_by_splitting(one, '/');
    assert(scan::joined(one, '/') == name);
    reveal_with_fuel(paths::plain_segments, 2);
    assert(one.drop_last() =~= Seq::empty());
    assert(one.last() == name);
    assert(paths::plain_segments(one) =~= one);
    if one.contains(".."@) {
        let i = choose|i: int| 0 <= i < one.len() && one[i] == ".."@;
        assert(one[i] == name);
    }
}

/// The version of a binary is a line of its own: the name of its generation, a
/// blank, and one word of letters, digits and the signs of a version.
pub proof fn law_versions_are_read_off_their_line(
    record: RecordView,
    command: CommandView,
    version: Seq<char>,
)
    requires
        ran_well(record, command),
        record.stderr.len() == 0,
        1 <= version.len() <= 100,
        is_version_word(version),
    ensures
        ({
            let current = "glaeda "@ + version;
            let legacy = "smolrunner "@ + version;
            &&& record.stdout == current || record.stdout == current.push('\n')
                ==> binary_version(LocalInstallIdentityGeneration::GlaedaV2, record, command)
                == Some(current)
            &&& record.stdout == legacy || record.stdout == legacy.push('\n') ==> binary_version(
                LocalInstallIdentityGeneration::SmolrunnerV1,
                record,
                command,
            ) == Some(legacy)
            &&& record.stdout == legacy ==> binary_version(
                LocalInstallIdentityGeneration::GlaedaV2,
                record,
                command,
            ) is None
        }),
{
    lemma_ran_well(record, command);
    lemma_version_line(LocalInstallIdentityGeneration::GlaedaV2, "glaeda"@, "glaeda "@, version);
    lemma_version_line(
        LocalInstallIdentityGeneration::SmolrunnerV1,
        "smolrunner"@,
        "smolrunner "@,
        version,
    );
    reveal_strlit("glaeda ");
    reveal_strlit("smolrunner ");
    reveal_strlit("glaeda");
    reveal_strlit("smolrunner");
    let current = "glaeda "@ + version;
    let legacy = "smolrunner "@ + version;
    lemma_printed_bytes(current);
    lemma_printed_bytes(legacy);
    assert(current.push('\n').drop_last() =~= current);
    assert(legacy.push('\n').drop_last() =~= legacy);
    assert(current.last() == version.last() && legacy.last() == version.last());
    assert(is_version_char(version[version.len() - 1]));
    if record.stdout == legacy {
        lemma_spaced_fields("smolrunner"@, "smolrunner "@, version);
        assert("smolrunner"@.len() == 10 && "glaeda"@.len() == 6);
    }
}

pub open spec fn is_version_word(version: Seq<char>) -> bool {
    forall|i: int|
        0 <= i < version.len() ==> {
            let c = (#[trigger] version[i]) as int;
            48 <= c <= 57 || 65 <= c <= 90 || 97 <= c <= 122 || c == 46 || c == 45 || c == 43 || c
                == 95
        }
}

proof fn lemma_printed_bytes(line: Seq<char>)
    requires
        forall|i: int| 0 <= i < line.len() ==> ' ' <= #[trigger] line[i] <= '~',
    ensures
        vstd::utf8::encode_utf8(line).len() == line.len(),
        vstd::utf8::encode_utf8(line.push('\n')).len() == line.len() + 1,
{
    assert(vstd::utf8::is_ascii_chars(line)) by {
        assert forall|i: int| 0 <= i < line.len() implies (#[trigger] line[i]) as nat <= 0x7f by {}
    }
    let printed = line.push('\n');
    assert(vstd::utf8::is_ascii_chars(printed)) by {
        assert forall|i: int| 0 <= i < printed.len() implies (#[trigger] printed[i]) as nat
            <= 0x7f by {
            if i < line.len() {
                assert(printed[i] == line[i]);
            }
        }
    }
    vstd::utf8::is_ascii_chars_encode_utf8(line);
    vstd::utf8::is_ascii_chars_encode_utf8(printed);
}

proof fn lemma_spaced_fields(name: Seq<char>, spaced: Seq<char>, version: Seq<char>)
    requires
        spaced == name.push(' '),
        scan::is_solid(name),
        version.len() > 0,
        is_version_word(version),
    ensures
        scan::next_field(spaced + version) == Some((name, seq![' '] + version)),
        scan::next_field(seq![' '] + version) == Some((version, Seq::<char>::empty())),
        scan::next_field(Seq::<char>::empty()) is None,
{
    let none = Seq::<char>::empty();
    assert forall|i: int| 0 <= i < version.len() implies !scan::is_white_space(
        #[trigger] version[i],
    ) by {
        assert(is_version_char(version[i]));
    }
    assert(spaced + version =~= none + name + (seq![' '] + version));
    scan::law_fields_stand_between_blanks(none, name, seq![' '] + version);
    assert(seq![' '] + version =~= seq![' '] + version + none);
    scan::law_fields_stand_between_blanks(seq![' '], version, none);
}

proof fn lemma_version_line(
    generation: LocalInstallIdentityGeneration,
    name: Seq<char>,
    spaced: Seq<char>,
    version: Seq<char>,
)
    requires
        generation == LocalInstallIdentityGeneration::GlaedaV2 && name == "glaeda"@ && spaced
            == "glaeda "@ || (generation == LocalInstallIdentityGeneration::SmolrunnerV1 && name
            == "smolrunner"@ && spaced == "smolrunner "@),
        1 <= version.len() <= 100,
        is_version_word(version),
    ensures
        is_version_line(generation, spaced + version),
        scan::is_solid(name),
        spaced == name.push(' '),
{
    reveal_strlit("glaeda ");
    reveal_strlit("smolrunner ");
    reveal_strlit("glaeda");
    reveal_strlit("smolrunner");
    assert(spaced =~= name.push(' '));
    lemma_spaced_fields(name, spaced, version);
    let line = spaced + version;
    assert forall|i: int| 0 <= i < line.len() implies ' ' <= #[trigger] line[i] <= '~' by {
        if i >= spaced.len() {
            assert(line[i] == version[i - spaced.len()]);
        }
    }
    assert forall|i: int| 0 <= i < version.len() implies is_version_char(
        #[trigger] version[i],
    ) by {}
}

/// A version that is read is one line of two words, the name of the binary's
/// generation and the version, with nothing in them but letters, digits and the
/// signs of a version, and nothing but blanks around them.
pub proof fn law_read_versions_are_plain(
    generation: LocalInstallIdentityGeneration,
    record: RecordView,
    command: CommandView,
    i: int,
)
    requires
        binary_version(generation, record, command) is Some,
    ensures
        ({
            let line = binary_version(generation, record, command)->0;
            &&& ran_well(record, command)
            &&& record.stderr.len() == 0
            &&& vstd::utf8::encode_utf8(record.stdout).len() <= 128
            &&& record.stdout == line || record.stdout == line.push('\n')
            &&& 0 <= i < line.len() ==> {
                let c = line[i] as int;
                c == 32 || 48 <= c <= 57 || 65 <= c <= 90 || 97 <= c <= 122 || c == 46 || c == 45
                    || c == 43 || c == 95
            }
            &&& scan::next_field(line) is Some
            &&& (scan::next_field(line)->0).0 == (match generation {
                LocalInstallIdentityGeneration::SmolrunnerV1 => "smolrunner"@,
                LocalInstallIdentityGeneration::GlaedaV2 => "glaeda"@,
            })
        }),
{
    lemma_ran_well(record, command);
    let line = binary_version(generation, record, command)->0;
    if record.stdout.len() > 0 && record.stdout.last() == '\n' {
        assert(record.stdout =~= line.push('\n'));
    }
    let first = scan::next_field(line)->0;
    let second = scan::next_field(first.1)->0;
    let b1 = scan::law_fields_are_parts_of_the_text(line);
    let b2 = scan::law_fields_are_parts_of_the_text(first.1);
    let b3 = scan::law_fields_are_parts_of_the_text(second.1);
    reveal_strlit("glaeda");
    reveal_strlit("smolrunner");
    if 0 <= i < line.len() {
        assert(' ' <= line[i] <= '~');
        let n1 = b1.len() as int;
        let n2 = n1 + first.0.len();
        let n3 = n2 + b2.len();
        let n4 = n3 + second.0.len();
        assert(line.len() == n4 + b3.len());
        if i < n1 {
            assert(scan::is_white_space(b1[i]) && line[i] == b1[i]);
        } else if i < n2 {
            assert(line[i] == first.0[i - n1]);
        } else if i < n3 {
            assert(line[i] == b2[i - n2]);
            assert(scan::is_white_space(b2[i - n2]));
        } else if i < n4 {
            assert(line[i] == second.0[i - n3]);
            assert(is_version_char(second.0[i - n3]));
        } else {
            assert(line[i] == b3[i - n4]);
            assert(scan::is_white_space(b3[i - n4]));
        }
    }
}

} // verus!
