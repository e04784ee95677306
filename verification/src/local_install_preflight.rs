//! Composition of sealed self-build evidence into one decision.
use vstd::prelude::*;

use crate::artifact::Sha256Digest;
use crate::local_install_build_command::{
    DirectoryReceiptView, LocalInstallBuildCommandPolicy,
    LocalInstallDirectoryBlockingCode, LocalInstallDirectoryPreflightReceipt,
    LocalInstallDirectoryRepairCode, LocalInstallToolchainPreflightReceipt, PolicyView,
    ToolchainReceiptView, LOCAL_INSTALL_BUILD_COMMAND_SCHEMA_VERSION,
    LOCAL_INSTALL_DIRECTORY_PREFLIGHT_SCHEMA_VERSION,
    LOCAL_INSTALL_TOOLCHAIN_PREFLIGHT_SCHEMA_VERSION,
};
use crate::local_install_cargo_config_preflight::{
    LocalInstallCargoConfigBlockingCode, LocalInstallCargoConfigPreflightReceipt,
    LocalInstallCargoConfigRepairCode, PreflightReceiptView,
    LOCAL_INSTALL_CARGO_CONFIG_PREFLIGHT_SCHEMA_VERSION,
};
use crate::local_install_plan::{
    copied_identity, same_identity, BuildPlanView, IdentityView, LocalInstallBuildPlan,
    LocalInstallGenerationIdentity,
};
use crate::local_install_source_preflight::{
    LocalInstallSourcePreflightReceipt, SourceReceiptView,
    LOCAL_INSTALL_SOURCE_PREFLIGHT_SCHEMA_VERSION,
};
use crate::outcome;
use crate::text;

verus! {

pub const LOCAL_INSTALL_PREFLIGHT_SCHEMA_VERSION: u8 = 1;

#[derive(Debug, Clone, Copy, PartialEq, Eq, Structural)]
pub enum LocalInstallPreflightDisposition {
    Ready,
    Repairable,
    Blocked,
}

#[derive(Debug, Clone, Copy, PartialEq, Eq, Structural)]
pub enum LocalInstallPreflightBlockingCode {
    SourceSchemaUnsupported,
    ConfigSchemaUnsupported,
    ToolchainSchemaUnsupported,
    DirectorySchemaUnsupported,
    CommandSchemaUnsupported,
    SourceDigestMismatch,
    CommandSourceDigestMismatch,
    CommandGenerationMismatch,
    CommandPredecessorMismatch,
    ToolchainIdentityMismatch,
    CargoConfigPolicyMismatch,
    SourceBlocked,
    ConfigBlocked,
    ToolchainBlocked,
    DirectoryBlocked,
    InconsistentRepairEvidence,
}

#[derive(Debug, Clone, Copy, PartialEq, Eq, Structural)]
pub enum LocalInstallPreflightRepairCode {
    CreateBuildRoot,
    CreateWork,
    CreateHome,
    CreateCargoHome,
    CreateTarget,
}

#[derive(Debug, PartialEq, Eq)]
pub struct LocalInstallPreflightReceipt {
    schema_version: u8,
    source_digest: Sha256Digest,
    target_generation: u64,
    expected_predecessor: Option<LocalInstallGenerationIdentity>,
    source_ready: bool,
    config_ready: bool,
    toolchain_ready: bool,
    directories_ready: bool,
    disposition: LocalInstallPreflightDisposition,
    blocking_codes: Vec<LocalInstallPreflightBlockingCode>,
    repair_codes: Vec<LocalInstallPreflightRepairCode>,
}

pub struct PreflightView {
    pub schema_version: u8,
    pub source_digest: Seq<char>,
    pub target_generation: u64,
    pub expected_predecessor: Option<IdentityView>,
    pub source_ready: bool,
    pub config_ready: bool,
    pub toolchain_ready: bool,
    pub directories_ready: bool,
    pub disposition: LocalInstallPreflightDisposition,
    pub blocking_codes: Seq<LocalInstallPreflightBlockingCode>,
    pub repair_codes: Seq<LocalInstallPreflightRepairCode>,
}

impl View for LocalInstallPreflightReceipt {
    type V = PreflightView;

    closed spec fn view(&self) -> PreflightView {
        PreflightView {
            schema_version: self.schema_version,
            source_digest: self.source_digest@,
            target_generation: self.target_generation,
            expected_predecessor: outcome::option_view(self.expected_predecessor),
            source_ready: self.source_ready,
            config_ready: self.config_ready,
            toolchain_ready: self.toolchain_ready,
            directories_ready: self.directories_ready,
            disposition: self.disposition,
            blocking_codes: self.blocking_codes@,
            repair_codes: self.repair_codes@,
        }
    }
}

impl LocalInstallPreflightReceipt {
    pub fn schema_version(&self) -> (version: u8)
        ensures
            version == self@.schema_version,
    {
        self.schema_version
    }

    pub fn source_digest(&self) -> (digest: &Sha256Digest)
        ensures
            digest@ == self@.source_digest,
    {
        &self.source_digest
    }

    pub fn target_generation(&self) -> (generation: u64)
        ensures
            generation == self@.target_generation,
    {
        self.target_generation
    }

    pub fn expected_predecessor(&self) -> (predecessor: Option<&LocalInstallGenerationIdentity>)
        ensures
            match predecessor {
                Some(identity) => self@.expected_predecessor == Some(identity@),
                None => self@.expected_predecessor is None,
            },
    {
        self.expected_predecessor.as_ref()
    }

    pub fn source_ready(&self) -> (r: bool)
        ensures
            r == self@.source_ready,
    {
        self.source_ready
    }

    pub fn config_ready(&self) -> (r: bool)
        ensures
            r == self@.config_ready,
    {
        self.config_ready
    }

    pub fn toolchain_ready(&self) -> (r: bool)
        ensures
            r == self@.toolchain_ready,
    {
        self.toolchain_ready
    }

    pub fn directories_ready(&self) -> (r: bool)
        ensures
            r == self@.directories_ready,
    {
        self.directories_ready
    }

    pub fn disposition(&self) -> (disposition: LocalInstallPreflightDisposition)
        ensures
            disposition == self@.disposition,
    {
        self.disposition
    }

    pub fn blocking_codes(&self) -> (codes: &[LocalInstallPreflightBlockingCode])
        ensures
            codes@ == self@.blocking_codes,
    {
        self.blocking_codes.as_slice()
    }

    pub fn repair_codes(&self) -> (codes: &[LocalInstallPreflightRepairCode])
        ensures
            codes@ == self@.repair_codes,
    {
        self.repair_codes.as_slice()
    }
}

/// What one preflight contributes.
#[derive(Debug, Clone, Copy, PartialEq, Eq, Structural)]
pub enum EvidenceDisposition {
    Ready,
    /// Its own repair codes say what to do.
    Repairable,
    /// Repaired once the build root is there.
    RepairedWithBuildRoot,
    Blocked,
}

pub open spec fn is_repairable_block(code: LocalInstallCargoConfigBlockingCode) -> bool {
    code == LocalInstallCargoConfigBlockingCode::BuildRootMissing || code
        == LocalInstallCargoConfigBlockingCode::CargoHomeMissing
}

/// Configuration evidence can be repaired when it asks for a repair and nothing
/// else than missing directories blocks.
pub open spec fn config_evidence(config: PreflightReceiptView) -> EvidenceDisposition {
    if config.ready {
        EvidenceDisposition::Ready
    } else if config.repair_codes.len() > 0 && forall|i: int|
        0 <= i < config.blocking_codes.len() ==> is_repairable_block(
            #[trigger] config.blocking_codes[i],
        ) {
        EvidenceDisposition::Repairable
    } else {
        EvidenceDisposition::Blocked
    }
}

/// Directory evidence can be repaired when it says so, or when only the build
/// root is missing and the configuration evidence repairs that.
pub open spec fn directory_evidence(
    directories: DirectoryReceiptView,
    config: PreflightReceiptView,
) -> EvidenceDisposition {
    if directories.ready {
        EvidenceDisposition::Ready
    } else if directories.repairable {
        EvidenceDisposition::Repairable
    } else if directories.blocking_codes == seq![
        LocalInstallDirectoryBlockingCode::BuildRootMissing,
    ] && config_repairs(config, LocalInstallCargoConfigRepairCode::CreateIsolatedBuildRoot) {
        EvidenceDisposition::RepairedWithBuildRoot
    } else {
        EvidenceDisposition::Blocked
    }
}

pub open spec fn config_repairs(
    config: PreflightReceiptView,
    code: LocalInstallCargoConfigRepairCode,
) -> bool {
    config_evidence(config) == EvidenceDisposition::Repairable && config.repair_codes.contains(code)
}

pub open spec fn directory_repairs(
    directories: DirectoryReceiptView,
    config: PreflightReceiptView,
    code: LocalInstallDirectoryRepairCode,
) -> bool {
    directory_evidence(directories, config) == EvidenceDisposition::Repairable
        && directories.repair_codes.contains(code)
}

/// Both preflights agree on whether the Cargo home is missing, unless the whole
/// build root is.
pub open spec fn is_consistent_repair(
    config: PreflightReceiptView,
    directories: DirectoryReceiptView,
) -> bool {
    config.repair_codes.contains(LocalInstallCargoConfigRepairCode::CreateIsolatedCargoHome)
        == directories.repair_codes.contains(LocalInstallDirectoryRepairCode::CreateCargoHome)
        || config.repair_codes.contains(LocalInstallCargoConfigRepairCode::CreateIsolatedBuildRoot)
}

pub open spec fn block_if(
    applies: bool,
    code: LocalInstallPreflightBlockingCode,
) -> Seq<LocalInstallPreflightBlockingCode> {
    if applies {
        seq![code]
    } else {
        Seq::empty()
    }
}

pub open spec fn repair_if(
    applies: bool,
    code: LocalInstallPreflightRepairCode,
) -> Seq<LocalInstallPreflightRepairCode> {
    if applies {
        seq![code]
    } else {
        Seq::empty()
    }
}

/// Evidence of a schema that this composition does not know.
pub open spec fn schema_blocks(
    command: PolicyView,
    source: SourceReceiptView,
    config: PreflightReceiptView,
    toolchain: ToolchainReceiptView,
    directories: DirectoryReceiptView,
) -> Seq<LocalInstallPreflightBlockingCode> {
    block_if(
        source.schema_version != LOCAL_INSTALL_SOURCE_PREFLIGHT_SCHEMA_VERSION,
        LocalInstallPreflightBlockingCode::SourceSchemaUnsupported,
    ) + block_if(
        config.schema_version != LOCAL_INSTALL_CARGO_CONFIG_PREFLIGHT_SCHEMA_VERSION,
        LocalInstallPreflightBlockingCode::ConfigSchemaUnsupported,
    ) + block_if(
        toolchain.schema_version != LOCAL_INSTALL_TOOLCHAIN_PREFLIGHT_SCHEMA_VERSION,
        LocalInstallPreflightBlockingCode::ToolchainSchemaUnsupported,
    ) + block_if(
        directories.schema_version != LOCAL_INSTALL_DIRECTORY_PREFLIGHT_SCHEMA_VERSION,
        LocalInstallPreflightBlockingCode::DirectorySchemaUnsupported,
    ) + block_if(
        command.schema_version != LOCAL_INSTALL_BUILD_COMMAND_SCHEMA_VERSION,
        LocalInstallPreflightBlockingCode::CommandSchemaUnsupported,
    )
}

/// Evidence that is bound to something else than the planned build.
pub open spec fn binding_blocks(
    build: BuildPlanView,
    command: PolicyView,
    source: SourceReceiptView,
    toolchain: ToolchainReceiptView,
) -> Seq<LocalInstallPreflightBlockingCode> {
    block_if(
        source.expected_source_digest != build.source.digest,
        LocalInstallPreflightBlockingCode::SourceDigestMismatch,
    ) + block_if(
        command.source_digest != build.source.digest,
        LocalInstallPreflightBlockingCode::CommandSourceDigestMismatch,
    ) + block_if(
        command.target_generation != build.target_generation,
        LocalInstallPreflightBlockingCode::CommandGenerationMismatch,
    ) + block_if(
        command.expected_predecessor != build.expected_predecessor,
        LocalInstallPreflightBlockingCode::CommandPredecessorMismatch,
    ) + block_if(
        toolchain.expected_toolchain != build.source.toolchain,
        LocalInstallPreflightBlockingCode::ToolchainIdentityMismatch,
    ) + block_if(
        command.cargo_config_policy != "isolated_cwd_and_cargo_home_config_free_v1"@,
        LocalInstallPreflightBlockingCode::CargoConfigPolicyMismatch,
    )
}

/// Evidence that is not ready and cannot be made so.
pub open spec fn evidence_blocks(
    source: SourceReceiptView,
    config: PreflightReceiptView,
    toolchain: ToolchainReceiptView,
    directories: DirectoryReceiptView,
) -> Seq<LocalInstallPreflightBlockingCode> {
    block_if(!source.ready, LocalInstallPreflightBlockingCode::SourceBlocked) + block_if(
        config_evidence(config) == EvidenceDisposition::Blocked,
        LocalInstallPreflightBlockingCode::ConfigBlocked,
    ) + block_if(!toolchain.ready, LocalInstallPreflightBlockingCode::ToolchainBlocked) + block_if(
        directory_evidence(directories, config) == EvidenceDisposition::Blocked,
        LocalInstallPreflightBlockingCode::DirectoryBlocked,
    ) + block_if(
        !is_consistent_repair(config, directories),
        LocalInstallPreflightBlockingCode::InconsistentRepairEvidence,
    )
}

/// The repairs that the evidence asks for.
pub open spec fn wanted_repairs(
    config: PreflightReceiptView,
    directories: DirectoryReceiptView,
) -> Seq<LocalInstallPreflightRepairCode> {
    repair_if(
        config_repairs(config, LocalInstallCargoConfigRepairCode::CreateIsolatedBuildRoot),
        LocalInstallPreflightRepairCode::CreateBuildRoot,
    ) + repair_if(
        directory_repairs(directories, config, LocalInstallDirectoryRepairCode::CreateWork),
        LocalInstallPreflightRepairCode::CreateWork,
    ) + repair_if(
        directory_repairs(directories, config, LocalInstallDirectoryRepairCode::CreateHome),
        LocalInstallPreflightRepairCode::CreateHome,
    ) + repair_if(
        config_repairs(config, LocalInstallCargoConfigRepairCode::CreateIsolatedCargoHome)
            || directory_repairs(
            directories,
            config,
            LocalInstallDirectoryRepairCode::CreateCargoHome,
        ),
        LocalInstallPreflightRepairCode::CreateCargoHome,
    ) + repair_if(
        directory_repairs(directories, config, LocalInstallDirectoryRepairCode::CreateTarget),
        LocalInstallPreflightRepairCode::CreateTarget,
    )
}

/// What [`compose_local_install_preflight`] answers.
pub open spec fn composed_preflight(
    build: BuildPlanView,
    command: PolicyView,
    source: SourceReceiptView,
    config: PreflightReceiptView,
    toolchain: ToolchainReceiptView,
    directories: DirectoryReceiptView,
) -> PreflightView {
    let blocking_codes = schema_blocks(command, source, config, toolchain, directories)
        + binding_blocks(build, command, source, toolchain) + evidence_blocks(
        source,
        config,
        toolchain,
        directories,
    );
    let repairs = wanted_repairs(config, directories);
    let disposition = if blocking_codes.len() > 0 {
        LocalInstallPreflightDisposition::Blocked
    } else if repairs.len() > 0 {
        LocalInstallPreflightDisposition::Repairable
    } else {
        LocalInstallPreflightDisposition::Ready
    };
    PreflightView {
        schema_version: LOCAL_INSTALL_PREFLIGHT_SCHEMA_VERSION,
        source_digest: build.source.digest,
        target_generation: build.target_generation,
        expected_predecessor: build.expected_predecessor,
        source_ready: source.ready,
        config_ready: config.ready,
        toolchain_ready: toolchain.ready,
        directories_ready: directories.ready,
        disposition,
        blocking_codes,
        repair_codes: if disposition == LocalInstallPreflightDisposition::Repairable {
            repairs
        } else {
            Seq::empty()
        },
    }
}

fn add_block(
    codes: &mut Vec<LocalInstallPreflightBlockingCode>,
    applies: bool,
    code: LocalInstallPreflightBlockingCode,
)
    ensures
        final(codes)@ == old(codes)@ + block_if(applies, code),
{
    let ghost before = codes@;
    if applies {
        codes.push(code);
    }
    assert(codes@ =~= before + block_if(applies, code));
}

fn add_repair(
    codes: &mut Vec<LocalInstallPreflightRepairCode>,
    applies: bool,
    code: LocalInstallPreflightRepairCode,
)
    ensures
        final(codes)@ == old(codes)@ + repair_if(applies, code),
{
    let ghost before = codes@;
    if applies {
        codes.push(code);
    }
    assert(codes@ =~= before + repair_if(applies, code));
}

fn asks_for(
    config: &LocalInstallCargoConfigPreflightReceipt,
    code: LocalInstallCargoConfigRepairCode,
) -> (r: bool)
    ensures
        r == config@.repair_codes.contains(code),
{
    let mut i: usize = 0;
    while i < config.repair_codes.len()
        invariant
            i <= config.repair_codes@.len(),
            forall|k: int| 0 <= k < i ==> config.repair_codes@[k] != code,
        decreases config.repair_codes@.len() - i,
    {
        if config.repair_codes[i] == code {
            assert(config@.repair_codes[i as int] == code);
            return true;
        }
        i += 1;
    }
    false
}

fn classify_config(config: &LocalInstallCargoConfigPreflightReceipt) -> (r: EvidenceDisposition)
    ensures
        r == config_evidence(config@),
{
    if config.ready {
        return EvidenceDisposition::Ready;
    }
    if config.repair_codes.len() == 0 {
        return EvidenceDisposition::Blocked;
    }
    let mut i: usize = 0;
    while i < config.blocking_codes.len()
        invariant
            i <= config.blocking_codes@.len(),
            !config.ready,
            forall|k: int| 0 <= k < i ==> is_repairable_block(#[trigger] config.blocking_codes@[k]),
        decreases config.blocking_codes@.len() - i,
    {
        let code = config.blocking_codes[i];
        if code != LocalInstallCargoConfigBlockingCode::BuildRootMissing && code
            != LocalInstallCargoConfigBlockingCode::CargoHomeMissing {
            assert(!is_repairable_block(config@.blocking_codes[i as int]));
            return EvidenceDisposition::Blocked;
        }
        i += 1;
    }
    EvidenceDisposition::Repairable
}

fn classify_directories(
    directories: &LocalInstallDirectoryPreflightReceipt,
    config: &LocalInstallCargoConfigPreflightReceipt,
) -> (r: EvidenceDisposition)
    ensures
        r == directory_evidence(directories@, config@),
{
    if directories.ready {
        return EvidenceDisposition::Ready;
    }
    if directories.repairable {
        return EvidenceDisposition::Repairable;
    }
    let build_root_missing_only = directories.blocking_codes.len() == 1
        && directories.blocking_codes[0] == LocalInstallDirectoryBlockingCode::BuildRootMissing;
    assert(build_root_missing_only ==> directories@.blocking_codes =~= seq![
        LocalInstallDirectoryBlockingCode::BuildRootMissing,
    ]);
    let config_repairs_build_root = classify_config(config) == EvidenceDisposition::Repairable
        && asks_for(config, LocalInstallCargoConfigRepairCode::CreateIsolatedBuildRoot);
    if build_root_missing_only && config_repairs_build_root {
        EvidenceDisposition::RepairedWithBuildRoot
    } else {
        EvidenceDisposition::Blocked
    }
}

fn repair_evidence_is_consistent(
    config: &LocalInstallCargoConfigPreflightReceipt,
    directories: &LocalInstallDirectoryPreflightReceipt,
) -> (r: bool)
    ensures
        r == is_consistent_repair(config@, directories@),
{
    let config_cargo_home_missing = asks_for(
        config,
        LocalInstallCargoConfigRepairCode::CreateIsolatedCargoHome,
    );
    let directory_cargo_home_missing = directories.asks_for(
        LocalInstallDirectoryRepairCode::CreateCargoHome,
    );
    config_cargo_home_missing == directory_cargo_home_missing || asks_for(
        config,
        LocalInstallCargoConfigRepairCode::CreateIsolatedBuildRoot,
    )
}

fn find_schema_blocks(
    command: &LocalInstallBuildCommandPolicy,
    source: &LocalInstallSourcePreflightReceipt,
    config: &LocalInstallCargoConfigPreflightReceipt,
    toolchain: &LocalInstallToolchainPreflightReceipt,
    directories: &LocalInstallDirectoryPreflightReceipt,
) -> (codes: Vec<LocalInstallPreflightBlockingCode>)
    ensures
        codes@ == schema_blocks(command@, source@, config@, toolchain@, directories@),
{
    let mut codes: Vec<LocalInstallPreflightBlockingCode> = Vec::new();
    add_block(
        &mut codes,
        source.schema_version() != LOCAL_INSTALL_SOURCE_PREFLIGHT_SCHEMA_VERSION,
        LocalInstallPreflightBlockingCode::SourceSchemaUnsupported,
    );
    add_block(
        &mut codes,
        config.schema_version != LOCAL_INSTALL_CARGO_CONFIG_PREFLIGHT_SCHEMA_VERSION,
        LocalInstallPreflightBlockingCode::ConfigSchemaUnsupported,
    );
    add_block(
        &mut codes,
        toolchain.schema_version != LOCAL_INSTALL_TOOLCHAIN_PREFLIGHT_SCHEMA_VERSION,
        LocalInstallPreflightBlockingCode::ToolchainSchemaUnsupported,
    );
    add_block(
        &mut codes,
        directories.schema_version != LOCAL_INSTALL_DIRECTORY_PREFLIGHT_SCHEMA_VERSION,
        LocalInstallPreflightBlockingCode::DirectorySchemaUnsupported,
    );
    add_block(
        &mut codes,
        command.schema_version != LOCAL_INSTALL_BUILD_COMMAND_SCHEMA_VERSION,
        LocalInstallPreflightBlockingCode::CommandSchemaUnsupported,
    );
    assert(codes@ =~= schema_blocks(command@, source@, config@, toolchain@, directories@));
    codes
}

fn find_binding_blocks(
    build: &LocalInstallBuildPlan,
    command: &LocalInstallBuildCommandPolicy,
    source: &LocalInstallSourcePreflightReceipt,
    toolchain: &LocalInstallToolchainPreflightReceipt,
) -> (codes: Vec<LocalInstallPreflightBlockingCode>)
    ensures
        codes@ == binding_blocks(build@, command@, source@, toolchain@),
{
    let mut codes: Vec<LocalInstallPreflightBlockingCode> = Vec::new();
    add_block(
        &mut codes,
        !source.expected_source_digest().same_as(build.source.digest()),
        LocalInstallPreflightBlockingCode::SourceDigestMismatch,
    );
    add_block(
        &mut codes,
        !command.source_digest.same_as(build.source.digest()),
        LocalInstallPreflightBlockingCode::CommandSourceDigestMismatch,
    );
    add_block(
        &mut codes,
        command.target_generation != build.target_generation,
        LocalInstallPreflightBlockingCode::CommandGenerationMismatch,
    );
    add_block(
        &mut codes,
        !same_identity(&command.expected_predecessor, &build.expected_predecessor),
        LocalInstallPreflightBlockingCode::CommandPredecessorMismatch,
    );
    add_block(
        &mut codes,
        !text::same_text(
            toolchain.expected_toolchain.as_str(),
            build.source.toolchain().as_str(),
        ),
        LocalInstallPreflightBlockingCode::ToolchainIdentityMismatch,
    );
    add_block(
        &mut codes,
        !text::same_text(
            command.cargo_config_policy.as_str(),
            "isolated_cwd_and_cargo_home_config_free_v1",
        ),
        LocalInstallPreflightBlockingCode::CargoConfigPolicyMismatch,
    );
    assert(codes@ =~= binding_blocks(build@, command@, source@, toolchain@));
    codes
}

fn find_evidence_blocks(
    source: &LocalInstallSourcePreflightReceipt,
    config: &LocalInstallCargoConfigPreflightReceipt,
    toolchain: &LocalInstallToolchainPreflightReceipt,
    directories: &LocalInstallDirectoryPreflightReceipt,
) -> (codes: Vec<LocalInstallPreflightBlockingCode>)
    ensures
        codes@ == evidence_blocks(source@, config@, toolchain@, directories@),
{
    let mut codes: Vec<LocalInstallPreflightBlockingCode> = Vec::new();
    add_block(&mut codes, !source.ready(), LocalInstallPreflightBlockingCode::SourceBlocked);
    add_block(
        &mut codes,
        classify_config(config) == EvidenceDisposition::Blocked,
        LocalInstallPreflightBlockingCode::ConfigBlocked,
    );
    add_block(&mut codes, !toolchain.ready, LocalInstallPreflightBlockingCode::ToolchainBlocked);
    add_block(
        &mut codes,
        classify_directories(directories, config) == EvidenceDisposition::Blocked,
        LocalInstallPreflightBlockingCode::DirectoryBlocked,
    );
    add_block(
        &mut codes,
        !repair_evidence_is_consistent(config, directories),
        LocalInstallPreflightBlockingCode::InconsistentRepairEvidence,
    );
    assert(codes@ =~= evidence_blocks(source@, config@, toolchain@, directories@));
    codes
}

fn find_repairs(
    config: &LocalInstallCargoConfigPreflightReceipt,
    directories: &LocalInstallDirectoryPreflightReceipt,
) -> (codes: Vec<LocalInstallPreflightRepairCode>)
    ensures
        codes@ == wanted_repairs(config@, directories@),
{
    let by_config = classify_config(config) == EvidenceDisposition::Repairable;
    let by_directory = classify_directories(directories, config)
        == EvidenceDisposition::Repairable;
    let mut codes: Vec<LocalInstallPreflightRepairCode> = Vec::new();
    add_repair(
        &mut codes,
        by_config && asks_for(config, LocalInstallCargoConfigRepairCode::CreateIsolatedBuildRoot),
        LocalInstallPreflightRepairCode::CreateBuildRoot,
    );
    add_repair(
        &mut codes,
        by_directory && directories.asks_for(LocalInstallDirectoryRepairCode::CreateWork),
        LocalInstallPreflightRepairCode::CreateWork,
    );
    add_repair(
        &mut codes,
        by_directory && directories.asks_for(LocalInstallDirectoryRepairCode::CreateHome),
        LocalInstallPreflightRepairCode::CreateHome,
    );
    add_repair(
        &mut codes,
        (by_config && asks_for(config, LocalInstallCargoConfigRepairCode::CreateIsolatedCargoHome))
            || (by_directory && directories.asks_for(
            LocalInstallDirectoryRepairCode::CreateCargoHome,
        )),
        LocalInstallPreflightRepairCode::CreateCargoHome,
    );
    add_repair(
        &mut codes,
        by_directory && directories.asks_for(LocalInstallDirectoryRepairCode::CreateTarget),
        LocalInstallPreflightRepairCode::CreateTarget,
    );
    assert(codes@ =~= wanted_repairs(config@, directories@));
    codes
}

/// Purely compose sealed self-build evidence. This function performs no observation or mutation.
pub fn compose_local_install_preflight(
    build: &LocalInstallBuildPlan,
    command: &LocalInstallBuildCommandPolicy,
    source: &LocalInstallSourcePreflightReceipt,
    config: &LocalInstallCargoConfigPreflightReceipt,
    toolchain: &LocalInstallToolchainPreflightReceipt,
    directories: &LocalInstallDirectoryPreflightReceipt,
) -> (receipt: LocalInstallPreflightReceipt)
    ensures
        receipt@ == composed_preflight(
            build@,
            command@,
            source@,
            config@,
            toolchain@,
            directories@,
        ),
{
    let mut blocking_codes = find_schema_blocks(command, source, config, toolchain, directories);
    let mut bindings = find_binding_blocks(build, command, source, toolchain);
    blocking_codes.append(&mut bindings);
    let mut evidence = find_evidence_blocks(source, config, toolchain, directories);
    blocking_codes.append(&mut evidence);
    let mut repair_codes = find_repairs(config, directories);
    let disposition = if blocking_codes.len() > 0 {
        repair_codes = Vec::new();
        LocalInstallPreflightDisposition::Blocked
    } else if repair_codes.len() > 0 {
        LocalInstallPreflightDisposition::Repairable
    } else {
        LocalInstallPreflightDisposition::Ready
    };
    assert(disposition != LocalInstallPreflightDisposition::Repairable ==> repair_codes@
        =~= Seq::empty());
    LocalInstallPreflightReceipt {
        schema_version: LOCAL_INSTALL_PREFLIGHT_SCHEMA_VERSION,
        source_digest: build.source.digest().clone(),
        target_generation: build.target_generation,
        expected_predecessor: copied_identity(&build.expected_predecessor),
        source_ready: source.ready(),
        config_ready: config.ready,
        toolchain_ready: toolchain.ready,
        directories_ready: directories.ready,
        disposition,
        blocking_codes,
        repair_codes,
    }
}

/// A blocked preflight asks for no repair, a repairable one asks for some, and
/// a ready one asks for none and names nothing that blocks.
pub proof fn law_repairs_only_without_blocks(
    build: BuildPlanView,
    command: PolicyView,
    source: SourceReceiptView,
    config: PreflightReceiptView,
    toolchain: ToolchainReceiptView,
    directories: DirectoryReceiptView,
)
    ensures
        ({
            let receipt = composed_preflight(
                build,
                command,
                source,
                config,
                toolchain,
                directories,
            );
            &&& receipt.disposition == LocalInstallPreflightDisposition::Blocked
                <==> receipt.blocking_codes.len() > 0
            &&& receipt.disposition == LocalInstallPreflightDisposition::Repairable
                <==> receipt.repair_codes.len() > 0
        }),
{
}

/// Whatever is not blocked rests on ready source and toolchain evidence of
/// known schemas, all bound to the planned build.
#[verifier::spinoff_prover]
#[verifier::rlimit(50)]
pub proof fn law_unblocked_evidence_is_bound(
    build: BuildPlanView,
    command: PolicyView,
    source: SourceReceiptView,
    config: PreflightReceiptView,
    toolchain: ToolchainReceiptView,
    directories: DirectoryReceiptView,
)
    requires
        composed_preflight(build, command, source, config, toolchain, directories).disposition
            != LocalInstallPreflightDisposition::Blocked,
    ensures
        source.ready,
        toolchain.ready,
        source.expected_source_digest == build.source.digest,
        command.source_digest == build.source.digest,
        command.target_generation == build.target_generation,
        command.expected_predecessor == build.expected_predecessor,
        toolchain.expected_toolchain == build.source.toolchain,
        config_evidence(config) != EvidenceDisposition::Blocked,
        directory_evidence(directories, config) != EvidenceDisposition::Blocked,
{
    let schemas = schema_blocks(command, source, config, toolchain, directories);
    let bindings = binding_blocks(build, command, source, toolchain);
    let evidence = evidence_blocks(source, config, toolchain, directories);
    assert(schemas.len() + bindings.len() + evidence.len() == 0);
}

/// A ready preflight has every part ready, directories and configuration
/// included.
#[verifier::spinoff_prover]
#[verifier::rlimit(50)]
pub proof fn law_ready_means_every_part_is_ready(
    build: BuildPlanView,
    command: PolicyView,
    source: SourceReceiptView,
    config: PreflightReceiptView,
    toolchain: ToolchainReceiptView,
    directories: DirectoryReceiptView,
)
    requires
        composed_preflight(build, command, source, config, toolchain, directories).disposition
            == LocalInstallPreflightDisposition::Ready,
        directories.repairable ==> directories.repair_codes.len() > 0,
    ensures
        source.ready,
        config.ready,
        toolchain.ready,
        directories.ready,
{
    law_unblocked_evidence_is_bound(build, command, source, config, toolchain, directories);
    let repairs = wanted_repairs(config, directories);
    assert(repairs.len() == 0);
    if !config.ready {
        let code = config.repair_codes[0];
        assert(config.repair_codes.contains(code));
        match code {
            LocalInstallCargoConfigRepairCode::CreateIsolatedBuildRoot => {
                assert(config_repairs(config, code));
            },
            LocalInstallCargoConfigRepairCode::CreateIsolatedCargoHome => {
                assert(config_repairs(config, code));
            },
        }
    }
    if !directories.ready {
        if directories.repairable {
            let code = directories.repair_codes[0];
            assert(directories.repair_codes.contains(code));
            assert(directory_repairs(directories, config, code));
        }
    }
}

proof fn lemma_block_step(
    before: Seq<LocalInstallPreflightBlockingCode>,
    applies: bool,
    code: LocalInstallPreflightBlockingCode,
    after: Seq<LocalInstallPreflightBlockingCode>,
)
    requires
        after == before + block_if(applies, code),
    ensures
        forall|other: LocalInstallPreflightBlockingCode|
            after.contains(other) <==> before.contains(other) || (applies && code == other),
{
    assert forall|other: LocalInstallPreflightBlockingCode|
        after.contains(other) <==> before.contains(other) || (applies && code == other) by {
        if before.contains(other) {
            let i = choose|i: int| 0 <= i < before.len() && before[i] == other;
            assert(after[i] == other);
        }
        if applies {
            assert(after[before.len() as int] == code);
        }
        if after.contains(other) {
            let i = choose|i: int| 0 <= i < after.len() && after[i] == other;
            if i < before.len() {
                assert(before[i] == other);
            }
        }
    }
}

proof fn lemma_repair_step(
    before: Seq<LocalInstallPreflightRepairCode>,
    applies: bool,
    code: LocalInstallPreflightRepairCode,
    after: Seq<LocalInstallPreflightRepairCode>,
)
    requires
        after == before + repair_if(applies, code),
    ensures
        forall|other: LocalInstallPreflightRepairCode|
            after.contains(other) <==> before.contains(other) || (applies && code == other),
{
    assert forall|other: LocalInstallPreflightRepairCode|
        after.contains(other) <==> before.contains(other) || (applies && code == other) by {
        if before.contains(other) {
            let i = choose|i: int| 0 <= i < before.len() && before[i] == other;
            assert(after[i] == other);
        }
        if applies {
            assert(after[before.len() as int] == code);
        }
        if after.contains(other) {
            let i = choose|i: int| 0 <= i < after.len() && after[i] == other;
            if i < before.len() {
                assert(before[i] == other);
            }
        }
    }
}

proof fn lemma_schema_blocks(
    command: PolicyView,
    source: SourceReceiptView,
    config: PreflightReceiptView,
    toolchain: ToolchainReceiptView,
    directories: DirectoryReceiptView,
    code: LocalInstallPreflightBlockingCode,
)
    ensures
        schema_blocks(command, source, config, toolchain, directories).contains(code) <==> {
            ||| code == LocalInstallPreflightBlockingCode::SourceSchemaUnsupported && source.schema_version != 1
            ||| code == LocalInstallPreflightBlockingCode::ConfigSchemaUnsupported && config.schema_version != 1
            ||| code == LocalInstallPreflightBlockingCode::ToolchainSchemaUnsupported && toolchain.schema_version != 1
            ||| code == LocalInstallPreflightBlockingCode::DirectorySchemaUnsupported && directories.schema_version != 1
            ||| code == LocalInstallPreflightBlockingCode::CommandSchemaUnsupported && command.schema_version != 1
        },
{
    let none = Seq::<LocalInstallPreflightBlockingCode>::empty();
    let s0 = block_if(
        source.schema_version != 1,
        LocalInstallPreflightBlockingCode::SourceSchemaUnsupported,
    );
    assert(none + s0 =~= s0);
    lemma_block_step(
        none,
        source.schema_version != 1,
        LocalInstallPreflightBlockingCode::SourceSchemaUnsupported,
        s0,
    );
    let s1 = s0 + block_if(
        config.schema_version != 1,
        LocalInstallPreflightBlockingCode::ConfigSchemaUnsupported,
    );
    lemma_block_step(
        s0,
        config.schema_version != 1,
        LocalInstallPreflightBlockingCode::ConfigSchemaUnsupported,
        s1,
    );
    let s2 = s1 + block_if(
        toolchain.schema_version != 1,
        LocalInstallPreflightBlockingCode::ToolchainSchemaUnsupported,
    );
    lemma_block_step(
        s1,
        toolchain.schema_version != 1,
        LocalInstallPreflightBlockingCode::ToolchainSchemaUnsupported,
        s2,
    );
    let s3 = s2 + block_if(
        directories.schema_version != 1,
        LocalInstallPreflightBlockingCode::DirectorySchemaUnsupported,
    );
    lemma_block_step(
        s2,
        directories.schema_version != 1,
        LocalInstallPreflightBlockingCode::DirectorySchemaUnsupported,
        s3,
    );
    let s4 = s3 + block_if(
        command.schema_version != 1,
        LocalInstallPreflightBlockingCode::CommandSchemaUnsupported,
    );
    lemma_block_step(
        s3,
        command.schema_version != 1,
        LocalInstallPreflightBlockingCode::CommandSchemaUnsupported,
        s4,
    );
    assert(schema_blocks(command, source, config, toolchain, directories) == s4);
}

proof fn lemma_binding_blocks(
    build: BuildPlanView,
    command: PolicyView,
    source: SourceReceiptView,
    toolchain: ToolchainReceiptView,
    code: LocalInstallPreflightBlockingCode,
)
    ensures
        binding_blocks(build, command, source, toolchain).contains(code) <==> {
            ||| code == LocalInstallPreflightBlockingCode::SourceDigestMismatch && source.expected_source_digest != build.source.digest
            ||| code == LocalInstallPreflightBlockingCode::CommandSourceDigestMismatch && command.source_digest != build.source.digest
            ||| code == LocalInstallPreflightBlockingCode::CommandGenerationMismatch && command.target_generation != build.target_generation
            ||| code == LocalInstallPreflightBlockingCode::CommandPredecessorMismatch && command.expected_predecessor != build.expected_predecessor
            ||| code == LocalInstallPreflightBlockingCode::ToolchainIdentityMismatch && toolchain.expected_toolchain != build.source.toolchain
            ||| code == LocalInstallPreflightBlockingCode::CargoConfigPolicyMismatch && command.cargo_config_policy != "isolated_cwd_and_cargo_home_config_free_v1"@
        },
{
    let none = Seq::<LocalInstallPreflightBlockingCode>::empty();
    let b0 = block_if(
        source.expected_source_digest != build.source.digest,
        LocalInstallPreflightBlockingCode::SourceDigestMismatch,
    );
    assert(none + b0 =~= b0);
    lemma_block_step(
        none,
        source.expected_source_digest != build.source.digest,
        LocalInstallPreflightBlockingCode::SourceDigestMismatch,
        b0,
    );
    let b1 = b0 + block_if(
        command.source_digest != build.source.digest,
        LocalInstallPreflightBlockingCode::CommandSourceDigestMismatch,
    );
    lemma_block_step(
        b0,
        command.source_digest != build.source.digest,
        LocalInstallPreflightBlockingCode::CommandSourceDigestMismatch,
        b1,
    );
    let b2 = b1 + block_if(
        command.target_generation != build.target_generation,
        LocalInstallPreflightBlockingCode::CommandGenerationMismatch,
    );
    lemma_block_step(
        b1,
        command.target_generation != build.target_generation,
        LocalInstallPreflightBlockingCode::CommandGenerationMismatch,
        b2,
    );
    let b3 = b2 + block_if(
        command.expected_predecessor != build.expected_predecessor,
        LocalInstallPreflightBlockingCode::CommandPredecessorMismatch,
    );
    lemma_block_step(
        b2,
        command.expected_predecessor != build.expected_predecessor,
        LocalInstallPreflightBlockingCode::CommandPredecessorMismatch,
        b3,
    );
    let b4 = b3 + block_if(
        toolchain.expected_toolchain != build.source.toolchain,
        LocalInstallPreflightBlockingCode::ToolchainIdentityMismatch,
    );
    lemma_block_step(
        b3,
        toolchain.expected_toolchain != build.source.toolchain,
        LocalInstallPreflightBlockingCode::ToolchainIdentityMismatch,
        b4,
    );
    let b5 = b4 + block_if(
        command.cargo_config_policy != "isolated_cwd_and_cargo_home_config_free_v1"@,
        LocalInstallPreflightBlockingCode::CargoConfigPolicyMismatch,
    );
    lemma_block_step(
        b4,
        command.cargo_config_policy != "isolated_cwd_and_cargo_home_config_free_v1"@,
        LocalInstallPreflightBlockingCode::CargoConfigPolicyMismatch,
        b5,
    );
    assert(binding_blocks(build, command, source, toolchain) == b5);
}

proof fn lemma_evidence_blocks(
    source: SourceReceiptView,
    config: PreflightReceiptView,
    toolchain: ToolchainReceiptView,
    directories: DirectoryReceiptView,
    code: LocalInstallPreflightBlockingCode,
)
    ensures
        evidence_blocks(source, config, toolchain, directories).contains(code) <==> {
            ||| code == LocalInstallPreflightBlockingCode::SourceBlocked && !source.ready
            ||| code == LocalInstallPreflightBlockingCode::ConfigBlocked && config_evidence(
                config,
            ) == EvidenceDisposition::Blocked
            ||| code == LocalInstallPreflightBlockingCode::ToolchainBlocked && !toolchain.ready
            ||| code == LocalInstallPreflightBlockingCode::DirectoryBlocked && directory_evidence(
                directories,
                config,
            ) == EvidenceDisposition::Blocked
            ||| code == LocalInstallPreflightBlockingCode::InconsistentRepairEvidence && !is_consistent_repair(
                config,
                directories,
            )
        },
{
    let none = Seq::<LocalInstallPreflightBlockingCode>::empty();
    let e0 = block_if(!source.ready, LocalInstallPreflightBlockingCode::SourceBlocked);
    assert(none + e0 =~= e0);
    lemma_block_step(none, !source.ready, LocalInstallPreflightBlockingCode::SourceBlocked, e0);
    let e1 = e0 + block_if(
        config_evidence(config) == EvidenceDisposition::Blocked,
        LocalInstallPreflightBlockingCode::ConfigBlocked,
    );
    lemma_block_step(
        e0,
        config_evidence(config) == EvidenceDisposition::Blocked,
        LocalInstallPreflightBlockingCode::ConfigBlocked,
        e1,
    );
    let e2 = e1 + block_if(!toolchain.ready, LocalInstallPreflightBlockingCode::ToolchainBlocked);
    lemma_block_step(e1, !toolchain.ready, LocalInstallPreflightBlockingCode::ToolchainBlocked, e2);
    let e3 = e2 + block_if(
        directory_evidence(directories, config) == EvidenceDisposition::Blocked,
        LocalInstallPreflightBlockingCode::DirectoryBlocked,
    );
    lemma_block_step(
        e2,
        directory_evidence(directories, config) == EvidenceDisposition::Blocked,
        LocalInstallPreflightBlockingCode::DirectoryBlocked,
        e3,
    );
    let e4 = e3 + block_if(
        !is_consistent_repair(config, directories),
        LocalInstallPreflightBlockingCode::InconsistentRepairEvidence,
    );
    lemma_block_step(
        e3,
        !is_consistent_repair(config, directories),
        LocalInstallPreflightBlockingCode::InconsistentRepairEvidence,
        e4,
    );
    assert(evidence_blocks(source, config, toolchain, directories) == e4);
}

/// What blocks a build under this code.
pub open spec fn blocks_build(
    build: BuildPlanView,
    command: PolicyView,
    source: SourceReceiptView,
    config: PreflightReceiptView,
    toolchain: ToolchainReceiptView,
    directories: DirectoryReceiptView,
    code: LocalInstallPreflightBlockingCode,
) -> bool {
    let config_repairable = !config.ready && config.repair_codes.len() > 0 && forall|i: int|
        0 <= i < config.blocking_codes.len() ==> (#[trigger] config.blocking_codes[i])
            == LocalInstallCargoConfigBlockingCode::BuildRootMissing || config.blocking_codes[i]
            == LocalInstallCargoConfigBlockingCode::CargoHomeMissing;
    let makes_root = config.repair_codes.contains(
        LocalInstallCargoConfigRepairCode::CreateIsolatedBuildRoot,
    );
    match code {
        LocalInstallPreflightBlockingCode::SourceSchemaUnsupported => source.schema_version != 1,
        LocalInstallPreflightBlockingCode::ConfigSchemaUnsupported => config.schema_version != 1,
        LocalInstallPreflightBlockingCode::ToolchainSchemaUnsupported => toolchain.schema_version
            != 1,
        LocalInstallPreflightBlockingCode::DirectorySchemaUnsupported => directories.schema_version
            != 1,
        LocalInstallPreflightBlockingCode::CommandSchemaUnsupported => command.schema_version != 1,
        LocalInstallPreflightBlockingCode::SourceDigestMismatch => source.expected_source_digest
            != build.source.digest,
        LocalInstallPreflightBlockingCode::CommandSourceDigestMismatch => command.source_digest
            != build.source.digest,
        LocalInstallPreflightBlockingCode::CommandGenerationMismatch => command.target_generation
            != build.target_generation,
        LocalInstallPreflightBlockingCode::CommandPredecessorMismatch => {
            command.expected_predecessor != build.expected_predecessor
        },
        LocalInstallPreflightBlockingCode::ToolchainIdentityMismatch => {
            toolchain.expected_toolchain != build.source.toolchain
        },
        LocalInstallPreflightBlockingCode::CargoConfigPolicyMismatch => command.cargo_config_policy
            != "isolated_cwd_and_cargo_home_config_free_v1"@,
        LocalInstallPreflightBlockingCode::SourceBlocked => !source.ready,
        LocalInstallPreflightBlockingCode::ConfigBlocked => !config.ready && !config_repairable,
        LocalInstallPreflightBlockingCode::ToolchainBlocked => !toolchain.ready,
        LocalInstallPreflightBlockingCode::DirectoryBlocked => !directories.ready
            && !directories.repairable && !(directories.blocking_codes == seq![
            LocalInstallDirectoryBlockingCode::BuildRootMissing,
        ] && config_repairable && makes_root),
        LocalInstallPreflightBlockingCode::InconsistentRepairEvidence => !makes_root
            && config.repair_codes.contains(
            LocalInstallCargoConfigRepairCode::CreateIsolatedCargoHome,
        ) != directories.repair_codes.contains(LocalInstallDirectoryRepairCode::CreateCargoHome),
    }
}

/// A build is blocked for every part that is not ready and cannot be repaired,
/// for every part of another source, generation, predecessor, toolchain or
/// policy than the plan's, and for every receipt of another schema; and for
/// nothing else.
#[verifier::spinoff_prover]
#[verifier::rlimit(50)]
pub proof fn law_builds_are_blocked_for_cause(
    build: BuildPlanView,
    command: PolicyView,
    source: SourceReceiptView,
    config: PreflightReceiptView,
    toolchain: ToolchainReceiptView,
    directories: DirectoryReceiptView,
    code: LocalInstallPreflightBlockingCode,
)
    ensures
        composed_preflight(
            build,
            command,
            source,
            config,
            toolchain,
            directories,
        ).blocking_codes.contains(code) <==> blocks_build(
            build,
            command,
            source,
            config,
            toolchain,
            directories,
            code,
        ),
{
    let first = schema_blocks(command, source, config, toolchain, directories);
    let second = binding_blocks(build, command, source, toolchain);
    let third = evidence_blocks(source, config, toolchain, directories);
    lemma_schema_blocks(command, source, config, toolchain, directories, code);
    lemma_binding_blocks(build, command, source, toolchain, code);
    lemma_evidence_blocks(source, config, toolchain, directories, code);
    lemma_in_three(first, second, third, code);
}

proof fn lemma_in_three(
    first: Seq<LocalInstallPreflightBlockingCode>,
    second: Seq<LocalInstallPreflightBlockingCode>,
    third: Seq<LocalInstallPreflightBlockingCode>,
    code: LocalInstallPreflightBlockingCode,
)
    ensures
        (first + second + third).contains(code) <==> first.contains(code) || second.contains(code)
            || third.contains(code),
{
    let all = first + second + third;
    if first.contains(code) {
        let i = choose|i: int| 0 <= i < first.len() && first[i] == code;
        assert(all[i] == code);
    }
    if second.contains(code) {
        let i = choose|i: int| 0 <= i < second.len() && second[i] == code;
        assert(all[first.len() + i] == code);
    }
    if third.contains(code) {
        let i = choose|i: int| 0 <= i < third.len() && third[i] == code;
        assert(all[first.len() + second.len() + i] == code);
    }
    if all.contains(code) {
        let i = choose|i: int| 0 <= i < all.len() && all[i] == code;
        if i < first.len() {
            assert(first[i] == code);
        } else if i < first.len() + second.len() {
            assert(second[i - first.len()] == code);
        } else {
            assert(third[i - first.len() - second.len()] == code);
        }
    }
}

/// A repair is asked for exactly when nothing blocks the build and the receipt
/// that it is for asks for it; everything else in the receipt is the plan's and
/// the parts' own.
#[verifier::spinoff_prover]
#[verifier::rlimit(50)]
pub proof fn law_repairs_are_those_of_the_parts(
    build: BuildPlanView,
    command: PolicyView,
    source: SourceReceiptView,
    config: PreflightReceiptView,
    toolchain: ToolchainReceiptView,
    directories: DirectoryReceiptView,
    code: LocalInstallPreflightRepairCode,
)
    ensures
        ({
            let receipt = composed_preflight(
                build,
                command,
                source,
                config,
                toolchain,
                directories,
            );
            let config_asks = !config.ready;
            let directories_ask = !directories.ready && directories.repairable;
            &&& receipt.repair_codes.contains(code) <==> receipt.blocking_codes.len() == 0
                && match code {
                LocalInstallPreflightRepairCode::CreateBuildRoot => config_asks
                    && config.repair_codes.contains(
                    LocalInstallCargoConfigRepairCode::CreateIsolatedBuildRoot,
                ),
                LocalInstallPreflightRepairCode::CreateWork => directories_ask
                    && directories.repair_codes.contains(
                    LocalInstallDirectoryRepairCode::CreateWork,
                ),
                LocalInstallPreflightRepairCode::CreateHome => directories_ask
                    && directories.repair_codes.contains(
                    LocalInstallDirectoryRepairCode::CreateHome,
                ),
                LocalInstallPreflightRepairCode::CreateCargoHome => (config_asks
                    && config.repair_codes.contains(
                    LocalInstallCargoConfigRepairCode::CreateIsolatedCargoHome,
                )) || (directories_ask && directories.repair_codes.contains(
                    LocalInstallDirectoryRepairCode::CreateCargoHome,
                )),
                LocalInstallPreflightRepairCode::CreateTarget => directories_ask
                    && directories.repair_codes.contains(
                    LocalInstallDirectoryRepairCode::CreateTarget,
                ),
            }
            &&& receipt.schema_version == 1
            &&& receipt.source_digest == build.source.digest
            &&& receipt.target_generation == build.target_generation
            &&& receipt.expected_predecessor == build.expected_predecessor
            &&& receipt.source_ready == source.ready
            &&& receipt.config_ready == config.ready
            &&& receipt.toolchain_ready == toolchain.ready
            &&& receipt.directories_ready == directories.ready
        }),
{
    let receipt = composed_preflight(build, command, source, config, toolchain, directories);
    lemma_wanted_repairs(config, directories, code);
    law_builds_are_blocked_for_cause(
        build,
        command,
        source,
        config,
        toolchain,
        directories,
        LocalInstallPreflightBlockingCode::ConfigBlocked,
    );
    let wanted = wanted_repairs(config, directories);
    if wanted.contains(code) {
        assert(wanted.len() > 0);
    }
    if receipt.blocking_codes.contains(LocalInstallPreflightBlockingCode::ConfigBlocked) {
        assert(receipt.blocking_codes.len() > 0);
    }
}

proof fn lemma_wanted_repairs(
    config: PreflightReceiptView,
    directories: DirectoryReceiptView,
    code: LocalInstallPreflightRepairCode,
)
    ensures
        wanted_repairs(config, directories).contains(code) <==> {
            ||| code == LocalInstallPreflightRepairCode::CreateBuildRoot && config_repairs(
                config,
                LocalInstallCargoConfigRepairCode::CreateIsolatedBuildRoot,
            )
            ||| code == LocalInstallPreflightRepairCode::CreateWork && directory_repairs(
                directories,
                config,
                LocalInstallDirectoryRepairCode::CreateWork,
            )
            ||| code == LocalInstallPreflightRepairCode::CreateHome && directory_repairs(
                directories,
                config,
                LocalInstallDirectoryRepairCode::CreateHome,
            )
            ||| code == LocalInstallPreflightRepairCode::CreateCargoHome && (
                config_repairs(config, LocalInstallCargoConfigRepairCode::CreateIsolatedCargoHome) || directory_repairs(
                    directories,
                    config,
                    LocalInstallDirectoryRepairCode::CreateCargoHome,
                )
            )
            ||| code == LocalInstallPreflightRepairCode::CreateTarget && directory_repairs(
                directories,
                config,
                LocalInstallDirectoryRepairCode::CreateTarget,
            )
        },
{
    let none = Seq::<LocalInstallPreflightRepairCode>::empty();
    let r0 = repair_if(
        config_repairs(config, LocalInstallCargoConfigRepairCode::CreateIsolatedBuildRoot),
        LocalInstallPreflightRepairCode::CreateBuildRoot,
    );
    assert(none + r0 =~= r0);
    lemma_repair_step(
        none,
        config_repairs(config, LocalInstallCargoConfigRepairCode::CreateIsolatedBuildRoot),
        LocalInstallPreflightRepairCode::CreateBuildRoot,
        r0,
    );
    let r1 = r0 + repair_if(
        directory_repairs(directories, config, LocalInstallDirectoryRepairCode::CreateWork),
        LocalInstallPreflightRepairCode::CreateWork,
    );
    lemma_repair_step(
        r0,
        directory_repairs(directories, config, LocalInstallDirectoryRepairCode::CreateWork),
        LocalInstallPreflightRepairCode::CreateWork,
        r1,
    );
    let r2 = r1 + repair_if(
        directory_repairs(directories, config, LocalInstallDirectoryRepairCode::CreateHome),
        LocalInstallPreflightRepairCode::CreateHome,
    );
    lemma_repair_step(
        r1,
        directory_repairs(directories, config, LocalInstallDirectoryRepairCode::CreateHome),
        LocalInstallPreflightRepairCode::CreateHome,
        r2,
    );
    let r3 = r2 + repair_if(
        (
            config_repairs(config, LocalInstallCargoConfigRepairCode::CreateIsolatedCargoHome) || directory_repairs(
                directories,
                config,
                LocalInstallDirectoryRepairCode::CreateCargoHome,
            )
        ),
        LocalInstallPreflightRepairCode::CreateCargoHome,
    );
    lemma_repair_step(
        r2,
        (
            config_repairs(config, LocalInstallCargoConfigRepairCode::CreateIsolatedCargoHome) || directory_repairs(
                directories,
                config,
                LocalInstallDirectoryRepairCode::CreateCargoHome,
            )
        ),
        LocalInstallPreflightRepairCode::CreateCargoHome,
        r3,
    );
    let r4 = r3 + repair_if(
        directory_repairs(directories, config, LocalInstallDirectoryRepairCode::CreateTarget),
        LocalInstallPreflightRepairCode::CreateTarget,
    );
    lemma_repair_step(
        r3,
        directory_repairs(directories, config, LocalInstallDirectoryRepairCode::CreateTarget),
        LocalInstallPreflightRepairCode::CreateTarget,
        r4,
    );
    assert(wanted_repairs(config, directories) == r4);
}

} // verus!
