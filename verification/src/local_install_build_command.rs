//! What the reviewed self-build command and its preflights tell the rest of the
//! library.
use vstd::prelude::*;

use crate::artifact::Sha256Digest;
use crate::local_install_plan::{IdentityView, LocalInstallGenerationIdentity,
    LocalInstallToolchainIdentity};
use crate::outcome;
use crate::process::{CommandSpec, CommandView};

verus! {

pub const LOCAL_INSTALL_BUILD_COMMAND_SCHEMA_VERSION: u8 = 1;

pub const LOCAL_INSTALL_DIRECTORY_PREFLIGHT_SCHEMA_VERSION: u8 = 1;

pub const LOCAL_INSTALL_TOOLCHAIN_PREFLIGHT_SCHEMA_VERSION: u8 = 1;

/// The policy that a build command was planned under.
#[derive(Debug, PartialEq, Eq)]
pub struct LocalInstallBuildCommandPolicy {
    pub schema_version: u8,
    pub identity: Sha256Digest,
    pub source_digest: Sha256Digest,
    pub target_generation: u64,
    pub expected_predecessor: Option<LocalInstallGenerationIdentity>,
    pub cargo_config_policy: String,
}

pub struct PolicyView {
    pub schema_version: u8,
    pub identity: Seq<char>,
    pub source_digest: Seq<char>,
    pub target_generation: u64,
    pub expected_predecessor: Option<IdentityView>,
    pub cargo_config_policy: Seq<char>,
}

impl View for LocalInstallBuildCommandPolicy {
    type V = PolicyView;

    open spec fn view(&self) -> PolicyView {
        PolicyView {
            schema_version: self.schema_version,
            identity: self.identity@,
            source_digest: self.source_digest@,
            target_generation: self.target_generation,
            expected_predecessor: outcome::option_view(self.expected_predecessor),
            cargo_config_policy: self.cargo_config_policy@,
        }
    }
}

/// The sole reviewed build command, and where it leaves its artifact.
#[derive(Debug, PartialEq, Eq)]
pub struct LocalInstallBuildCommand {
    pub policy: LocalInstallBuildCommandPolicy,
    pub spec: CommandSpec,
    pub working_directory: String,
    pub artifact_path: String,
}

pub struct BuildCommandView {
    pub policy: PolicyView,
    pub spec: CommandView,
    pub working_directory: Seq<char>,
    pub artifact_path: Seq<char>,
}

impl View for LocalInstallBuildCommand {
    type V = BuildCommandView;

    open spec fn view(&self) -> BuildCommandView {
        BuildCommandView {
            policy: self.policy@,
            spec: self.spec@,
            working_directory: self.working_directory@,
            artifact_path: self.artifact_path@,
        }
    }
}

/// Whether the expected toolchain is installed.
#[derive(Debug, PartialEq, Eq)]
pub struct LocalInstallToolchainPreflightReceipt {
    pub schema_version: u8,
    pub expected_toolchain: LocalInstallToolchainIdentity,
    pub ready: bool,
}

pub struct ToolchainReceiptView {
    pub schema_version: u8,
    pub expected_toolchain: Seq<char>,
    pub ready: bool,
}

impl View for LocalInstallToolchainPreflightReceipt {
    type V = ToolchainReceiptView;

    open spec fn view(&self) -> ToolchainReceiptView {
        ToolchainReceiptView {
            schema_version: self.schema_version,
            expected_toolchain: self.expected_toolchain@,
            ready: self.ready,
        }
    }
}

#[derive(Debug, Clone, Copy, PartialEq, Eq, Structural)]
pub enum LocalInstallDirectoryBlockingCode {
    BuildRootMissing,
    DirectoryMissing,
    DirectoryUnsafe,
    DirectoryUnknown,
    ObservationChanged,
}

#[derive(Debug, Clone, Copy, PartialEq, Eq, Structural)]
pub enum LocalInstallDirectoryRepairCode {
    CreateWork,
    CreateHome,
    CreateCargoHome,
    CreateTarget,
}

/// Whether the isolated build directories are there.
#[derive(Debug, PartialEq, Eq)]
pub struct LocalInstallDirectoryPreflightReceipt {
    pub schema_version: u8,
    pub ready: bool,
    pub repairable: bool,
    pub blocking_codes: Vec<LocalInstallDirectoryBlockingCode>,
    pub repair_codes: Vec<LocalInstallDirectoryRepairCode>,
}

pub struct DirectoryReceiptView {
    pub schema_version: u8,
    pub ready: bool,
    pub repairable: bool,
    pub blocking_codes: Seq<LocalInstallDirectoryBlockingCode>,
    pub repair_codes: Seq<LocalInstallDirectoryRepairCode>,
}

impl View for LocalInstallDirectoryPreflightReceipt {
    type V = DirectoryReceiptView;

    open spec fn view(&self) -> DirectoryReceiptView {
        DirectoryReceiptView {
            schema_version: self.schema_version,
            ready: self.ready,
            repairable: self.repairable,
            blocking_codes: self.blocking_codes@,
            repair_codes: self.repair_codes@,
        }
    }
}

impl LocalInstallDirectoryPreflightReceipt {
    /// Whether the receipt asks for this repair.
    pub fn asks_for(&self, code: LocalInstallDirectoryRepairCode) -> (r: bool)
        ensures
            r == self@.repair_codes.contains(code),
    {
        let mut i: usize = 0;
        while i < self.repair_codes.len()
            invariant
                i <= self.repair_codes@.len(),
                forall|k: int| 0 <= k < i ==> self.repair_codes@[k] != code,
            decreases self.repair_codes@.len() - i,
        {
            if self.repair_codes[i] == code {
                assert(self@.repair_codes[i as int] == code);
                return true;
            }
            i += 1;
        }
        false
    }
}

} // verus!
