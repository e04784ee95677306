//! Proof that the Cargo lookup path of the isolated self-build holds no
//! configuration.
use vstd::prelude::*;

use crate::file_evidence::{FileStat, OpenRefusal, OpenedEntry};
use crate::outcome;
use crate::paths;
use crate::scan;
use crate::text;

verus! {

pub const LOCAL_INSTALL_CARGO_CONFIG_PREFLIGHT_SCHEMA_VERSION: u8 = 1;

pub const MAX_BUILD_ROOT_BYTES: usize = 4_096;

pub const PRIVATE_DIRECTORY_MODE: u32 = 0o700;

#[derive(Debug, Clone, Copy, PartialEq, Eq, Structural)]
pub enum LocalInstallCargoConfigPreflightError {
    InvalidBuildRoot,
    InvalidRunnerIdentity,
}

pub open spec fn preflight_error_text(e: LocalInstallCargoConfigPreflightError) -> Seq<char> {
    match e {
        LocalInstallCargoConfigPreflightError::InvalidBuildRoot =>
            "isolated Cargo preflight build root is invalid"@,
        LocalInstallCargoConfigPreflightError::InvalidRunnerIdentity =>
            "isolated Cargo preflight runner identity is invalid"@,
    }
}

impl LocalInstallCargoConfigPreflightError {
    /// The error for a human reader.
    pub fn display(&self) -> (line: &'static str)
        ensures
            line@ == preflight_error_text(*self),
    {
        match self {
            LocalInstallCargoConfigPreflightError::InvalidBuildRoot =>
                "isolated Cargo preflight build root is invalid",
            LocalInstallCargoConfigPreflightError::InvalidRunnerIdentity =>
                "isolated Cargo preflight runner identity is invalid",
        }
    }
}

/// A bounded canonical absolute path without control characters.
pub open spec fn is_build_root(path: Seq<char>) -> bool {
    &&& vstd::utf8::encode_utf8(path).len() <= MAX_BUILD_ROOT_BYTES
    &&& !paths::has_control(path)
    &&& paths::is_canonical_absolute(path)
}

/// One private isolated build root and the non-root owner expected of it.
#[derive(PartialEq, Eq)]
pub struct LocalInstallCargoConfigPreflightContext {
    build_root: String,
    runner_uid: u32,
    runner_gid: u32,
}

pub struct PreflightContextView {
    pub build_root: Seq<char>,
    pub runner_uid: u32,
    pub runner_gid: u32,
}

impl View for LocalInstallCargoConfigPreflightContext {
    type V = PreflightContextView;

    closed spec fn view(&self) -> PreflightContextView {
        PreflightContextView {
            build_root: self.build_root@,
            runner_uid: self.runner_uid,
            runner_gid: self.runner_gid,
        }
    }
}

impl PreflightContextView {
    pub open spec fn working_directory(self) -> Seq<char> {
        paths::child(self.build_root, "work"@)
    }

    pub open spec fn isolated_home(self) -> Seq<char> {
        paths::child(self.build_root, "home"@)
    }

    pub open spec fn cargo_home(self) -> Seq<char> {
        paths::child(self.build_root, "cargo-home"@)
    }

    pub open spec fn target_directory(self) -> Seq<char> {
        paths::child(self.build_root, "target"@)
    }
}

impl LocalInstallCargoConfigPreflightContext {
    /// Bind one private isolated self-build root and the expected non-root owner.
    ///
    /// # Errors
    ///
    /// Returns an error unless the build root is one canonical absolute non-root path and
    /// the expected owner is a non-root user/group identity.
    pub fn new(build_root: &str, runner_uid: u32, runner_gid: u32) -> (r: Result<
        Self,
        LocalInstallCargoConfigPreflightError,
    >)
        ensures
            match r {
                Ok(context) => is_build_root(build_root@) && runner_uid != 0 && runner_gid != 0
                    && context@ == (PreflightContextView {
                    build_root: build_root@,
                    runner_uid,
                    runner_gid,
                }),
                Err(LocalInstallCargoConfigPreflightError::InvalidBuildRoot) => !is_build_root(
                    build_root@,
                ),
                Err(LocalInstallCargoConfigPreflightError::InvalidRunnerIdentity) =>
                    is_build_root(build_root@) && (runner_uid == 0 || runner_gid == 0),
            },
    {
        let chars = text::chars_of(build_root);
        if text::byte_length(build_root) > MAX_BUILD_ROOT_BYTES || paths::holds_control(
            chars.as_slice(),
        ) || !paths::canonical_absolute(chars.as_slice()) {
            return Err(LocalInstallCargoConfigPreflightError::InvalidBuildRoot);
        }
        if runner_uid == 0 || runner_gid == 0 {
            return Err(LocalInstallCargoConfigPreflightError::InvalidRunnerIdentity);
        }
        Ok(
            LocalInstallCargoConfigPreflightContext {
                build_root: build_root.to_owned(),
                runner_uid,
                runner_gid,
            },
        )
    }

    /// What may be shown in place of the private values.
    pub fn redacted(&self) -> (label: &'static str)
        ensures
            label@
                == "build_root: <private-isolated-build-root>, runner_identity: <private-current-user-identity>"@,
    {
        "build_root: <private-isolated-build-root>, runner_identity: <private-current-user-identity>"
    }
}

#[derive(Debug, Clone, Copy, PartialEq, Eq, Structural)]
pub enum LocalInstallBuildRootDisposition {
    Missing,
    Ready,
    Unsafe,
    Unknown,
}

#[derive(Debug, Clone, Copy, PartialEq, Eq, Structural)]
pub enum LocalInstallCargoConfigDisposition {
    Absent,
    Present,
    Unsafe,
    Unknown,
}

#[derive(Debug, Clone, Copy, PartialEq, Eq, Structural)]
pub enum LocalInstallCargoHomeConfigDisposition {
    Missing,
    Absent,
    Present,
    Unsafe,
    Unknown,
}

#[derive(Debug, Clone, Copy, PartialEq, Eq, Structural)]
pub enum LocalInstallCargoConfigBlockingCode {
    BuildRootMissing,
    UnsafeBuildRoot,
    BuildRootUnknown,
    LineageConfigPresent,
    LineageUnsafe,
    LineageUnknown,
    CargoHomeMissing,
    CargoHomeConfigPresent,
    CargoHomeUnsafe,
    CargoHomeUnknown,
    ObservationChanged,
}

#[derive(Debug, Clone, Copy, PartialEq, Eq, Structural)]
pub enum LocalInstallCargoConfigRepairCode {
    CreateIsolatedBuildRoot,
    CreateIsolatedCargoHome,
}

#[derive(Debug, PartialEq, Eq)]
pub struct LocalInstallCargoConfigPreflightReceipt {
    pub schema_version: u8,
    pub build_root: LocalInstallBuildRootDisposition,
    pub lineage_config: LocalInstallCargoConfigDisposition,
    pub cargo_home_config: LocalInstallCargoHomeConfigDisposition,
    pub ready: bool,
    pub blocking_codes: Vec<LocalInstallCargoConfigBlockingCode>,
    pub repair_codes: Vec<LocalInstallCargoConfigRepairCode>,
}

pub struct PreflightReceiptView {
    pub schema_version: u8,
    pub build_root: LocalInstallBuildRootDisposition,
    pub lineage_config: LocalInstallCargoConfigDisposition,
    pub cargo_home_config: LocalInstallCargoHomeConfigDisposition,
    pub ready: bool,
    pub blocking_codes: Seq<LocalInstallCargoConfigBlockingCode>,
    pub repair_codes: Seq<LocalInstallCargoConfigRepairCode>,
}

impl View for LocalInstallCargoConfigPreflightReceipt {
    type V = PreflightReceiptView;

    open spec fn view(&self) -> PreflightReceiptView {
        PreflightReceiptView {
            schema_version: self.schema_version,
            build_root: self.build_root,
            lineage_config: self.lineage_config,
            cargo_home_config: self.cargo_home_config,
            ready: self.ready,
            blocking_codes: self.blocking_codes@,
            repair_codes: self.repair_codes@,
        }
    }
}

#[derive(Debug, Clone, Copy, PartialEq, Eq, Structural)]
pub enum DirectoryExpectation {
    ExactPrivateRunner,
    TrustedAncestor,
}

#[derive(Debug, Clone, Copy, PartialEq, Eq, Structural)]
pub struct ObjectIdentity {
    pub device: u64,
    pub inode: u64,
    pub uid: u32,
    pub gid: u32,
    pub mode: u32,
    pub links: u64,
}

#[derive(Debug, Clone, Copy, PartialEq, Eq, Structural)]
pub enum DirectoryObservation {
    Missing,
    Ready(ObjectIdentity),
    Unsafe,
    Unknown,
}

#[derive(Debug, Clone, Copy, PartialEq, Eq, Structural)]
pub enum ConfigObservation {
    Missing,
    Present(ObjectIdentity),
    Unsafe,
    Unknown,
}

impl DirectoryObservation {
    fn is_ready(self) -> (r: bool)
        ensures
            r == (self is Ready),
    {
        match self {
            DirectoryObservation::Ready(_) => true,
            _ => false,
        }
    }

    fn is_unsafe_or_unknown(self) -> (r: bool)
        ensures
            r == (self is Unsafe || self is Unknown),
    {
        match self {
            DirectoryObservation::Unsafe | DirectoryObservation::Unknown => true,
            _ => false,
        }
    }
}

impl ConfigObservation {
    fn is_present(self) -> (r: bool)
        ensures
            r == (self is Present),
    {
        match self {
            ConfigObservation::Present(_) => true,
            _ => false,
        }
    }
}

/// What one directory of the lookup path holds.
#[derive(Debug, Clone, Copy, PartialEq, Eq, Structural)]
pub struct LineageObservation {
    pub ancestor: DirectoryObservation,
    pub cargo_directory: DirectoryObservation,
    pub modern: ConfigObservation,
    pub legacy: ConfigObservation,
}

impl LineageObservation {
    pub open spec fn shows_unsafe(self) -> bool {
        self.ancestor is Unsafe || self.cargo_directory is Unsafe || self.modern is Unsafe
            || self.legacy is Unsafe
    }

    pub open spec fn shows_unknown(self) -> bool {
        self.ancestor is Unknown || self.cargo_directory is Unknown || self.modern is Unknown
            || self.legacy is Unknown
    }

    pub open spec fn shows_config(self) -> bool {
        self.modern is Present || self.legacy is Present
    }

    fn unsafe_evidence(&self) -> (r: bool)
        ensures
            r == self.shows_unsafe(),
    {
        self.ancestor == DirectoryObservation::Unsafe || self.cargo_directory
            == DirectoryObservation::Unsafe || self.modern == ConfigObservation::Unsafe
            || self.legacy == ConfigObservation::Unsafe
    }

    fn unknown_evidence(&self) -> (r: bool)
        ensures
            r == self.shows_unknown(),
    {
        self.ancestor == DirectoryObservation::Unknown || self.cargo_directory
            == DirectoryObservation::Unknown || self.modern == ConfigObservation::Unknown
            || self.legacy == ConfigObservation::Unknown
    }

    fn present_evidence(&self) -> (r: bool)
        ensures
            r == self.shows_config(),
    {
        self.modern.is_present() || self.legacy.is_present()
    }
}

#[derive(Debug, Clone, Copy, PartialEq, Eq, Structural)]
pub struct CargoHomeObservation {
    pub directory: DirectoryObservation,
    pub modern: ConfigObservation,
    pub legacy: ConfigObservation,
}

/// One reading of the whole lookup path.
#[derive(Debug, PartialEq, Eq)]
pub struct PrivateSnapshot {
    pub build_root: DirectoryObservation,
    pub work: DirectoryObservation,
    pub home: DirectoryObservation,
    pub target: DirectoryObservation,
    pub lineage: Vec<LineageObservation>,
    pub cargo_home: CargoHomeObservation,
}

pub struct SnapshotView {
    pub build_root: DirectoryObservation,
    pub work: DirectoryObservation,
    pub home: DirectoryObservation,
    pub target: DirectoryObservation,
    pub lineage: Seq<LineageObservation>,
    pub cargo_home: CargoHomeObservation,
}

impl View for PrivateSnapshot {
    type V = SnapshotView;

    open spec fn view(&self) -> SnapshotView {
        SnapshotView {
            build_root: self.build_root,
            work: self.work,
            home: self.home,
            target: self.target,
            lineage: self.lineage@,
            cargo_home: self.cargo_home,
        }
    }
}

pub open spec fn build_root_state(snapshot: SnapshotView) -> LocalInstallBuildRootDisposition {
    match snapshot.build_root {
        DirectoryObservation::Missing => LocalInstallBuildRootDisposition::Missing,
        DirectoryObservation::Unsafe => LocalInstallBuildRootDisposition::Unsafe,
        DirectoryObservation::Unknown => LocalInstallBuildRootDisposition::Unknown,
        DirectoryObservation::Ready(_) => if snapshot.work is Unsafe || snapshot.home is Unsafe
            || snapshot.target is Unsafe {
            LocalInstallBuildRootDisposition::Unsafe
        } else if snapshot.work is Unknown || snapshot.home is Unknown || snapshot.target is Unknown {
            LocalInstallBuildRootDisposition::Unknown
        } else {
            LocalInstallBuildRootDisposition::Ready
        },
    }
}

/// Unsafe evidence anywhere decides before unknown, and unknown before
/// configuration that is present.
pub open spec fn lineage_state(
    lineage: Seq<LineageObservation>,
) -> LocalInstallCargoConfigDisposition {
    if lineage.len() == 0 {
        LocalInstallCargoConfigDisposition::Unknown
    } else if exists|i: int| 0 <= i < lineage.len() && (#[trigger] lineage[i]).shows_unsafe() {
        LocalInstallCargoConfigDisposition::Unsafe
    } else if exists|i: int| 0 <= i < lineage.len() && (#[trigger] lineage[i]).shows_unknown() {
        LocalInstallCargoConfigDisposition::Unknown
    } else if exists|i: int| 0 <= i < lineage.len() && (#[trigger] lineage[i]).shows_config() {
        LocalInstallCargoConfigDisposition::Present
    } else {
        LocalInstallCargoConfigDisposition::Absent
    }
}

pub open spec fn cargo_home_state(
    observation: CargoHomeObservation,
) -> LocalInstallCargoHomeConfigDisposition {
    match observation.directory {
        DirectoryObservation::Missing => LocalInstallCargoHomeConfigDisposition::Missing,
        DirectoryObservation::Unsafe => LocalInstallCargoHomeConfigDisposition::Unsafe,
        DirectoryObservation::Unknown => LocalInstallCargoHomeConfigDisposition::Unknown,
        DirectoryObservation::Ready(_) => if observation.modern is Unsafe || observation.legacy
            is Unsafe {
            LocalInstallCargoHomeConfigDisposition::Unsafe
        } else if observation.modern is Unknown || observation.legacy is Unknown {
            LocalInstallCargoHomeConfigDisposition::Unknown
        } else if observation.modern is Present || observation.legacy is Present {
            LocalInstallCargoHomeConfigDisposition::Present
        } else {
            LocalInstallCargoHomeConfigDisposition::Absent
        },
    }
}

pub open spec fn build_root_block(
    state: LocalInstallBuildRootDisposition,
) -> Seq<LocalInstallCargoConfigBlockingCode> {
    match state {
        LocalInstallBuildRootDisposition::Missing => seq![
            LocalInstallCargoConfigBlockingCode::BuildRootMissing,
        ],
        LocalInstallBuildRootDisposition::Unsafe => seq![
            LocalInstallCargoConfigBlockingCode::UnsafeBuildRoot,
        ],
        LocalInstallBuildRootDisposition::Unknown => seq![
            LocalInstallCargoConfigBlockingCode::BuildRootUnknown,
        ],
        LocalInstallBuildRootDisposition::Ready => Seq::empty(),
    }
}

pub open spec fn lineage_block(
    state: LocalInstallCargoConfigDisposition,
) -> Seq<LocalInstallCargoConfigBlockingCode> {
    match state {
        LocalInstallCargoConfigDisposition::Present => seq![
            LocalInstallCargoConfigBlockingCode::LineageConfigPresent,
        ],
        LocalInstallCargoConfigDisposition::Unsafe => seq![
            LocalInstallCargoConfigBlockingCode::LineageUnsafe,
        ],
        LocalInstallCargoConfigDisposition::Unknown => seq![
            LocalInstallCargoConfigBlockingCode::LineageUnknown,
        ],
        LocalInstallCargoConfigDisposition::Absent => Seq::empty(),
    }
}

pub open spec fn cargo_home_block(
    state: LocalInstallCargoHomeConfigDisposition,
) -> Seq<LocalInstallCargoConfigBlockingCode> {
    match state {
        LocalInstallCargoHomeConfigDisposition::Missing => seq![
            LocalInstallCargoConfigBlockingCode::CargoHomeMissing,
        ],
        LocalInstallCargoHomeConfigDisposition::Present => seq![
            LocalInstallCargoConfigBlockingCode::CargoHomeConfigPresent,
        ],
        LocalInstallCargoHomeConfigDisposition::Unsafe => seq![
            LocalInstallCargoConfigBlockingCode::CargoHomeUnsafe,
        ],
        LocalInstallCargoHomeConfigDisposition::Unknown => seq![
            LocalInstallCargoConfigBlockingCode::CargoHomeUnknown,
        ],
        LocalInstallCargoHomeConfigDisposition::Absent => Seq::empty(),
    }
}

/// The one repair that can be made next: the build root comes before the Cargo
/// home inside it.
pub open spec fn repairs(
    build_root: LocalInstallBuildRootDisposition,
    cargo_home: LocalInstallCargoHomeConfigDisposition,
) -> Seq<LocalInstallCargoConfigRepairCode> {
    if build_root == LocalInstallBuildRootDisposition::Missing {
        seq![LocalInstallCargoConfigRepairCode::CreateIsolatedBuildRoot]
    } else if cargo_home == LocalInstallCargoHomeConfigDisposition::Missing {
        seq![LocalInstallCargoConfigRepairCode::CreateIsolatedCargoHome]
    } else {
        Seq::empty()
    }
}

/// What [`PrivateSnapshot::public_receipt`] answers.
pub open spec fn receipt_of(snapshot: SnapshotView) -> PreflightReceiptView {
    let build_root = build_root_state(snapshot);
    let lineage_config = lineage_state(snapshot.lineage);
    let cargo_home_config = cargo_home_state(snapshot.cargo_home);
    PreflightReceiptView {
        schema_version: LOCAL_INSTALL_CARGO_CONFIG_PREFLIGHT_SCHEMA_VERSION,
        build_root,
        lineage_config,
        cargo_home_config,
        ready: build_root == LocalInstallBuildRootDisposition::Ready && lineage_config
            == LocalInstallCargoConfigDisposition::Absent && cargo_home_config
            == LocalInstallCargoHomeConfigDisposition::Absent,
        blocking_codes: build_root_block(build_root) + lineage_block(lineage_config)
            + cargo_home_block(cargo_home_config),
        repair_codes: repairs(build_root, cargo_home_config),
    }
}

/// The refusal of two readings that differ.
pub open spec fn changed_receipt_view() -> PreflightReceiptView {
    PreflightReceiptView {
        schema_version: LOCAL_INSTALL_CARGO_CONFIG_PREFLIGHT_SCHEMA_VERSION,
        build_root: LocalInstallBuildRootDisposition::Unknown,
        lineage_config: LocalInstallCargoConfigDisposition::Unknown,
        cargo_home_config: LocalInstallCargoHomeConfigDisposition::Unknown,
        ready: false,
        blocking_codes: seq![LocalInstallCargoConfigBlockingCode::ObservationChanged],
        repair_codes: Seq::empty(),
    }
}

/// What two readings amount to: only equal ones are believed.
pub open spec fn receipt_of_readings(
    first: SnapshotView,
    second: SnapshotView,
) -> PreflightReceiptView {
    if first == second {
        receipt_of(first)
    } else {
        changed_receipt_view()
    }
}

fn build_root_disposition(snapshot: &PrivateSnapshot) -> (r: LocalInstallBuildRootDisposition)
    ensures
        r == build_root_state(snapshot@),
{
    match snapshot.build_root {
        DirectoryObservation::Missing => LocalInstallBuildRootDisposition::Missing,
        DirectoryObservation::Unsafe => LocalInstallBuildRootDisposition::Unsafe,
        DirectoryObservation::Unknown => LocalInstallBuildRootDisposition::Unknown,
        DirectoryObservation::Ready(_) => if snapshot.work == DirectoryObservation::Unsafe
            || snapshot.home == DirectoryObservation::Unsafe || snapshot.target
            == DirectoryObservation::Unsafe {
            LocalInstallBuildRootDisposition::Unsafe
        } else if snapshot.work == DirectoryObservation::Unknown || snapshot.home
            == DirectoryObservation::Unknown || snapshot.target == DirectoryObservation::Unknown {
            LocalInstallBuildRootDisposition::Unknown
        } else {
            LocalInstallBuildRootDisposition::Ready
        },
    }
}

fn lineage_disposition(lineage: &Vec<LineageObservation>) -> (r:
    LocalInstallCargoConfigDisposition)
    ensures
        r == lineage_state(lineage@),
{
    let mut not_safe = false;
    let mut unknown = false;
    let mut present = false;
    let mut i: usize = 0;
    while i < lineage.len()
        invariant
            i <= lineage@.len(),
            not_safe <==> exists|k: int| 0 <= k < i && (#[trigger] lineage@[k]).shows_unsafe(),
            unknown <==> exists|k: int| 0 <= k < i && (#[trigger] lineage@[k]).shows_unknown(),
            present <==> exists|k: int| 0 <= k < i && (#[trigger] lineage@[k]).shows_config(),
        decreases lineage@.len() - i,
    {
        let observation = lineage[i];
        assert(observation == lineage@[i as int]);
        if observation.unsafe_evidence() {
            not_safe = true;
        }
        if observation.unknown_evidence() {
            unknown = true;
        }
        if observation.present_evidence() {
            present = true;
        }
        i += 1;
    }
    if lineage.len() == 0 {
        LocalInstallCargoConfigDisposition::Unknown
    } else if not_safe {
        LocalInstallCargoConfigDisposition::Unsafe
    } else if unknown {
        LocalInstallCargoConfigDisposition::Unknown
    } else if present {
        LocalInstallCargoConfigDisposition::Present
    } else {
        LocalInstallCargoConfigDisposition::Absent
    }
}

fn cargo_home_disposition(observation: &CargoHomeObservation) -> (r:
    LocalInstallCargoHomeConfigDisposition)
    ensures
        r == cargo_home_state(*observation),
{
    match observation.directory {
        DirectoryObservation::Missing => LocalInstallCargoHomeConfigDisposition::Missing,
        DirectoryObservation::Unsafe => LocalInstallCargoHomeConfigDisposition::Unsafe,
        DirectoryObservation::Unknown => LocalInstallCargoHomeConfigDisposition::Unknown,
        DirectoryObservation::Ready(_) => if observation.modern == ConfigObservation::Unsafe
            || observation.legacy == ConfigObservation::Unsafe {
            LocalInstallCargoHomeConfigDisposition::Unsafe
        } else if observation.modern == ConfigObservation::Unknown || observation.legacy
            == ConfigObservation::Unknown {
            LocalInstallCargoHomeConfigDisposition::Unknown
        } else if observation.modern.is_present() || observation.legacy.is_present() {
            LocalInstallCargoHomeConfigDisposition::Present
        } else {
            LocalInstallCargoHomeConfigDisposition::Absent
        },
    }
}

impl PrivateSnapshot {
    /// What is told in public of one reading.
    pub fn public_receipt(&self) -> (receipt: LocalInstallCargoConfigPreflightReceipt)
        ensures
            receipt@ == receipt_of(self@),
    {
        let build_root = build_root_disposition(self);
        let lineage_config = lineage_disposition(&self.lineage);
        let cargo_home_config = cargo_home_disposition(&self.cargo_home);
        let ready = build_root == LocalInstallBuildRootDisposition::Ready && lineage_config
            == LocalInstallCargoConfigDisposition::Absent && cargo_home_config
            == LocalInstallCargoHomeConfigDisposition::Absent;
        let mut blocking_codes: Vec<LocalInstallCargoConfigBlockingCode> = Vec::new();
        let mut repair_codes: Vec<LocalInstallCargoConfigRepairCode> = Vec::new();
        match build_root {
            LocalInstallBuildRootDisposition::Missing => {
                blocking_codes.push(LocalInstallCargoConfigBlockingCode::BuildRootMissing);
                repair_codes.push(LocalInstallCargoConfigRepairCode::CreateIsolatedBuildRoot);
            },
            LocalInstallBuildRootDisposition::Unsafe => {
                blocking_codes.push(LocalInstallCargoConfigBlockingCode::UnsafeBuildRoot);
            },
            LocalInstallBuildRootDisposition::Unknown => {
                blocking_codes.push(LocalInstallCargoConfigBlockingCode::BuildRootUnknown);
            },
            LocalInstallBuildRootDisposition::Ready => {},
        }
        match lineage_config {
            LocalInstallCargoConfigDisposition::Present => {
                blocking_codes.push(LocalInstallCargoConfigBlockingCode::LineageConfigPresent);
            },
            LocalInstallCargoConfigDisposition::Unsafe => {
                blocking_codes.push(LocalInstallCargoConfigBlockingCode::LineageUnsafe);
            },
            LocalInstallCargoConfigDisposition::Unknown => {
                blocking_codes.push(LocalInstallCargoConfigBlockingCode::LineageUnknown);
            },
            LocalInstallCargoConfigDisposition::Absent => {},
        }
        match cargo_home_config {
            LocalInstallCargoHomeConfigDisposition::Missing => {
                blocking_codes.push(LocalInstallCargoConfigBlockingCode::CargoHomeMissing);
                if build_root != LocalInstallBuildRootDisposition::Missing {
                    repair_codes.push(LocalInstallCargoConfigRepairCode::CreateIsolatedCargoHome);
                }
            },
            LocalInstallCargoHomeConfigDisposition::Present => {
                blocking_codes.push(LocalInstallCargoConfigBlockingCode::CargoHomeConfigPresent);
            },
            LocalInstallCargoHomeConfigDisposition::Unsafe => {
                blocking_codes.push(LocalInstallCargoConfigBlockingCode::CargoHomeUnsafe);
            },
            LocalInstallCargoHomeConfigDisposition::Unknown => {
                blocking_codes.push(LocalInstallCargoConfigBlockingCode::CargoHomeUnknown);
            },
            LocalInstallCargoHomeConfigDisposition::Absent => {},
        }
        assert(blocking_codes@ =~= receipt_of(self@).blocking_codes);
        assert(repair_codes@ =~= receipt_of(self@).repair_codes);
        LocalInstallCargoConfigPreflightReceipt {
            schema_version: LOCAL_INSTALL_CARGO_CONFIG_PREFLIGHT_SCHEMA_VERSION,
            build_root,
            lineage_config,
            cargo_home_config,
            ready,
            blocking_codes,
            repair_codes,
        }
    }

    fn same_as(&self, other: &PrivateSnapshot) -> (r: bool)
        ensures
            r == (self@ == other@),
    {
        if self.build_root != other.build_root || self.work != other.work || self.home
            != other.home || self.target != other.target || self.cargo_home != other.cargo_home
            || self.lineage.len() != other.lineage.len() {
            return false;
        }
        let mut i: usize = 0;
        while i < self.lineage.len()
            invariant
                i <= self.lineage@.len(),
                self.lineage@.len() == other.lineage@.len(),
                forall|k: int| 0 <= k < i ==> self.lineage@[k] == other.lineage@[k],
            decreases self.lineage@.len() - i,
        {
            if self.lineage[i] != other.lineage[i] {
                assert(self@.lineage[i as int] != other@.lineage[i as int]);
                return false;
            }
            i += 1;
        }
        assert(self@.lineage =~= other@.lineage);
        true
    }
}

fn changed_receipt() -> (receipt: LocalInstallCargoConfigPreflightReceipt)
    ensures
        receipt@ == changed_receipt_view(),
{
    let mut blocking_codes: Vec<LocalInstallCargoConfigBlockingCode> = Vec::new();
    blocking_codes.push(LocalInstallCargoConfigBlockingCode::ObservationChanged);
    let receipt = LocalInstallCargoConfigPreflightReceipt {
        schema_version: LOCAL_INSTALL_CARGO_CONFIG_PREFLIGHT_SCHEMA_VERSION,
        build_root: LocalInstallBuildRootDisposition::Unknown,
        lineage_config: LocalInstallCargoConfigDisposition::Unknown,
        cargo_home_config: LocalInstallCargoHomeConfigDisposition::Unknown,
        ready: false,
        blocking_codes,
        repair_codes: Vec::new(),
    };
    assert(receipt@.blocking_codes =~= changed_receipt_view().blocking_codes);
    assert(receipt@.repair_codes =~= changed_receipt_view().repair_codes);
    receipt
}

/// What two readings amount to.
pub fn compare_readings(first: &PrivateSnapshot, second: &PrivateSnapshot) -> (receipt:
    LocalInstallCargoConfigPreflightReceipt)
    ensures
        receipt@ == receipt_of_readings(first@, second@),
{
    if !first.same_as(second) {
        return changed_receipt();
    }
    first.public_receipt()
}

/// Which of the two readings of an observation is made.
#[derive(Debug, Clone, Copy, PartialEq, Eq, Structural)]
pub enum ReadingTurn {
    First,
    Second,
}

/// Reads directories and configuration files without following links.
pub trait CargoConfigFilesystem {
    /// Whether a directory can show this in that reading. An implementation that
    /// promises nothing can show anything.
    open spec fn can_show_directory(
        &self,
        turn: ReadingTurn,
        path: Seq<char>,
        expectation: DirectoryExpectation,
        context: PreflightContextView,
        observation: DirectoryObservation,
    ) -> bool {
        true
    }

    /// Whether a configuration file can show this in that reading. An
    /// implementation that promises nothing can show anything.
    open spec fn can_show_config(
        &self,
        turn: ReadingTurn,
        path: Seq<char>,
        context: PreflightContextView,
        observation: ConfigObservation,
    ) -> bool {
        true
    }

    fn directory(
        &self,
        turn: ReadingTurn,
        path: &str,
        expectation: DirectoryExpectation,
        context: &LocalInstallCargoConfigPreflightContext,
    ) -> (observation: DirectoryObservation)
        ensures
            self.can_show_directory(turn, path@, expectation, context@, observation),
    ;

    fn config_file(
        &self,
        turn: ReadingTurn,
        path: &str,
        context: &LocalInstallCargoConfigPreflightContext,
    ) -> (observation: ConfigObservation)
        ensures
            self.can_show_config(turn, path@, context@, observation),
    ;
}

/// The two configuration files of a directory were read, or the directory could
/// not be looked into.
pub open spec fn is_config_reading<F: CargoConfigFilesystem>(
    filesystem: F,
    turn: ReadingTurn,
    context: PreflightContextView,
    directory: Seq<char>,
    ready: bool,
    modern: ConfigObservation,
    legacy: ConfigObservation,
) -> bool {
    if ready {
        &&& filesystem.can_show_config(turn, paths::child(directory, "config.toml"@), context, modern)
        &&& filesystem.can_show_config(turn, paths::child(directory, "config"@), context, legacy)
    } else {
        modern == ConfigObservation::Missing && legacy == ConfigObservation::Missing
    }
}

/// What is expected of a directory on the lookup path: the working directory
/// and the build root are the runner's own.
pub open spec fn lineage_expectation(
    context: PreflightContextView,
    ancestor: Seq<char>,
) -> DirectoryExpectation {
    if ancestor == context.working_directory() || ancestor == context.build_root {
        DirectoryExpectation::ExactPrivateRunner
    } else {
        DirectoryExpectation::TrustedAncestor
    }
}

/// One directory of the lookup path was read: the directory, then its Cargo
/// directory, then the files in it.
pub open spec fn is_ancestor_reading<F: CargoConfigFilesystem>(
    filesystem: F,
    turn: ReadingTurn,
    context: PreflightContextView,
    ancestor: Seq<char>,
    observation: LineageObservation,
) -> bool {
    let cargo = paths::child(ancestor, ".cargo"@);
    &&& filesystem.can_show_directory(
        turn,
        ancestor,
        lineage_expectation(context, ancestor),
        context,
        observation.ancestor,
    )
    &&& if observation.ancestor is Ready {
        filesystem.can_show_directory(
            turn,
            cargo,
            DirectoryExpectation::TrustedAncestor,
            context,
            observation.cargo_directory,
        )
    } else {
        observation.cargo_directory == DirectoryObservation::Missing
    }
    &&& is_config_reading(
        filesystem,
        turn,
        context,
        cargo,
        observation.cargo_directory is Ready,
        observation.modern,
        observation.legacy,
    )
}

pub open spec fn is_lineage_reading<F: CargoConfigFilesystem>(
    filesystem: F,
    turn: ReadingTurn,
    context: PreflightContextView,
    lineage: Seq<LineageObservation>,
) -> bool {
    let ancestors = paths::ancestors(context.working_directory());
    &&& lineage.len() == ancestors.len()
    &&& forall|i: int|
        0 <= i < lineage.len() ==> is_ancestor_reading(
            filesystem,
            turn,
            context,
            ancestors[i],
            #[trigger] lineage[i],
        )
}

/// A whole reading: the layout first, the lookup path only beneath a layout
/// that is neither unsafe nor unknown, and the Cargo home only beneath a build
/// root that is ready.
pub open spec fn is_reading<F: CargoConfigFilesystem>(
    filesystem: F,
    turn: ReadingTurn,
    context: PreflightContextView,
    snapshot: SnapshotView,
) -> bool {
    let exact = DirectoryExpectation::ExactPrivateRunner;
    &&& filesystem.can_show_directory(turn, context.build_root, exact, context, snapshot.build_root)
    &&& filesystem.can_show_directory(turn, context.working_directory(), exact, context, snapshot.work)
    &&& filesystem.can_show_directory(turn, context.isolated_home(), exact, context, snapshot.home)
    &&& filesystem.can_show_directory(turn, context.target_directory(), exact, context, snapshot.target)
    &&& if build_root_state(snapshot) == LocalInstallBuildRootDisposition::Ready {
        is_lineage_reading(filesystem, turn, context, snapshot.lineage)
    } else {
        snapshot.lineage.len() == 0
    }
    &&& if snapshot.build_root is Ready {
        &&& filesystem.can_show_directory(
            turn,
            context.cargo_home(),
            exact,
            context,
            snapshot.cargo_home.directory,
        )
        &&& is_config_reading(
            filesystem,
            turn,
            context,
            context.cargo_home(),
            snapshot.cargo_home.directory is Ready,
            snapshot.cargo_home.modern,
            snapshot.cargo_home.legacy,
        )
    } else {
        snapshot.cargo_home == (CargoHomeObservation {
            directory: DirectoryObservation::Missing,
            modern: ConfigObservation::Missing,
            legacy: ConfigObservation::Missing,
        })
    }
}

fn read_configs<F: CargoConfigFilesystem>(
    filesystem: &F,
    turn: ReadingTurn,
    context: &LocalInstallCargoConfigPreflightContext,
    directory: &str,
    ready: bool,
) -> (r: (ConfigObservation, ConfigObservation))
    ensures
        is_config_reading(*filesystem, turn, context@, directory@, ready, r.0, r.1),
{
    if !ready {
        return (ConfigObservation::Missing, ConfigObservation::Missing);
    }
    let modern = filesystem.config_file(
        turn,
        paths::child_of(directory, "config.toml").as_str(),
        context,
    );
    let legacy = filesystem.config_file(turn, paths::child_of(directory, "config").as_str(), context);
    (modern, legacy)
}

fn read_ancestor<F: CargoConfigFilesystem>(
    context: &LocalInstallCargoConfigPreflightContext,
    filesystem: &F,
    turn: ReadingTurn,
    ancestor: &str,
) -> (observation: LineageObservation)
    ensures
        is_ancestor_reading(*filesystem, turn, context@, ancestor@, observation),
{
    let working_directory = paths::child_of(context.build_root.as_str(), "work");
    let exact_private = text::same_text(ancestor, working_directory.as_str()) || text::same_text(
        ancestor,
        context.build_root.as_str(),
    );
    let expectation = if exact_private {
        DirectoryExpectation::ExactPrivateRunner
    } else {
        DirectoryExpectation::TrustedAncestor
    };
    let state = filesystem.directory(turn, ancestor, expectation, context);
    let cargo_path = paths::child_of(ancestor, ".cargo");
    let cargo_directory = if state.is_ready() {
        filesystem.directory(
            turn,
            cargo_path.as_str(),
            DirectoryExpectation::TrustedAncestor,
            context,
        )
    } else {
        DirectoryObservation::Missing
    };
    let configs = read_configs(
        filesystem,
        turn,
        context,
        cargo_path.as_str(),
        cargo_directory.is_ready(),
    );
    LineageObservation {
        ancestor: state,
        cargo_directory,
        modern: configs.0,
        legacy: configs.1,
    }
}

fn observe_lineage<F: CargoConfigFilesystem>(
    context: &LocalInstallCargoConfigPreflightContext,
    filesystem: &F,
    turn: ReadingTurn,
) -> (lineage: Vec<LineageObservation>)
    ensures
        is_lineage_reading(*filesystem, turn, context@, lineage@),
{
    let working_directory = paths::child_of(context.build_root.as_str(), "work");
    let ancestors = paths::ancestors_of(working_directory.as_str());
    let mut lineage: Vec<LineageObservation> = Vec::new();
    let mut i: usize = 0;
    while i < ancestors.len()
        invariant
            i <= ancestors@.len(),
            lineage@.len() == i,
            outcome::seq_view(ancestors@) == paths::ancestors(context@.working_directory()),
            forall|k: int|
                0 <= k < i ==> is_ancestor_reading(
                    *filesystem,
                    turn,
                    context@,
                    paths::ancestors(context@.working_directory())[k],
                    #[trigger] lineage@[k],
                ),
        decreases ancestors@.len() - i,
    {
        assert(ancestors@[i as int]@ == paths::ancestors(
            context@.working_directory(),
        )[i as int]);
        lineage.push(read_ancestor(context, filesystem, turn, ancestors[i].as_str()));
        i += 1;
    }
    lineage
}

fn observe_cargo_home<F: CargoConfigFilesystem>(
    context: &LocalInstallCargoConfigPreflightContext,
    filesystem: &F,
    turn: ReadingTurn,
) -> (observation: CargoHomeObservation)
    ensures
        filesystem.can_show_directory(
            turn,
            context@.cargo_home(),
            DirectoryExpectation::ExactPrivateRunner,
            context@,
            observation.directory,
        ),
        is_config_reading(
            *filesystem,
            turn,
            context@,
            context@.cargo_home(),
            observation.directory is Ready,
            observation.modern,
            observation.legacy,
        ),
{
    let cargo_home = paths::child_of(context.build_root.as_str(), "cargo-home");
    let directory = filesystem.directory(
        turn,
        cargo_home.as_str(),
        DirectoryExpectation::ExactPrivateRunner,
        context,
    );
    let configs = read_configs(filesystem, turn, context, cargo_home.as_str(), directory.is_ready());
    CargoHomeObservation { directory, modern: configs.0, legacy: configs.1 }
}

fn snapshot<F: CargoConfigFilesystem>(
    context: &LocalInstallCargoConfigPreflightContext,
    filesystem: &F,
    turn: ReadingTurn,
) -> (reading: PrivateSnapshot)
    ensures
        is_reading(*filesystem, turn, context@, reading@),
{
    let exact = DirectoryExpectation::ExactPrivateRunner;
    let root = context.build_root.as_str();
    let build_root = filesystem.directory(turn, root, exact, context);
    let work = filesystem.directory(turn, paths::child_of(root, "work").as_str(), exact, context);
    let home = filesystem.directory(turn, paths::child_of(root, "home").as_str(), exact, context);
    let target = filesystem.directory(turn, paths::child_of(root, "target").as_str(), exact, context);
    let lineage = if build_root.is_ready() && !work.is_unsafe_or_unknown()
        && !home.is_unsafe_or_unknown() && !target.is_unsafe_or_unknown() {
        observe_lineage(context, filesystem, turn)
    } else {
        Vec::new()
    };
    let cargo_home = if build_root.is_ready() {
        observe_cargo_home(context, filesystem, turn)
    } else {
        CargoHomeObservation {
            directory: DirectoryObservation::Missing,
            modern: ConfigObservation::Missing,
            legacy: ConfigObservation::Missing,
        }
    };
    PrivateSnapshot { build_root, work, home, target, lineage, cargo_home }
}

/// The receipt is that of two readings: the first, and the second after it.
pub open spec fn is_observed_receipt<F: CargoConfigFilesystem>(
    filesystem: F,
    context: PreflightContextView,
    receipt: PreflightReceiptView,
) -> bool {
    exists|first: SnapshotView, second: SnapshotView| #[trigger]
        is_reading(filesystem, ReadingTurn::First, context, first) && #[trigger] is_reading(
            filesystem,
            ReadingTurn::Second,
            context,
            second,
        ) && receipt == receipt_of_readings(first, second)
}

/// Prove the isolated self-build Cargo lookup path from direct filesystem evidence.
///
/// The observation runs twice. Private directory/file identities participate in snapshot equality,
/// but never enter the public receipt. Any difference becomes one bounded `observation_changed`
/// refusal. No source-checkout or personal-home Cargo path is inspected unless it is literally an
/// ancestor of the selected isolated build root.
pub fn observe_with<F: CargoConfigFilesystem>(
    context: &LocalInstallCargoConfigPreflightContext,
    filesystem: &F,
) -> (receipt: LocalInstallCargoConfigPreflightReceipt)
    ensures
        is_observed_receipt(*filesystem, context@, receipt@),
{
    let first = snapshot(context, filesystem, ReadingTurn::First);
    let second = snapshot(context, filesystem, ReadingTurn::Second);
    let receipt = compare_readings(&first, &second);
    assert(is_reading(*filesystem, ReadingTurn::First, context@, first@));
    assert(is_reading(*filesystem, ReadingTurn::Second, context@, second@));
    receipt
}

pub open spec fn is_trusted_owner(uid: u32, gid: u32, context: PreflightContextView) -> bool {
    (uid == 0 && gid == 0) || (uid == context.runner_uid && gid == context.runner_gid)
}

fn trusted_owner(uid: u32, gid: u32, context: &LocalInstallCargoConfigPreflightContext) -> (r: bool)
    ensures
        r == is_trusted_owner(uid, gid, context@),
{
    (uid == 0 && gid == 0) || (uid == context.runner_uid && gid == context.runner_gid)
}

pub open spec fn object_identity(stat: FileStat) -> ObjectIdentity {
    ObjectIdentity {
        device: stat.device,
        inode: stat.inode,
        uid: stat.owner,
        gid: stat.group,
        mode: stat.spec_permissions(),
        links: stat.links,
    }
}

fn identity_of(stat: &FileStat) -> (identity: ObjectIdentity)
    ensures
        identity == object_identity(*stat),
{
    ObjectIdentity {
        device: stat.device,
        inode: stat.inode,
        uid: stat.owner,
        gid: stat.group,
        mode: stat.permissions(),
        links: stat.links,
    }
}

/// The directory is one that is expected: the runner's own private one, or one
/// of a trusted owner that nobody else can write to.
pub open spec fn meets_expectation(
    stat: FileStat,
    expectation: DirectoryExpectation,
    context: PreflightContextView,
) -> bool {
    match expectation {
        DirectoryExpectation::ExactPrivateRunner => stat.owner == context.runner_uid && stat.group
            == context.runner_gid && stat.spec_permissions() == PRIVATE_DIRECTORY_MODE,
        DirectoryExpectation::TrustedAncestor => is_trusted_owner(stat.owner, stat.group, context)
            && !stat.spec_foreign_writable(),
    }
}

/// What [`inspect_open_directory`] answers; no metadata is an unknown directory.
pub open spec fn inspected_directory(
    stat: Option<FileStat>,
    expectation: DirectoryExpectation,
    context: PreflightContextView,
) -> DirectoryObservation {
    match stat {
        None => DirectoryObservation::Unknown,
        Some(found) => if found.spec_is_directory() && meets_expectation(
            found,
            expectation,
            context,
        ) {
            DirectoryObservation::Ready(object_identity(found))
        } else {
            DirectoryObservation::Unsafe
        },
    }
}

/// Judges an open directory by its metadata.
pub fn inspect_open_directory(
    stat: Option<FileStat>,
    expectation: DirectoryExpectation,
    context: &LocalInstallCargoConfigPreflightContext,
) -> (observation: DirectoryObservation)
    ensures
        observation == inspected_directory(stat, expectation, context@),
{
    let found = match stat {
        Some(found) => found,
        None => {
            return DirectoryObservation::Unknown;
        },
    };
    if !found.is_directory() {
        return DirectoryObservation::Unsafe;
    }
    let owner_ok = match expectation {
        DirectoryExpectation::ExactPrivateRunner => found.owner == context.runner_uid
            && found.group == context.runner_gid && found.permissions() == PRIVATE_DIRECTORY_MODE,
        DirectoryExpectation::TrustedAncestor => trusted_owner(found.owner, found.group, context)
            && !found.foreign_writable(),
    };
    if !owner_ok {
        return DirectoryObservation::Unsafe;
    }
    DirectoryObservation::Ready(identity_of(&found))
}

pub open spec fn opened_directory(
    opened: OpenedEntry,
    expectation: DirectoryExpectation,
    context: PreflightContextView,
) -> DirectoryObservation {
    match opened {
        OpenedEntry::Opened(stat) => inspected_directory(stat, expectation, context),
        OpenedEntry::Refused(OpenRefusal::Missing) => DirectoryObservation::Missing,
        OpenedEntry::Refused(OpenRefusal::SymbolicLink) => DirectoryObservation::Unsafe,
        OpenedEntry::Refused(OpenRefusal::NotADirectory) => DirectoryObservation::Unsafe,
        OpenedEntry::Refused(_) => DirectoryObservation::Unknown,
    }
}

/// Judges one directory of a path. Only a ready one is entered; any other
/// answer is that of the whole path. Every directory but the last is expected
/// to be a trusted ancestor.
pub fn inspect_directory_step(
    opened: OpenedEntry,
    leaf: bool,
    expectation: DirectoryExpectation,
    context: &LocalInstallCargoConfigPreflightContext,
) -> (observation: DirectoryObservation)
    ensures
        observation == opened_directory(
            opened,
            if leaf {
                expectation
            } else {
                DirectoryExpectation::TrustedAncestor
            },
            context@,
        ),
{
    match opened {
        OpenedEntry::Opened(stat) => inspect_open_directory(
            stat,
            if leaf {
                expectation
            } else {
                DirectoryExpectation::TrustedAncestor
            },
            context,
        ),
        OpenedEntry::Refused(OpenRefusal::Missing) => DirectoryObservation::Missing,
        OpenedEntry::Refused(OpenRefusal::SymbolicLink) => DirectoryObservation::Unsafe,
        OpenedEntry::Refused(OpenRefusal::NotADirectory) => DirectoryObservation::Unsafe,
        OpenedEntry::Refused(_) => DirectoryObservation::Unknown,
    }
}

/// Why a directory above a configuration file ends the search, if it does: what
/// is not a ready trusted ancestor is unsafe.
pub open spec fn config_parent_refusal(
    opened: OpenedEntry,
    context: PreflightContextView,
) -> Option<ConfigObservation> {
    match opened {
        OpenedEntry::Opened(stat) => if inspected_directory(
            stat,
            DirectoryExpectation::TrustedAncestor,
            context,
        ) is Ready {
            None
        } else {
            Some(ConfigObservation::Unsafe)
        },
        OpenedEntry::Refused(OpenRefusal::Missing) => Some(ConfigObservation::Missing),
        OpenedEntry::Refused(OpenRefusal::SymbolicLink) => Some(ConfigObservation::Unsafe),
        OpenedEntry::Refused(OpenRefusal::NotADirectory) => Some(ConfigObservation::Unsafe),
        OpenedEntry::Refused(_) => Some(ConfigObservation::Unknown),
    }
}

/// Judges one directory above a configuration file.
pub fn inspect_config_parent(
    opened: OpenedEntry,
    context: &LocalInstallCargoConfigPreflightContext,
) -> (refusal: Option<ConfigObservation>)
    ensures
        refusal == config_parent_refusal(opened, context@),
{
    match opened {
        OpenedEntry::Opened(stat) => if inspect_open_directory(
            stat,
            DirectoryExpectation::TrustedAncestor,
            context,
        ).is_ready() {
            None
        } else {
            Some(ConfigObservation::Unsafe)
        },
        OpenedEntry::Refused(OpenRefusal::Missing) => Some(ConfigObservation::Missing),
        OpenedEntry::Refused(OpenRefusal::SymbolicLink) => Some(ConfigObservation::Unsafe),
        OpenedEntry::Refused(OpenRefusal::NotADirectory) => Some(ConfigObservation::Unsafe),
        OpenedEntry::Refused(_) => Some(ConfigObservation::Unknown),
    }
}

/// What [`inspect_config_file`] answers.
pub open spec fn inspected_config(
    opened: OpenedEntry,
    context: PreflightContextView,
) -> ConfigObservation {
    match opened {
        OpenedEntry::Opened(None) => ConfigObservation::Unknown,
        OpenedEntry::Opened(Some(stat)) => if stat.spec_is_regular() && stat.links == 1
            && is_trusted_owner(stat.owner, stat.group, context) && !stat.spec_foreign_writable() {
            ConfigObservation::Present(object_identity(stat))
        } else {
            ConfigObservation::Unsafe
        },
        OpenedEntry::Refused(OpenRefusal::Missing) => ConfigObservation::Missing,
        OpenedEntry::Refused(OpenRefusal::Other) => ConfigObservation::Unknown,
        OpenedEntry::Refused(_) => ConfigObservation::Unsafe,
    }
}

/// Judges a configuration file that was opened, or was not.
pub fn inspect_config_file(
    opened: OpenedEntry,
    context: &LocalInstallCargoConfigPreflightContext,
) -> (observation: ConfigObservation)
    ensures
        observation == inspected_config(opened, context@),
{
    match opened {
        OpenedEntry::Opened(None) => ConfigObservation::Unknown,
        OpenedEntry::Opened(Some(stat)) => if stat.is_regular() && stat.links == 1
            && trusted_owner(stat.owner, stat.group, context) && !stat.foreign_writable() {
            ConfigObservation::Present(identity_of(&stat))
        } else {
            ConfigObservation::Unsafe
        },
        OpenedEntry::Refused(OpenRefusal::Missing) => ConfigObservation::Missing,
        OpenedEntry::Refused(OpenRefusal::Other) => ConfigObservation::Unknown,
        OpenedEntry::Refused(_) => ConfigObservation::Unsafe,
    }
}

/// A receipt is ready exactly when it names nothing that blocks, and it never
/// asks for a repair when it is ready.
pub proof fn law_ready_means_nothing_blocks(first: SnapshotView, second: SnapshotView)
    ensures
        ({
            let receipt = receipt_of_readings(first, second);
            &&& receipt.ready <==> receipt.blocking_codes.len() == 0
            &&& receipt.ready ==> receipt.repair_codes.len() == 0
        }),
{
}

/// Only two equal readings of a layout without any configuration are ready: a
/// change between the readings is refused, whatever either showed.
pub proof fn law_ready_needs_equal_clean_readings(first: SnapshotView, second: SnapshotView)
    requires
        receipt_of_readings(first, second).ready,
    ensures
        first == second,
        first.build_root is Ready,
        first.lineage.len() > 0,
        forall|i: int|
            0 <= i < first.lineage.len() ==> !(#[trigger] first.lineage[i]).shows_unsafe()
                && !first.lineage[i].shows_unknown() && !first.lineage[i].shows_config(),
        first.cargo_home.directory is Ready,
        !(first.cargo_home.modern is Present),
        !(first.cargo_home.legacy is Present),
{
}

/// A filesystem that changes between the two readings is never ready: where no
/// snapshot can be both the first and the second reading, every receipt is the
/// refusal of a changed observation.
pub proof fn law_changed_observation_is_refused<F: CargoConfigFilesystem>(
    filesystem: F,
    context: PreflightContextView,
    receipt: PreflightReceiptView,
)
    requires
        is_observed_receipt(filesystem, context, receipt),
        forall|snapshot: SnapshotView|
            !(#[trigger] is_reading(filesystem, ReadingTurn::First, context, snapshot)
                && #[trigger] is_reading(filesystem, ReadingTurn::Second, context, snapshot)),
    ensures
        receipt == changed_receipt_view(),
        !receipt.ready,
        receipt.blocking_codes == seq![LocalInstallCargoConfigBlockingCode::ObservationChanged],
{
}

/// No configuration, and nothing that could hide one.
pub open spec fn is_free_of_config(modern: ConfigObservation, legacy: ConfigObservation) -> bool {
    modern == ConfigObservation::Missing && legacy == ConfigObservation::Missing
}

/// A directory that is there as expected, or not there.
pub open spec fn is_there_or_missing(directory: DirectoryObservation) -> bool {
    directory is Ready || directory == DirectoryObservation::Missing
}

/// An isolated layout is ready exactly when both readings of it agree, its root
/// and its Cargo home are private to the runner, no directory in it or above it
/// is unsafe or unknown, and there is no Cargo configuration anywhere from the
/// working directory up to the root of the filesystem or in the Cargo home.
pub proof fn law_layouts_are_ready_without_configuration(
    first: SnapshotView,
    second: SnapshotView,
)
    ensures
        receipt_of_readings(first, second).ready <==> {
            &&& first == second
            &&& first.build_root is Ready
            &&& is_there_or_missing(first.work)
            &&& is_there_or_missing(first.home)
            &&& is_there_or_missing(first.target)
            &&& first.lineage.len() > 0
            &&& forall|i: int|
                0 <= i < first.lineage.len() ==> is_there_or_missing(
                    (#[trigger] first.lineage[i]).ancestor,
                ) && is_there_or_missing(first.lineage[i].cargo_directory) && is_free_of_config(
                    first.lineage[i].modern,
                    first.lineage[i].legacy,
                )
            &&& first.cargo_home.directory is Ready
            &&& is_free_of_config(first.cargo_home.modern, first.cargo_home.legacy)
        },
        receipt_of_readings(first, second).schema_version == 1,
{
    if receipt_of_readings(first, second).ready {
        assert forall|i: int| 0 <= i < first.lineage.len() implies is_there_or_missing(
            (#[trigger] first.lineage[i]).ancestor,
        ) && is_there_or_missing(first.lineage[i].cargo_directory) && is_free_of_config(
            first.lineage[i].modern,
            first.lineage[i].legacy,
        ) by {
            let seen = first.lineage[i];
            assert(!seen.shows_unsafe() && !seen.shows_unknown() && !seen.shows_config());
        }
    } else if first == second && first.build_root is Ready && is_there_or_missing(first.work)
        && is_there_or_missing(first.home) && is_there_or_missing(first.target)
        && first.lineage.len() > 0 && first.cargo_home.directory is Ready && is_free_of_config(
        first.cargo_home.modern,
        first.cargo_home.legacy,
    ) {
        let i = choose|i: int|
            0 <= i < first.lineage.len() && ((#[trigger] first.lineage[i]).shows_unsafe()
                || first.lineage[i].shows_unknown() || first.lineage[i].shows_config());
        assert(0 <= i < first.lineage.len());
    }
}

/// What blocks a layout is named, and what is merely missing can be made: the
/// root first, and the Cargo home once there is a root.
pub proof fn law_blocked_layouts_say_why(snapshot: SnapshotView)
    ensures
        ({
            let receipt = receipt_of_readings(snapshot, snapshot);
            let codes = receipt.blocking_codes;
            let home = snapshot.cargo_home.directory;
            &&& codes.contains(LocalInstallCargoConfigBlockingCode::BuildRootMissing)
                <==> snapshot.build_root == DirectoryObservation::Missing
            &&& codes.contains(LocalInstallCargoConfigBlockingCode::UnsafeBuildRoot) <==> {
                ||| snapshot.build_root is Unsafe
                ||| snapshot.build_root is Ready && (snapshot.work is Unsafe
                    || snapshot.home is Unsafe || snapshot.target is Unsafe)
            }
            &&& codes.contains(LocalInstallCargoConfigBlockingCode::CargoHomeMissing) <==> home
                == DirectoryObservation::Missing
            &&& codes.contains(LocalInstallCargoConfigBlockingCode::CargoHomeConfigPresent) <==> {
                &&& home is Ready
                &&& snapshot.cargo_home.modern is Present || snapshot.cargo_home.legacy is Present
                &&& !(snapshot.cargo_home.modern is Unsafe || snapshot.cargo_home.legacy is Unsafe)
                &&& !(snapshot.cargo_home.modern is Unknown
                    || snapshot.cargo_home.legacy is Unknown)
            }
            &&& codes.contains(LocalInstallCargoConfigBlockingCode::LineageUnsafe)
                <==> exists|i: int|
                0 <= i < snapshot.lineage.len() && ((
                #[trigger] snapshot.lineage[i]).ancestor is Unsafe
                    || snapshot.lineage[i].cargo_directory is Unsafe
                    || snapshot.lineage[i].modern is Unsafe || snapshot.lineage[i].legacy is Unsafe)
            &&& codes.contains(LocalInstallCargoConfigBlockingCode::LineageConfigPresent) ==> (
            exists|i: int|
                0 <= i < snapshot.lineage.len() && ((
                #[trigger] snapshot.lineage[i]).modern is Present
                    || snapshot.lineage[i].legacy is Present))
            &&& snapshot.lineage.len() == 0 ==> codes.contains(
                LocalInstallCargoConfigBlockingCode::LineageUnknown,
            )
            &&& !codes.contains(LocalInstallCargoConfigBlockingCode::ObservationChanged)
            &&& receipt.repair_codes.contains(
                LocalInstallCargoConfigRepairCode::CreateIsolatedBuildRoot,
            ) <==> snapshot.build_root == DirectoryObservation::Missing
            &&& receipt.repair_codes.contains(
                LocalInstallCargoConfigRepairCode::CreateIsolatedCargoHome,
            ) <==> snapshot.build_root != DirectoryObservation::Missing && home
                == DirectoryObservation::Missing
        }),
{
    let root = build_root_block(build_root_state(snapshot));
    let lineage = lineage_block(lineage_state(snapshot.lineage));
    let home = cargo_home_block(cargo_home_state(snapshot.cargo_home));
    let codes = receipt_of_readings(snapshot, snapshot).blocking_codes;
    assert(codes == root + lineage + home);
    assert forall|code: LocalInstallCargoConfigBlockingCode|
        codes.contains(code) <==> root.contains(code) || lineage.contains(code) || home.contains(
            code,
        ) by {
        lemma_in_three(root, lineage, home, code);
    }
    lemma_block_of_root(build_root_state(snapshot));
    lemma_block_of_lineage(lineage_state(snapshot.lineage));
    lemma_block_of_home(cargo_home_state(snapshot.cargo_home));
    let repair_codes = receipt_of_readings(snapshot, snapshot).repair_codes;
    if repair_codes.len() > 0 {
        assert(repair_codes.contains(repair_codes[0]));
    }
    let seen = snapshot.lineage;
    if exists|i: int|
        0 <= i < seen.len() && ((#[trigger] seen[i]).ancestor is Unsafe
            || seen[i].cargo_directory is Unsafe || seen[i].modern is Unsafe
            || seen[i].legacy is Unsafe) {
        let i = choose|i: int|
            0 <= i < seen.len() && ((#[trigger] seen[i]).ancestor is Unsafe
                || seen[i].cargo_directory is Unsafe || seen[i].modern is Unsafe
                || seen[i].legacy is Unsafe);
        assert(seen[i].shows_unsafe());
    }
}

proof fn lemma_in_three(
    first: Seq<LocalInstallCargoConfigBlockingCode>,
    second: Seq<LocalInstallCargoConfigBlockingCode>,
    third: Seq<LocalInstallCargoConfigBlockingCode>,
    code: LocalInstallCargoConfigBlockingCode,
)
    ensures
        (first + second + third).contains(code) <==> first.contains(code) || second.contains(code)
            || third.contains(code),
{
    let all = first + second + third;
    if first.contains(code) {
        let i = choose|i: int| 0 <= i < first.len() && first[i] == code;
        assert(all[i] == code);
    }
    if second.contains(code) {
        let i = choose|i: int| 0 <= i < second.len() && second[i] == code;
        assert(all[first.len() + i] == code);
    }
    if third.contains(code) {
        let i = choose|i: int| 0 <= i < third.len() && third[i] == code;
        assert(all[first.len() + second.len() + i] == code);
    }
    if all.contains(code) {
        let i = choose|i: int| 0 <= i < all.len() && all[i] == code;
        if i < first.len() {
            assert(first[i] == code);
        } else if i < first.len() + second.len() {
            assert(second[i - first.len()] == code);
        } else {
            assert(third[i - first.len() - second.len()] == code);
        }
    }
}

proof fn lemma_one_code(code: LocalInstallCargoConfigBlockingCode)
    ensures
        forall|other: LocalInstallCargoConfigBlockingCode|
            seq![code].contains(other) <==> other == code,
{
    assert(seq![code][0] == code);
}

proof fn lemma_block_of_root(state: LocalInstallBuildRootDisposition)
    ensures
        forall|code: LocalInstallCargoConfigBlockingCode| #[trigger]
            build_root_block(state).contains(code) <==> match state {
                LocalInstallBuildRootDisposition::Missing => code
                    == LocalInstallCargoConfigBlockingCode::BuildRootMissing,
                LocalInstallBuildRootDisposition::Unsafe => code
                    == LocalInstallCargoConfigBlockingCode::UnsafeBuildRoot,
                LocalInstallBuildRootDisposition::Unknown => code
                    == LocalInstallCargoConfigBlockingCode::BuildRootUnknown,
                LocalInstallBuildRootDisposition::Ready => false,
            },
{
    lemma_one_code(LocalInstallCargoConfigBlockingCode::BuildRootMissing);
    lemma_one_code(LocalInstallCargoConfigBlockingCode::UnsafeBuildRoot);
    lemma_one_code(LocalInstallCargoConfigBlockingCode::BuildRootUnknown);
}

proof fn lemma_block_of_lineage(state: LocalInstallCargoConfigDisposition)
    ensures
        forall|code: LocalInstallCargoConfigBlockingCode| #[trigger]
            lineage_block(state).contains(code) <==> match state {
                LocalInstallCargoConfigDisposition::Present => code
                    == LocalInstallCargoConfigBlockingCode::LineageConfigPresent,
                LocalInstallCargoConfigDisposition::Unsafe => code
                    == LocalInstallCargoConfigBlockingCode::LineageUnsafe,
                LocalInstallCargoConfigDisposition::Unknown => code
                    == LocalInstallCargoConfigBlockingCode::LineageUnknown,
                LocalInstallCargoConfigDisposition::Absent => false,
            },
{
    lemma_one_code(LocalInstallCargoConfigBlockingCode::LineageConfigPresent);
    lemma_one_code(LocalInstallCargoConfigBlockingCode::LineageUnsafe);
    lemma_one_code(LocalInstallCargoConfigBlockingCode::LineageUnknown);
}

proof fn lemma_block_of_home(state: LocalInstallCargoHomeConfigDisposition)
    ensures
        forall|code: LocalInstallCargoConfigBlockingCode| #[trigger]
            cargo_home_block(state).contains(code) <==> match state {
                LocalInstallCargoHomeConfigDisposition::Missing => code
                    == LocalInstallCargoConfigBlockingCode::CargoHomeMissing,
                LocalInstallCargoHomeConfigDisposition::Present => code
                    == LocalInstallCargoConfigBlockingCode::CargoHomeConfigPresent,
                LocalInstallCargoHomeConfigDisposition::Unsafe => code
                    == LocalInstallCargoConfigBlockingCode::CargoHomeUnsafe,
                LocalInstallCargoHomeConfigDisposition::Unknown => code
                    == LocalInstallCargoConfigBlockingCode::CargoHomeUnknown,
                LocalInstallCargoHomeConfigDisposition::Absent => false,
            },
{
    lemma_one_code(LocalInstallCargoConfigBlockingCode::CargoHomeMissing);
    lemma_one_code(LocalInstallCargoConfigBlockingCode::CargoHomeConfigPresent);
    lemma_one_code(LocalInstallCargoConfigBlockingCode::CargoHomeUnsafe);
    lemma_one_code(LocalInstallCargoConfigBlockingCode::CargoHomeUnknown);
}

/// A directory is as expected exactly when it is the runner's with mode 0700,
/// or, above the layout, root's or the runner's and closed to others.
pub proof fn law_directories_are_as_expected(
    opened: OpenedEntry,
    context: PreflightContextView,
)
    ensures
        opened_directory(opened, DirectoryExpectation::ExactPrivateRunner, context) is Ready <==> (
        opened matches OpenedEntry::Opened(Some(stat)) && stat.mode & 0o170000 == 0o040000
            && stat.mode & 0o7777 == 0o700 && stat.owner == context.runner_uid && stat.group
            == context.runner_gid),
        opened_directory(opened, DirectoryExpectation::TrustedAncestor, context) is Ready <==> (
        opened matches OpenedEntry::Opened(Some(stat)) && stat.mode & 0o170000 == 0o040000
            && stat.mode & 0o022 == 0 && ((stat.owner == 0 && stat.group == 0) || (stat.owner
            == context.runner_uid && stat.group == context.runner_gid))),
        forall|expectation: DirectoryExpectation|
            opened == OpenedEntry::Refused(OpenRefusal::Missing) <==> #[trigger] opened_directory(
                opened,
                expectation,
                context,
            ) == DirectoryObservation::Missing,
        forall|expectation: DirectoryExpectation|
            opened == OpenedEntry::Refused(OpenRefusal::SymbolicLink) ==> #[trigger]
                opened_directory(opened, expectation, context) == DirectoryObservation::Unsafe,
{
}

/// A configuration file is present exactly when it is a plain file of one name
/// that is root's or the runner's and closed to others; a missing one is
/// missing, and anything else in its place is unsafe or unknown.
pub proof fn law_configurations_are_told_apart(
    opened: OpenedEntry,
    context: PreflightContextView,
)
    ensures
        inspected_config(opened, context) is Present <==> (opened matches OpenedEntry::Opened(
            Some(stat),
        ) && stat.mode & 0o170000 == 0o100000 && stat.mode & 0o022 == 0 && stat.links == 1 && ((
        stat.owner == 0 && stat.group == 0) || (stat.owner == context.runner_uid && stat.group
            == context.runner_gid))),
        inspected_config(opened, context) == ConfigObservation::Missing <==> opened
            == OpenedEntry::Refused(OpenRefusal::Missing),
        inspected_config(opened, context) == ConfigObservation::Unknown <==> opened
            == OpenedEntry::Opened(None) || opened == OpenedEntry::Refused(OpenRefusal::Other),
        config_parent_refusal(opened, context) is None <==> opened_directory(
            opened,
            DirectoryExpectation::TrustedAncestor,
            context,
        ) is Ready,
        config_parent_refusal(opened, context) == Some(ConfigObservation::Missing) <==> opened
            == OpenedEntry::Refused(OpenRefusal::Missing),
{
}

/// A build root is an absolute, canonical path below the root of the
/// filesystem, without control characters and of at most 4096 bytes.
pub proof fn law_build_roots_are_bounded(path: Seq<char>)
    ensures
        is_build_root(path) ==> {
            &&& vstd::utf8::encode_utf8(path).len() <= 4096
            &&& path.len() > 1 && path[0] == '/'
            &&& forall|i: int| 0 <= i < path.len() ==> (#[trigger] path[i]) as int >= 32
        },
        path.len() > 0 && path[0] == '/' && vstd::utf8::encode_utf8(path).len() <= 4096
            && paths::is_canonical_absolute(path) && !paths::has_control(path) ==> is_build_root(
            path,
        ),
{
    if is_build_root(path) {
        assert forall|i: int| 0 <= i < path.len() implies (#[trigger] path[i]) as int >= 32 by {
            assert(!text::is_control(path[i]));
        }
        if path.len() == 1 {
            let rest = path.skip(1);
            assert(rest =~= Seq::empty());
            assert(paths::segments(path) =~= seq![rest]) by {
                reveal_with_fuel(scan::split_on, 2);
            }
            assert(paths::is_plain_segment(paths::segments(path)[0]));
        }
    }
}

/// The directories of a layout stand side by side under its root.
pub proof fn law_layout_directories_are_fixed(context: PreflightContextView)
    ensures
        context.working_directory() == paths::child(context.build_root, "work"@),
        context.isolated_home() == paths::child(context.build_root, "home"@),
        context.cargo_home() == paths::child(context.build_root, "cargo-home"@),
        context.target_directory() == paths::child(context.build_root, "target"@),
{
}

/// Two observations show one object exactly when its device, inode, owner,
/// group, permissions and number of names are the same; what else changes in
/// it does not matter.
pub proof fn law_objects_are_known_by_their_metadata(a: FileStat, b: FileStat)
    ensures
        object_identity(a) == object_identity(b) <==> a.device == b.device && a.inode == b.inode
            && a.owner == b.owner && a.group == b.group && a.mode & 0o7777 == b.mode & 0o7777
            && a.links == b.links,
{
}

/// What a reading shows of a layout is what the filesystem can show of its
/// directories, which are to be the runner's alone; what stands above them is
/// to be trusted, and every directory from the working one up is looked at.
pub proof fn law_readings_look_at_the_whole_layout<F: CargoConfigFilesystem>(
    filesystem: F,
    turn: ReadingTurn,
    context: PreflightContextView,
    snapshot: SnapshotView,
    i: int,
)
    requires
        is_reading(filesystem, turn, context, snapshot),
    ensures
        filesystem.can_show_directory(
            turn,
            context.build_root,
            DirectoryExpectation::ExactPrivateRunner,
            context,
            snapshot.build_root,
        ),
        filesystem.can_show_directory(
            turn,
            paths::child(context.build_root, "work"@),
            DirectoryExpectation::ExactPrivateRunner,
            context,
            snapshot.work,
        ),
        filesystem.can_show_directory(
            turn,
            paths::child(context.build_root, "home"@),
            DirectoryExpectation::ExactPrivateRunner,
            context,
            snapshot.home,
        ),
        filesystem.can_show_directory(
            turn,
            paths::child(context.build_root, "target"@),
            DirectoryExpectation::ExactPrivateRunner,
            context,
            snapshot.target,
        ),
        snapshot.build_root is Ready ==> filesystem.can_show_directory(
            turn,
            paths::child(context.build_root, "cargo-home"@),
            DirectoryExpectation::ExactPrivateRunner,
            context,
            snapshot.cargo_home.directory,
        ),
        receipt_of(snapshot).ready ==> {
            let ancestors = paths::ancestors(context.working_directory());
            &&& snapshot.lineage.len() == ancestors.len()
            &&& 0 <= i < ancestors.len() ==> filesystem.can_show_directory(
                turn,
                ancestors[i],
                if ancestors[i] == context.build_root || ancestors[i] == paths::child(
                    context.build_root,
                    "work"@,
                ) {
                    DirectoryExpectation::ExactPrivateRunner
                } else {
                    DirectoryExpectation::TrustedAncestor
                },
                context,
                snapshot.lineage[i].ancestor,
            )
            &&& 0 <= i < ancestors.len() && snapshot.lineage[i].ancestor is Ready
                ==> filesystem.can_show_directory(
                turn,
                paths::child(ancestors[i], ".cargo"@),
                DirectoryExpectation::TrustedAncestor,
                context,
                snapshot.lineage[i].cargo_directory,
            )
            &&& 0 <= i < ancestors.len() && snapshot.lineage[i].cargo_directory is Ready
                ==> filesystem.can_show_config(
                turn,
                paths::child(paths::child(ancestors[i], ".cargo"@), "config.toml"@),
                context,
                snapshot.lineage[i].modern,
            ) && filesystem.can_show_config(
                turn,
                paths::child(paths::child(ancestors[i], ".cargo"@), "config"@),
                context,
                snapshot.lineage[i].legacy,
            )
        },
{
    if receipt_of(snapshot).ready {
        let ancestors = paths::ancestors(context.working_directory());
        if 0 <= i < ancestors.len() {
            assert(is_ancestor_reading(
                filesystem,
                turn,
                context,
                ancestors[i],
                snapshot.lineage[i],
            ));
        }
    }
}

} // verus!
