//! Proof that one checkout matches an exact local-install source identity.
use vstd::prelude::*;

use crate::artifact;
use crate::artifact::{CommitId, GitTreeId, Sha256Digest};
use crate::file_evidence::{FileStat, OpenRefusal};
use crate::local_install_plan::{LocalInstallSourceIdentity, SourceView};
use crate::outcome;
use crate::paths;
use crate::text;

verus! {

pub const LOCAL_INSTALL_SOURCE_PREFLIGHT_SCHEMA_VERSION: u8 = 1;

pub const MAX_LOCAL_INSTALL_CARGO_LOCK_BYTES: usize = 4_194_304;

#[derive(Debug, Clone, Copy, PartialEq, Eq, Structural)]
pub enum LocalInstallSourceProjectDisposition {
    ExactSmolrunner,
    Other,
    Ambiguous,
    Unknown,
}

#[derive(Debug, Clone, Copy, PartialEq, Eq, Structural)]
pub enum LocalInstallSourceBlockingCode {
    WrongProject,
    CommitMismatch,
    TreeMismatch,
    LockfileMismatch,
    CheckoutDirty,
    SourceChanged,
    UnsafeSource,
    UnknownSource,
}

/// Path-private proof that one current checkout matches an exact local-install source identity.
///
/// The fields are private so callers may inspect or serialize accepted evidence without mutating a
/// validated receipt afterward.
#[derive(Debug, PartialEq, Eq)]
pub struct LocalInstallSourcePreflightReceipt {
    schema_version: u8,
    expected_source_digest: Sha256Digest,
    observed_project: LocalInstallSourceProjectDisposition,
    commit_match: bool,
    tree_match: bool,
    lockfile_digest_match: bool,
    checkout_clean: bool,
    observation_stable: bool,
    ready: bool,
    blocking_codes: Vec<LocalInstallSourceBlockingCode>,
}

pub struct SourceReceiptView {
    pub schema_version: u8,
    pub expected_source_digest: Seq<char>,
    pub observed_project: LocalInstallSourceProjectDisposition,
    pub commit_match: bool,
    pub tree_match: bool,
    pub lockfile_digest_match: bool,
    pub checkout_clean: bool,
    pub observation_stable: bool,
    pub ready: bool,
    pub blocking_codes: Seq<LocalInstallSourceBlockingCode>,
}

impl View for LocalInstallSourcePreflightReceipt {
    type V = SourceReceiptView;

    closed spec fn view(&self) -> SourceReceiptView {
        SourceReceiptView {
            schema_version: self.schema_version,
            expected_source_digest: self.expected_source_digest@,
            observed_project: self.observed_project,
            commit_match: self.commit_match,
            tree_match: self.tree_match,
            lockfile_digest_match: self.lockfile_digest_match,
            checkout_clean: self.checkout_clean,
            observation_stable: self.observation_stable,
            ready: self.ready,
            blocking_codes: self.blocking_codes@,
        }
    }
}

impl LocalInstallSourcePreflightReceipt {
    pub fn schema_version(&self) -> (version: u8)
        ensures
            version == self@.schema_version,
    {
        self.schema_version
    }

    pub fn expected_source_digest(&self) -> (digest: &Sha256Digest)
        ensures
            digest@ == self@.expected_source_digest,
    {
        &self.expected_source_digest
    }

    pub fn observed_project(&self) -> (project: LocalInstallSourceProjectDisposition)
        ensures
            project == self@.observed_project,
    {
        self.observed_project
    }

    pub fn commit_match(&self) -> (r: bool)
        ensures
            r == self@.commit_match,
    {
        self.commit_match
    }

    pub fn tree_match(&self) -> (r: bool)
        ensures
            r == self@.tree_match,
    {
        self.tree_match
    }

    pub fn lockfile_digest_match(&self) -> (r: bool)
        ensures
            r == self@.lockfile_digest_match,
    {
        self.lockfile_digest_match
    }

    pub fn checkout_clean(&self) -> (r: bool)
        ensures
            r == self@.checkout_clean,
    {
        self.checkout_clean
    }

    pub fn observation_stable(&self) -> (r: bool)
        ensures
            r == self@.observation_stable,
    {
        self.observation_stable
    }

    pub fn ready(&self) -> (r: bool)
        ensures
            r == self@.ready,
    {
        self.ready
    }

    pub fn blocking_codes(&self) -> (codes: &[LocalInstallSourceBlockingCode])
        ensures
            codes@ == self@.blocking_codes,
    {
        self.blocking_codes.as_slice()
    }

    pub fn same_as(&self, other: &Self) -> (r: bool)
        ensures
            r == (self@ == other@),
    {
        if self.schema_version != other.schema_version || !self.expected_source_digest.same_as(
            &other.expected_source_digest,
        ) || self.observed_project != other.observed_project || self.commit_match
            != other.commit_match || self.tree_match != other.tree_match
            || self.lockfile_digest_match != other.lockfile_digest_match || self.checkout_clean
            != other.checkout_clean || self.observation_stable != other.observation_stable
            || self.ready != other.ready || self.blocking_codes.len()
            != other.blocking_codes.len() {
            return false;
        }
        let mut i: usize = 0;
        while i < self.blocking_codes.len()
            invariant
                i <= self.blocking_codes@.len(),
                self.blocking_codes@.len() == other.blocking_codes@.len(),
                forall|k: int| 0 <= k < i ==> self.blocking_codes@[k] == other.blocking_codes@[k],
            decreases self.blocking_codes@.len() - i,
        {
            if self.blocking_codes[i] != other.blocking_codes[i] {
                assert(self@.blocking_codes[i as int] != other@.blocking_codes[i as int]);
                return false;
            }
            i += 1;
        }
        assert(self@.blocking_codes =~= other@.blocking_codes);
        true
    }
}

#[derive(Debug, Clone, Copy, PartialEq, Eq, Structural)]
pub enum LockSnapshotError {
    Unsafe,
    Unknown,
    Changed,
}

/// Why the checkout could not be observed.
#[derive(Debug, Clone, Copy, PartialEq, Eq, Structural)]
pub enum ProjectCheckoutObservationErrorKind {
    SourceChanged,
    NotWorktree,
    BareRepository,
    UnsafePath,
    Unavailable,
    InvalidOutput,
}

/// What Git reported of a checkout.
#[derive(Debug, PartialEq, Eq)]
pub struct ProjectCheckoutObservation {
    pub materialization_id: Sha256Digest,
    pub source_ambiguous: bool,
    pub primary_project: Option<String>,
    pub commit: CommitId,
    pub tree: GitTreeId,
    pub tracked_changes_present: bool,
    pub untracked_entry_count: u64,
}

pub struct CheckoutView {
    pub materialization_id: Seq<char>,
    pub source_ambiguous: bool,
    pub primary_project: Option<Seq<char>>,
    pub commit: Seq<char>,
    pub tree: Seq<char>,
    pub tracked_changes_present: bool,
    pub untracked_entry_count: u64,
}

impl View for ProjectCheckoutObservation {
    type V = CheckoutView;

    open spec fn view(&self) -> CheckoutView {
        CheckoutView {
            materialization_id: self.materialization_id@,
            source_ambiguous: self.source_ambiguous,
            primary_project: outcome::option_view(self.primary_project),
            commit: self.commit@,
            tree: self.tree@,
            tracked_changes_present: self.tracked_changes_present,
            untracked_entry_count: self.untracked_entry_count,
        }
    }
}

/// The `width` low bytes of a number, highest first.
pub open spec fn be_bytes(value: nat, width: nat) -> Seq<u8>
    decreases width,
{
    if width == 0 {
        Seq::empty()
    } else {
        be_bytes(value / 256, (width - 1) as nat).push((value % 256) as u8)
    }
}

fn append_be(bytes: &mut Vec<u8>, value: u64, width: usize)
    ensures
        final(bytes)@ == old(bytes)@ + be_bytes(value as nat, width as nat),
    decreases width,
{
    let ghost before = bytes@;
    if width > 0 {
        append_be(bytes, value / 256, width - 1);
        bytes.push((value % 256) as u8);
    }
    assert(bytes@ =~= before + be_bytes(value as nat, width as nat));
}

/// The bytes that identify a materialized checkout: a domain, then device,
/// inode and owner of its root.
pub open spec fn materialization_bytes(root: FileStat) -> Seq<u8> {
    vstd::utf8::encode_utf8("smolrunner-project-materialization-v1\0"@) + be_bytes(
        root.device as nat,
        8,
    ) + be_bytes(root.inode as nat, 8) + be_bytes(root.owner as nat, 4)
}

/// The identity of a materialized checkout.
pub fn materialization_id(root: &FileStat) -> (id: Sha256Digest)
    ensures
        id@ == artifact::digest_text(materialization_bytes(*root)),
{
    let domain = "smolrunner-project-materialization-v1\0";
    let mut bytes = vstd::slice::slice_to_vec(domain.as_bytes());
    append_be(&mut bytes, root.device, 8);
    append_be(&mut bytes, root.inode, 8);
    append_be(&mut bytes, root.owner as u64, 4);
    assert(bytes@ =~= materialization_bytes(*root));
    Sha256Digest::of_bytes(bytes.as_slice())
}

/// One stable reading of a checkout root and its lockfile.
#[derive(Debug)]
pub struct LockSnapshot {
    materialization_id: Sha256Digest,
    root: FileStat,
    lock: FileStat,
    digest: Sha256Digest,
}

pub struct LockView {
    pub materialization_id: Seq<char>,
    pub root: FileStat,
    pub lock: FileStat,
    pub digest: Seq<char>,
}

impl View for LockSnapshot {
    type V = LockView;

    closed spec fn view(&self) -> LockView {
        LockView {
            materialization_id: self.materialization_id@,
            root: self.root,
            lock: self.lock,
            digest: self.digest@,
        }
    }
}

/// What was read around the lockfile.
pub struct LockReadings<'a> {
    pub root_before: FileStat,
    pub lock_before: FileStat,
    /// At most one byte more than the bound.
    pub bytes: &'a [u8],
    pub lock_after: FileStat,
    pub root_after: FileStat,
}

/// The checkout root is a directory of this owner that nobody else can write
/// to.
pub open spec fn is_checkout_root(root: FileStat, uid: u32, gid: u32) -> bool {
    root.spec_is_directory() && root.owner == uid && root.group == gid
        && !root.spec_foreign_writable()
}

/// The lockfile is a bounded single-link regular file of this owner that nobody
/// else can write to.
pub open spec fn is_lockfile(lock: FileStat, uid: u32, gid: u32) -> bool {
    lock.spec_is_regular() && lock.links == 1 && lock.owner == uid && lock.group == gid
        && !lock.spec_foreign_writable() && lock.size <= MAX_LOCAL_INSTALL_CARGO_LOCK_BYTES
}

/// Refuses a checkout root that is not the caller's own.
pub fn validate_checkout_root(root: &FileStat, uid: u32, gid: u32) -> (r: Result<
    (),
    LockSnapshotError,
>)
    ensures
        r == (if is_checkout_root(*root, uid, gid) {
            Ok::<(), LockSnapshotError>(())
        } else {
            Err(LockSnapshotError::Unsafe)
        }),
{
    if !root.is_directory() || root.owner != uid || root.group != gid || root.foreign_writable() {
        return Err(LockSnapshotError::Unsafe);
    }
    Ok(())
}

/// Refuses a lockfile that is not the caller's own bounded regular file.
pub fn validate_lockfile(lock: &FileStat, uid: u32, gid: u32) -> (r: Result<(), LockSnapshotError>)
    ensures
        r == (if is_lockfile(*lock, uid, gid) {
            Ok::<(), LockSnapshotError>(())
        } else {
            Err(LockSnapshotError::Unsafe)
        }),
{
    if !lock.is_regular() || lock.links != 1 || lock.owner != uid || lock.group != gid
        || lock.foreign_writable() || lock.size > MAX_LOCAL_INSTALL_CARGO_LOCK_BYTES as i64 {
        return Err(LockSnapshotError::Unsafe);
    }
    Ok(())
}

/// What [`lock_snapshot`] answers.
pub open spec fn snapshot_of(
    readings: LockReadings<'_>,
    uid: u32,
    gid: u32,
) -> Result<LockView, LockSnapshotError> {
    if !is_checkout_root(readings.root_before, uid, gid) || !is_lockfile(
        readings.lock_before,
        uid,
        gid,
    ) || readings.bytes@.len() > MAX_LOCAL_INSTALL_CARGO_LOCK_BYTES {
        Err(LockSnapshotError::Unsafe)
    } else if readings.lock_before != readings.lock_after || readings.root_before
        != readings.root_after {
        Err(LockSnapshotError::Changed)
    } else {
        Ok(
            LockView {
                materialization_id: artifact::digest_text(
                    materialization_bytes(readings.root_after),
                ),
                root: readings.root_after,
                lock: readings.lock_after,
                digest: artifact::digest_text(readings.bytes@),
            },
        )
    }
}

/// Seals what was read of a lockfile, if it was read whole and nothing changed
/// meanwhile.
pub fn lock_snapshot(readings: &LockReadings<'_>, uid: u32, gid: u32) -> (r: Result<
    LockSnapshot,
    LockSnapshotError,
>)
    ensures
        match r {
            Ok(snapshot) => snapshot_of(*readings, uid, gid) == Ok::<LockView, LockSnapshotError>(
                snapshot@,
            ),
            Err(e) => snapshot_of(*readings, uid, gid) == Err::<LockView, LockSnapshotError>(e),
        },
{
    validate_checkout_root(&readings.root_before, uid, gid)?;
    validate_lockfile(&readings.lock_before, uid, gid)?;
    if readings.bytes.len() > MAX_LOCAL_INSTALL_CARGO_LOCK_BYTES {
        return Err(LockSnapshotError::Unsafe);
    }
    if readings.lock_before != readings.lock_after || readings.root_before != readings.root_after {
        return Err(LockSnapshotError::Changed);
    }
    Ok(
        LockSnapshot {
            materialization_id: materialization_id(&readings.root_after),
            root: readings.root_after,
            lock: readings.lock_after,
            digest: Sha256Digest::of_bytes(readings.bytes),
        },
    )
}

/// Whether a checkout path can be opened directory by directory.
pub fn valid_checkout_path(path: &str) -> (r: bool)
    ensures
        r == paths::is_descending(path@),
{
    paths::descending(path)
}

pub open spec fn directory_open_error(refusal: OpenRefusal) -> LockSnapshotError {
    match refusal {
        OpenRefusal::Missing
        | OpenRefusal::SymbolicLink
        | OpenRefusal::NotADirectory => LockSnapshotError::Unsafe,
        _ => LockSnapshotError::Unknown,
    }
}

/// What a refusal to open a directory of the checkout path means.
pub fn map_directory_open(refusal: OpenRefusal) -> (e: LockSnapshotError)
    ensures
        e == directory_open_error(refusal),
{
    match refusal {
        OpenRefusal::Missing
        | OpenRefusal::SymbolicLink
        | OpenRefusal::NotADirectory => LockSnapshotError::Unsafe,
        _ => LockSnapshotError::Unknown,
    }
}

pub open spec fn lock_open_error(refusal: OpenRefusal) -> LockSnapshotError {
    if refusal == OpenRefusal::Other {
        LockSnapshotError::Unknown
    } else {
        LockSnapshotError::Unsafe
    }
}

/// What a refusal to open the lockfile means.
pub fn map_lock_open(refusal: OpenRefusal) -> (e: LockSnapshotError)
    ensures
        e == lock_open_error(refusal),
{
    if refusal == OpenRefusal::Other {
        LockSnapshotError::Unknown
    } else {
        LockSnapshotError::Unsafe
    }
}

/// How far reading the source came: the lockfile first, then the checkout, then
/// the lockfile again.
pub enum SourceReadings {
    LockRefused(LockSnapshotError),
    CheckoutRefused(LockSnapshot, ProjectCheckoutObservationErrorKind),
    LockRefusedAgain(LockSnapshot, ProjectCheckoutObservation, LockSnapshotError),
    Read(LockSnapshot, ProjectCheckoutObservation, LockSnapshot),
}

/// A code where it applies.
pub open spec fn blocked_by(
    applies: bool,
    code: LocalInstallSourceBlockingCode,
) -> Seq<LocalInstallSourceBlockingCode> {
    if applies {
        seq![code]
    } else {
        Seq::empty()
    }
}

pub open spec fn project_state(checkout: CheckoutView) -> LocalInstallSourceProjectDisposition {
    if checkout.source_ambiguous {
        LocalInstallSourceProjectDisposition::Ambiguous
    } else if checkout.primary_project == Some("github.com/teamleaderleo/smolrunner"@) {
        LocalInstallSourceProjectDisposition::ExactSmolrunner
    } else {
        LocalInstallSourceProjectDisposition::Other
    }
}

/// What a source that held still amounts to: every mismatch is named.
pub open spec fn stable_view(
    expected: SourceView,
    checkout: CheckoutView,
    lock: LockView,
) -> SourceReceiptView {
    let observed_project = project_state(checkout);
    let commit_match = checkout.commit == expected.commit;
    let tree_match = checkout.tree == expected.tree;
    let lockfile_digest_match = lock.digest == expected.cargo_lock_digest;
    let checkout_clean = !checkout.tracked_changes_present && checkout.untracked_entry_count == 0;
    let blocking_codes = blocked_by(
        observed_project != LocalInstallSourceProjectDisposition::ExactSmolrunner,
        LocalInstallSourceBlockingCode::WrongProject,
    ) + blocked_by(!commit_match, LocalInstallSourceBlockingCode::CommitMismatch) + blocked_by(
        !tree_match,
        LocalInstallSourceBlockingCode::TreeMismatch,
    ) + blocked_by(!lockfile_digest_match, LocalInstallSourceBlockingCode::LockfileMismatch)
        + blocked_by(!checkout_clean, LocalInstallSourceBlockingCode::CheckoutDirty);
    SourceReceiptView {
        schema_version: LOCAL_INSTALL_SOURCE_PREFLIGHT_SCHEMA_VERSION,
        expected_source_digest: expected.digest,
        observed_project,
        commit_match,
        tree_match,
        lockfile_digest_match,
        checkout_clean,
        observation_stable: true,
        ready: blocking_codes.len() == 0,
        blocking_codes,
    }
}

/// What a source that could not be held still amounts to: one cause, nothing
/// matched.
pub open spec fn root_cause_view(
    expected: SourceView,
    code: LocalInstallSourceBlockingCode,
) -> SourceReceiptView {
    SourceReceiptView {
        schema_version: LOCAL_INSTALL_SOURCE_PREFLIGHT_SCHEMA_VERSION,
        expected_source_digest: expected.digest,
        observed_project: LocalInstallSourceProjectDisposition::Unknown,
        commit_match: false,
        tree_match: false,
        lockfile_digest_match: false,
        checkout_clean: false,
        observation_stable: false,
        ready: false,
        blocking_codes: seq![code],
    }
}

pub open spec fn first_lock_code(e: LockSnapshotError) -> LocalInstallSourceBlockingCode {
    match e {
        LockSnapshotError::Unsafe => LocalInstallSourceBlockingCode::UnsafeSource,
        LockSnapshotError::Unknown => LocalInstallSourceBlockingCode::UnknownSource,
        LockSnapshotError::Changed => LocalInstallSourceBlockingCode::SourceChanged,
    }
}

/// A lockfile that was readable before and is not any more has changed.
pub open spec fn second_lock_code(e: LockSnapshotError) -> LocalInstallSourceBlockingCode {
    if e == LockSnapshotError::Unknown {
        LocalInstallSourceBlockingCode::UnknownSource
    } else {
        LocalInstallSourceBlockingCode::SourceChanged
    }
}

pub open spec fn checkout_code(
    kind: ProjectCheckoutObservationErrorKind,
) -> LocalInstallSourceBlockingCode {
    match kind {
        ProjectCheckoutObservationErrorKind::SourceChanged =>
            LocalInstallSourceBlockingCode::SourceChanged,
        ProjectCheckoutObservationErrorKind::Unavailable
        | ProjectCheckoutObservationErrorKind::InvalidOutput =>
            LocalInstallSourceBlockingCode::UnknownSource,
        _ => LocalInstallSourceBlockingCode::UnsafeSource,
    }
}

/// What [`observe_local_install_source_preflight`] answers.
pub open spec fn source_receipt(
    expected: SourceView,
    readings: SourceReadings,
) -> SourceReceiptView {
    match readings {
        SourceReadings::LockRefused(e) => root_cause_view(expected, first_lock_code(e)),
        SourceReadings::CheckoutRefused(_, kind) => root_cause_view(expected, checkout_code(kind)),
        SourceReadings::LockRefusedAgain(_, _, e) => root_cause_view(
            expected,
            second_lock_code(e),
        ),
        SourceReadings::Read(first, checkout, second) => if first@ != second@
            || first@.materialization_id != checkout@.materialization_id {
            root_cause_view(expected, LocalInstallSourceBlockingCode::SourceChanged)
        } else {
            stable_view(expected, checkout@, second@)
        },
    }
}

impl LockSnapshot {
    fn same_as(&self, other: &Self) -> (r: bool)
        ensures
            r == (self@ == other@),
    {
        self.materialization_id.same_as(&other.materialization_id) && self.root == other.root
            && self.lock == other.lock && self.digest.same_as(&other.digest)
    }
}

fn root_cause_receipt(
    expected: &LocalInstallSourceIdentity,
    code: LocalInstallSourceBlockingCode,
) -> (receipt: LocalInstallSourcePreflightReceipt)
    ensures
        receipt@ == root_cause_view(expected@, code),
{
    let mut blocking_codes: Vec<LocalInstallSourceBlockingCode> = Vec::new();
    blocking_codes.push(code);
    assert(blocking_codes@ =~= seq![code]);
    LocalInstallSourcePreflightReceipt {
        schema_version: LOCAL_INSTALL_SOURCE_PREFLIGHT_SCHEMA_VERSION,
        expected_source_digest: expected.digest().clone(),
        observed_project: LocalInstallSourceProjectDisposition::Unknown,
        commit_match: false,
        tree_match: false,
        lockfile_digest_match: false,
        checkout_clean: false,
        observation_stable: false,
        ready: false,
        blocking_codes,
    }
}

fn add_code(
    codes: &mut Vec<LocalInstallSourceBlockingCode>,
    applies: bool,
    code: LocalInstallSourceBlockingCode,
)
    ensures
        final(codes)@ == old(codes)@ + blocked_by(applies, code),
{
    let ghost before = codes@;
    if applies {
        codes.push(code);
    }
    assert(codes@ =~= before + blocked_by(applies, code));
}

fn stable_receipt(
    expected: &LocalInstallSourceIdentity,
    checkout: &ProjectCheckoutObservation,
    lock: &LockSnapshot,
) -> (receipt: LocalInstallSourcePreflightReceipt)
    ensures
        receipt@ == stable_view(expected@, checkout@, lock@),
{
    let exact = match &checkout.primary_project {
        Some(project) => text::same_text(
            project.as_str(),
            "github.com/teamleaderleo/smolrunner",
        ),
        None => false,
    };
    let observed_project = if checkout.source_ambiguous {
        LocalInstallSourceProjectDisposition::Ambiguous
    } else if exact {
        LocalInstallSourceProjectDisposition::ExactSmolrunner
    } else {
        LocalInstallSourceProjectDisposition::Other
    };
    let commit_match = text::same_text(checkout.commit.as_str(), expected.commit().as_str());
    let tree_match = text::same_text(checkout.tree.as_str(), expected.tree().as_str());
    let lockfile_digest_match = lock.digest.same_as(expected.cargo_lock_digest());
    let checkout_clean = !checkout.tracked_changes_present && checkout.untracked_entry_count == 0;
    let mut blocking_codes: Vec<LocalInstallSourceBlockingCode> = Vec::new();
    add_code(
        &mut blocking_codes,
        observed_project != LocalInstallSourceProjectDisposition::ExactSmolrunner,
        LocalInstallSourceBlockingCode::WrongProject,
    );
    add_code(&mut blocking_codes, !commit_match, LocalInstallSourceBlockingCode::CommitMismatch);
    add_code(&mut blocking_codes, !tree_match, LocalInstallSourceBlockingCode::TreeMismatch);
    add_code(
        &mut blocking_codes,
        !lockfile_digest_match,
        LocalInstallSourceBlockingCode::LockfileMismatch,
    );
    add_code(&mut blocking_codes, !checkout_clean, LocalInstallSourceBlockingCode::CheckoutDirty);
    assert(blocking_codes@ =~= stable_view(expected@, checkout@, lock@).blocking_codes);
    LocalInstallSourcePreflightReceipt {
        schema_version: LOCAL_INSTALL_SOURCE_PREFLIGHT_SCHEMA_VERSION,
        expected_source_digest: expected.digest().clone(),
        observed_project,
        commit_match,
        tree_match,
        lockfile_digest_match,
        checkout_clean,
        observation_stable: true,
        ready: blocking_codes.len() == 0,
        blocking_codes,
    }
}

/// Compose one exact no-follow `Cargo.lock` proof around the existing fixed Git checkout observer.
///
/// The lockfile is read before and after the complete Git observation. Both lock snapshots bind
/// to the checkout observer's existing materialization identity. Any object, metadata, or digest
/// drift becomes `source_changed`. No raw path, Git output, lockfile content, UID/GID, device/inode,
/// or operating-system error enters the returned receipt.
pub fn observe_local_install_source_preflight(
    expected: &LocalInstallSourceIdentity,
    readings: &SourceReadings,
) -> (receipt: LocalInstallSourcePreflightReceipt)
    ensures
        receipt@ == source_receipt(expected@, *readings),
{
    match readings {
        SourceReadings::LockRefused(e) => {
            let code = match e {
                LockSnapshotError::Unsafe => LocalInstallSourceBlockingCode::UnsafeSource,
                LockSnapshotError::Unknown => LocalInstallSourceBlockingCode::UnknownSource,
                LockSnapshotError::Changed => LocalInstallSourceBlockingCode::SourceChanged,
            };
            root_cause_receipt(expected, code)
        },
        SourceReadings::CheckoutRefused(_, kind) => {
            let code = match kind {
                ProjectCheckoutObservationErrorKind::SourceChanged =>
                    LocalInstallSourceBlockingCode::SourceChanged,
                ProjectCheckoutObservationErrorKind::NotWorktree
                | ProjectCheckoutObservationErrorKind::BareRepository
                | ProjectCheckoutObservationErrorKind::UnsafePath =>
                    LocalInstallSourceBlockingCode::UnsafeSource,
                ProjectCheckoutObservationErrorKind::Unavailable
                | ProjectCheckoutObservationErrorKind::InvalidOutput =>
                    LocalInstallSourceBlockingCode::UnknownSource,
            };
            root_cause_receipt(expected, code)
        },
        SourceReadings::LockRefusedAgain(_, _, e) => {
            let code = match e {
                LockSnapshotError::Unsafe
                | LockSnapshotError::Changed => LocalInstallSourceBlockingCode::SourceChanged,
                LockSnapshotError::Unknown => LocalInstallSourceBlockingCode::UnknownSource,
            };
            root_cause_receipt(expected, code)
        },
        SourceReadings::Read(first, checkout, second) => {
            if !first.same_as(second) || !first.materialization_id.same_as(
                &checkout.materialization_id,
            ) {
                return root_cause_receipt(expected, LocalInstallSourceBlockingCode::SourceChanged);
            }
            stable_receipt(expected, checkout, second)
        },
    }
}

/// A source is ready exactly when it held still and nothing blocks; then the
/// project, the commit, the tree and the lockfile are the expected ones and the
/// checkout is clean.
pub proof fn law_ready_source_is_exact(expected: SourceView, readings: SourceReadings)
    ensures
        ({
            let receipt = source_receipt(expected, readings);
            &&& receipt.ready <==> receipt.blocking_codes.len() == 0
            &&& receipt.ready <==> {
                &&& receipt.observation_stable
                &&& receipt.observed_project
                    == LocalInstallSourceProjectDisposition::ExactSmolrunner
                &&& receipt.commit_match
                &&& receipt.tree_match
                &&& receipt.lockfile_digest_match
                &&& receipt.checkout_clean
            }
            &&& receipt.ready ==> {
                &&& readings matches SourceReadings::Read(first, checkout, second)
                &&& first@ == second@
                &&& checkout@.commit == expected.commit
                &&& checkout@.tree == expected.tree
                &&& second@.digest == expected.cargo_lock_digest
                &&& checkout@.materialization_id == second@.materialization_id
            }
        }),
{
}

/// A lockfile that differs between the two readings, in bytes or in metadata,
/// is a changed source, whatever else was seen.
pub proof fn law_lock_drift_is_source_changed(
    expected: SourceView,
    first: LockSnapshot,
    checkout: ProjectCheckoutObservation,
    second: LockSnapshot,
)
    requires
        first@ != second@,
    ensures
        source_receipt(expected, SourceReadings::Read(first, checkout, second)) == root_cause_view(
            expected,
            LocalInstallSourceBlockingCode::SourceChanged,
        ),
{
}

proof fn lemma_block_step(
    before: Seq<LocalInstallSourceBlockingCode>,
    applies: bool,
    code: LocalInstallSourceBlockingCode,
    after: Seq<LocalInstallSourceBlockingCode>,
)
    requires
        after == before + blocked_by(applies, code),
    ensures
        forall|other: LocalInstallSourceBlockingCode|
            after.contains(other) <==> before.contains(other) || (applies && code == other),
{
    assert forall|other: LocalInstallSourceBlockingCode|
        after.contains(other) <==> before.contains(other) || (applies && code == other) by {
        if before.contains(other) {
            let i = choose|i: int| 0 <= i < before.len() && before[i] == other;
            assert(after[i] == other);
        }
        if applies {
            assert(after[before.len() as int] == code);
        }
        if after.contains(other) {
            let i = choose|i: int| 0 <= i < after.len() && after[i] == other;
            if i < before.len() {
                assert(before[i] == other);
            }
        }
    }
}

/// A source that was read stably is blocked for being another project's, for
/// another commit, tree or lockfile than expected, and for changes or untracked
/// files in the checkout; and for nothing else.
pub proof fn law_sources_are_blocked_for_cause(
    expected: SourceView,
    first: LockSnapshot,
    checkout: ProjectCheckoutObservation,
    second: LockSnapshot,
    code: LocalInstallSourceBlockingCode,
)
    requires
        first@ == second@,
        first@.materialization_id == checkout@.materialization_id,
    ensures
        ({
            let receipt = source_receipt(expected, SourceReadings::Read(first, checkout, second));
            let own = !checkout@.source_ambiguous && checkout@.primary_project == Some(
                "github.com/teamleaderleo/smolrunner"@,
            );
            let clean = !checkout@.tracked_changes_present && checkout@.untracked_entry_count == 0;
            &&& receipt.blocking_codes.contains(code) <==> match code {
                LocalInstallSourceBlockingCode::WrongProject => !own,
                LocalInstallSourceBlockingCode::CommitMismatch => checkout@.commit
                    != expected.commit,
                LocalInstallSourceBlockingCode::TreeMismatch => checkout@.tree != expected.tree,
                LocalInstallSourceBlockingCode::LockfileMismatch => second@.digest
                    != expected.cargo_lock_digest,
                LocalInstallSourceBlockingCode::CheckoutDirty => !clean,
                _ => false,
            }
            &&& receipt.ready <==> own && clean && checkout@.commit == expected.commit
                && checkout@.tree == expected.tree && second@.digest == expected.cargo_lock_digest
            &&& receipt.schema_version == 1
            &&& receipt.expected_source_digest == expected.digest
            &&& receipt.observation_stable
            &&& receipt.observed_project == (if checkout@.source_ambiguous {
                LocalInstallSourceProjectDisposition::Ambiguous
            } else if own {
                LocalInstallSourceProjectDisposition::ExactSmolrunner
            } else {
                LocalInstallSourceProjectDisposition::Other
            })
        }),
{
    lemma_stable_codes(expected, checkout@, second@, code);
}

proof fn lemma_stable_codes(
    expected: SourceView,
    checkout: CheckoutView,
    lock: LockView,
    code: LocalInstallSourceBlockingCode,
)
    ensures
        stable_view(expected, checkout, lock).blocking_codes.contains(code) <==> {
            ||| code == LocalInstallSourceBlockingCode::WrongProject && project_state(
                checkout,
            ) != LocalInstallSourceProjectDisposition::ExactSmolrunner
            ||| code == LocalInstallSourceBlockingCode::CommitMismatch && checkout.commit != expected.commit
            ||| code == LocalInstallSourceBlockingCode::TreeMismatch && checkout.tree != expected.tree
            ||| code == LocalInstallSourceBlockingCode::LockfileMismatch && lock.digest != expected.cargo_lock_digest
            ||| code == LocalInstallSourceBlockingCode::CheckoutDirty && !(
                !checkout.tracked_changes_present && checkout.untracked_entry_count == 0
            )
        },
{
    let none = Seq::<LocalInstallSourceBlockingCode>::empty();
    let s0 = blocked_by(
        project_state(checkout) != LocalInstallSourceProjectDisposition::ExactSmolrunner,
        LocalInstallSourceBlockingCode::WrongProject,
    );
    assert(none + s0 =~= s0);
    lemma_block_step(
        none,
        project_state(checkout) != LocalInstallSourceProjectDisposition::ExactSmolrunner,
        LocalInstallSourceBlockingCode::WrongProject,
        s0,
    );
    let s1 = s0 + blocked_by(
        checkout.commit != expected.commit,
        LocalInstallSourceBlockingCode::CommitMismatch,
    );
    lemma_block_step(
        s0,
        checkout.commit != expected.commit,
        LocalInstallSourceBlockingCode::CommitMismatch,
        s1,
    );
    let s2 = s1 + blocked_by(
        checkout.tree != expected.tree,
        LocalInstallSourceBlockingCode::TreeMismatch,
    );
    lemma_block_step(
        s1,
        checkout.tree != expected.tree,
        LocalInstallSourceBlockingCode::TreeMismatch,
        s2,
    );
    let s3 = s2 + blocked_by(
        lock.digest != expected.cargo_lock_digest,
        LocalInstallSourceBlockingCode::LockfileMismatch,
    );
    lemma_block_step(
        s2,
        lock.digest != expected.cargo_lock_digest,
        LocalInstallSourceBlockingCode::LockfileMismatch,
        s3,
    );
    let s4 = s3 + blocked_by(
        !(!checkout.tracked_changes_present && checkout.untracked_entry_count == 0),
        LocalInstallSourceBlockingCode::CheckoutDirty,
    );
    lemma_block_step(
        s3,
        !(!checkout.tracked_changes_present && checkout.untracked_entry_count == 0),
        LocalInstallSourceBlockingCode::CheckoutDirty,
        s4,
    );
    assert(stable_view(expected, checkout, lock).blocking_codes == s4);
}

/// What could not be read blocks for its own cause alone: an unsafe lockfile or
/// checkout, an unknown one, or one that changed between the two readings.
pub proof fn law_unread_sources_are_blocked_for_one_cause(
    expected: SourceView,
    readings: SourceReadings,
)
    requires
        !(readings is Read),
    ensures
        ({
            let receipt = source_receipt(expected, readings);
            &&& !receipt.ready
            &&& !receipt.observation_stable
            &&& receipt.expected_source_digest == expected.digest
            &&& receipt.blocking_codes == seq![
                match readings {
                    SourceReadings::LockRefused(LockSnapshotError::Unsafe) =>
                        LocalInstallSourceBlockingCode::UnsafeSource,
                    SourceReadings::LockRefused(LockSnapshotError::Unknown) =>
                        LocalInstallSourceBlockingCode::UnknownSource,
                    SourceReadings::LockRefused(LockSnapshotError::Changed) =>
                        LocalInstallSourceBlockingCode::SourceChanged,
                    SourceReadings::LockRefusedAgain(_, _, LockSnapshotError::Unknown) =>
                        LocalInstallSourceBlockingCode::UnknownSource,
                    SourceReadings::LockRefusedAgain(_, _, _) =>
                        LocalInstallSourceBlockingCode::SourceChanged,
                    SourceReadings::CheckoutRefused(
                        _,
                        ProjectCheckoutObservationErrorKind::SourceChanged,
                    ) => LocalInstallSourceBlockingCode::SourceChanged,
                    SourceReadings::CheckoutRefused(
                        _,
                        ProjectCheckoutObservationErrorKind::Unavailable,
                    )
                    | SourceReadings::CheckoutRefused(
                        _,
                        ProjectCheckoutObservationErrorKind::InvalidOutput,
                    ) => LocalInstallSourceBlockingCode::UnknownSource,
                    _ => LocalInstallSourceBlockingCode::UnsafeSource,
                },
            ]
        }),
{
}

/// A lockfile is read exactly when it and the checkout root are the runner's
/// and closed to others, the lockfile is a plain file of one name and at most
/// four mebibytes, and neither changed meanwhile.
pub proof fn law_lockfiles_are_read_stably(readings: LockReadings<'_>, uid: u32, gid: u32)
    ensures
        ({
            let root = readings.root_before;
            let lock = readings.lock_before;
            let sound = {
                &&& root.mode & 0o170000 == 0o040000 && root.mode & 0o022 == 0
                &&& root.owner == uid && root.group == gid
                &&& lock.mode & 0o170000 == 0o100000 && lock.mode & 0o022 == 0
                &&& lock.owner == uid && lock.group == gid && lock.links == 1
                &&& lock.size <= 4_194_304 && readings.bytes@.len() <= 4_194_304
            };
            let same = readings.lock_after == lock && readings.root_after == root;
            &&& snapshot_of(readings, uid, gid) is Ok <==> sound && same
            &&& !sound ==> snapshot_of(readings, uid, gid) == Err::<LockView, _>(
                LockSnapshotError::Unsafe,
            )
            &&& sound && !same ==> snapshot_of(readings, uid, gid) == Err::<LockView, _>(
                LockSnapshotError::Changed,
            )
            &&& snapshot_of(readings, uid, gid) matches Ok(view) ==> {
                &&& view.root == root
                &&& view.lock == lock
                &&& view.digest == artifact::digest_text(readings.bytes@)
                &&& view.materialization_id == artifact::digest_text(materialization_bytes(root))
            }
        }),
{
}

/// What cannot be opened is unsafe where a link or nothing stands in its place,
/// and unknown where the reason is another.
pub proof fn law_refused_sources_are_told_apart(refusal: OpenRefusal)
    ensures
        refusal == OpenRefusal::Missing || refusal == OpenRefusal::SymbolicLink || refusal
            == OpenRefusal::NotADirectory ==> directory_open_error(refusal)
            == LockSnapshotError::Unsafe && lock_open_error(refusal) == LockSnapshotError::Unsafe,
        refusal == OpenRefusal::Other ==> directory_open_error(refusal)
            == LockSnapshotError::Unknown && lock_open_error(refusal) == LockSnapshotError::Unknown,
{
}

/// The bytes that a checkout is known by determine the device, the inode and
/// the owner of its root.
pub proof fn law_materializations_are_of_one_root(a: FileStat, b: FileStat)
    ensures
        materialization_bytes(a) == materialization_bytes(b) <==> a.device == b.device && a.inode
            == b.inode && a.owner == b.owner,
{
    if materialization_bytes(a) == materialization_bytes(b) {
        let prefix = vstd::utf8::encode_utf8("smolrunner-project-materialization-v1\0"@);
        let n = prefix.len() as int;
        let x = materialization_bytes(a);
        let y = materialization_bytes(b);
        lemma_be_bytes(a.device as nat, b.device as nat, 8);
        lemma_be_bytes(a.inode as nat, b.inode as nat, 8);
        lemma_be_bytes(a.owner as nat, b.owner as nat, 4);
        assert(x.subrange(n, n + 8) =~= be_bytes(a.device as nat, 8));
        assert(y.subrange(n, n + 8) =~= be_bytes(b.device as nat, 8));
        assert(x.subrange(n + 8, n + 16) =~= be_bytes(a.inode as nat, 8));
        assert(y.subrange(n + 8, n + 16) =~= be_bytes(b.inode as nat, 8));
        assert(x.subrange(n + 16, n + 20) =~= be_bytes(a.owner as nat, 4));
        assert(y.subrange(n + 16, n + 20) =~= be_bytes(b.owner as nat, 4));
        lemma_reaches();
    }
}

/// How many values so many bytes tell apart.
spec fn reach(width: nat) -> nat
    decreases width,
{
    if width == 0 {
        1
    } else {
        256 * reach((width - 1) as nat)
    }
}

proof fn lemma_reaches()
    ensures
        reach(4) == 0x1_0000_0000,
        reach(8) == 0x1_0000_0000_0000_0000,
{
    reveal_with_fuel(reach, 9);
}

proof fn lemma_be_bytes(a: nat, b: nat, width: nat)
    ensures
        be_bytes(a, width).len() == width,
        be_bytes(b, width).len() == width,
        be_bytes(a, width) == be_bytes(b, width) && a < reach(width) && b < reach(width) ==> a == b,
    decreases width,
{
    if width > 0 {
        let before = (width - 1) as nat;
        lemma_be_bytes(a / 256, b / 256, before);
        if be_bytes(a, width) == be_bytes(b, width) && a < reach(width) && b < reach(width) {
            let x = be_bytes(a, width);
            let y = be_bytes(b, width);
            assert(x.drop_last() =~= be_bytes(a / 256, before));
            assert(y.drop_last() =~= be_bytes(b / 256, before));
            assert(x.last() == (a % 256) as u8 && y.last() == (b % 256) as u8);
        }
    }
}

} // verus!
