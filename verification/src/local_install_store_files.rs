//! The files and directories of a generation store: what each reading of the
//! filesystem amounts to, and the refusal it may meet.
//!
//! Nothing here touches the filesystem. Every function judges what was read.
use vstd::prelude::*;

use crate::artifact::{DigestStream, Sha256Digest};
use crate::artifact;
use crate::file_evidence;
use crate::file_evidence::{
    same_file_snapshot, same_object, DirectoryReadings, FileStat, OpenRefusal, OpenedEntry,
};
use crate::local_install_generation_store;
use crate::local_install_generation_store::{
    inspect_directory, inspect_private_file, is_generation_directory_name,
    is_operation_directory_name, is_retirement_directory_name, store_error, subject_error,
    verify_candidate_binary, LocalInstallGenerationStoreError,
    LocalInstallGenerationStoreErrorKind, StoreErrorView, BINARY_FILE, GENERATION_DOCUMENT,
};
use crate::local_install_store_observation::has_complete_entries;
use crate::local_install_store_observation;
use crate::outcome;
use crate::paths;
use crate::text;
use crate::text::same_bytes;

verus! {

pub open spec fn io(message: Seq<char>) -> StoreErrorView {
    local_install_generation_store::refusal(LocalInstallGenerationStoreErrorKind::Io, message)
}

pub open spec fn invalid_location(message: Seq<char>) -> StoreErrorView {
    local_install_generation_store::refusal(
        LocalInstallGenerationStoreErrorKind::InvalidLocation,
        message,
    )
}

/// A store error whose explanation names its subject in the middle.
fn enclosed_error(
    kind: LocalInstallGenerationStoreErrorKind,
    lead: &str,
    subject: &str,
    problem: &str,
) -> (e: LocalInstallGenerationStoreError)
    ensures
        e@ == local_install_generation_store::refusal(kind, lead@ + subject@ + problem@),
{
    let start = text::joined(lead, subject);
    subject_error(kind, start.as_str(), problem)
}

pub open spec fn not_inspected(subject: Seq<char>) -> StoreErrorView {
    io("could not inspect "@ + subject)
}

fn inspection_error(subject: &str) -> (e: LocalInstallGenerationStoreError)
    ensures
        e@ == not_inspected(subject@),
{
    subject_error(LocalInstallGenerationStoreErrorKind::Io, "could not inspect ", subject)
}

/// What a file whose metadata may be missing is judged to be.
pub open spec fn inspected_optional_file(
    stat: Option<FileStat>,
    owner: (u32, u32),
    mode: u32,
    size: Option<u64>,
    subject: Seq<char>,
) -> Result<FileStat, StoreErrorView> {
    match stat {
        None => Err(not_inspected(subject)),
        Some(found) => match local_install_generation_store::inspected_file(
            found,
            owner,
            mode,
            size,
            subject,
        ) {
            Err(e) => Err(e),
            Ok(_) => Ok(found),
        },
    }
}

/// The model of an answer that carries metadata.
pub open spec fn stat_view(r: Result<FileStat, LocalInstallGenerationStoreError>) -> Result<
    FileStat,
    StoreErrorView,
> {
    match r {
        Ok(stat) => Ok(stat),
        Err(e) => Err(e@),
    }
}

/// Checks a private file whose metadata may be missing.
pub fn inspect_optional_file(
    stat: Option<FileStat>,
    owner: (u32, u32),
    mode: u32,
    size: Option<u64>,
    subject: &str,
) -> (r: Result<FileStat, LocalInstallGenerationStoreError>)
    ensures
        stat_view(r) == inspected_optional_file(stat, owner, mode, size, subject@),
{
    match stat {
        None => Err(inspection_error(subject)),
        Some(found) => {
            inspect_private_file(&found, owner, mode, size, subject)?;
            Ok(found)
        },
    }
}

/// What a directory whose metadata may be missing is judged to be.
pub open spec fn inspected_optional_directory(
    stat: Option<FileStat>,
    expected_owner: Option<(u32, u32)>,
    exact_private: bool,
    subject: Seq<char>,
) -> Result<FileStat, StoreErrorView> {
    match stat {
        None => Err(not_inspected(subject)),
        Some(found) => match local_install_generation_store::inspected_directory(
            found,
            expected_owner,
            exact_private,
            subject,
        ) {
            Err(e) => Err(e),
            Ok(_) => Ok(found),
        },
    }
}

/// Checks a directory whose metadata may be missing.
pub fn inspect_optional_directory(
    stat: Option<FileStat>,
    expected_owner: Option<(u32, u32)>,
    exact_private: bool,
    subject: &str,
) -> (r: Result<FileStat, LocalInstallGenerationStoreError>)
    ensures
        stat_view(r) == inspected_optional_directory(
            stat,
            expected_owner,
            exact_private,
            subject@,
        ),
{
    match stat {
        None => Err(inspection_error(subject)),
        Some(found) => {
            inspect_directory(&found, expected_owner, exact_private, subject)?;
            Ok(found)
        },
    }
}

/// Why one entry on the way to a data directory is refused, if it is.
pub open spec fn data_entry_refusal(opened: OpenedEntry) -> Option<StoreErrorView> {
    match opened {
        OpenedEntry::Refused(OpenRefusal::SymbolicLink)
        | OpenedEntry::Refused(OpenRefusal::NotADirectory) => Some(
            local_install_generation_store::unsafe_filesystem(
                "the selected local-install data path is symlinked or invalid"@,
            ),
        ),
        OpenedEntry::Refused(_) => Some(
            invalid_location("the selected local-install data directory is unavailable"@),
        ),
        OpenedEntry::Opened(None) => Some(
            io("the selected local-install data path could not be inspected"@),
        ),
        OpenedEntry::Opened(Some(stat)) => if stat.spec_is_directory() {
            None
        } else {
            Some(
                local_install_generation_store::unsafe_filesystem(
                    "the selected local-install data path is not a directory"@,
                ),
            )
        },
    }
}

/// The first refusal on the way to a data directory.
pub open spec fn first_data_refusal(opened: Seq<OpenedEntry>) -> Option<StoreErrorView>
    decreases opened.len(),
{
    if opened.len() == 0 {
        None
    } else if data_entry_refusal(opened[0]) is Some {
        data_entry_refusal(opened[0])
    } else {
        first_data_refusal(opened.skip(1))
    }
}

/// What [`open_absolute_directory`] answers. The way has to hold no links, and
/// the directory has to be the owner's and nobody else's to write to.
pub open spec fn opened_absolute_directory(
    path: Seq<char>,
    owner: (u32, u32),
    readings: DirectoryReadings,
) -> Result<FileStat, StoreErrorView> {
    if !paths::is_upright(path) {
        Err(invalid_location("the selected local-install data directory is invalid"@))
    } else if !readings.root_opened {
        Err(io("the filesystem root could not be opened"@))
    } else {
        match first_data_refusal(readings.opened@) {
            Some(e) => Err(e),
            None => inspected_optional_directory(
                readings.directory,
                Some(owner),
                false,
                "local-install data path"@,
            ),
        }
    }
}

/// Judges one entry on the way to a data directory.
pub fn open_data_entry(opened: OpenedEntry) -> (r: Result<(), LocalInstallGenerationStoreError>)
    ensures
        match r {
            Ok(_) => data_entry_refusal(opened) is None,
            Err(e) => data_entry_refusal(opened) == Some(e@),
        },
{
    match opened {
        OpenedEntry::Refused(OpenRefusal::SymbolicLink)
        | OpenedEntry::Refused(OpenRefusal::NotADirectory) => Err(
            store_error(
                LocalInstallGenerationStoreErrorKind::UnsafeFilesystem,
                "the selected local-install data path is symlinked or invalid",
            ),
        ),
        OpenedEntry::Refused(_) => Err(
            store_error(
                LocalInstallGenerationStoreErrorKind::InvalidLocation,
                "the selected local-install data directory is unavailable",
            ),
        ),
        OpenedEntry::Opened(None) => Err(
            store_error(
                LocalInstallGenerationStoreErrorKind::Io,
                "the selected local-install data path could not be inspected",
            ),
        ),
        OpenedEntry::Opened(Some(stat)) => if stat.is_directory() {
            Ok(())
        } else {
            Err(
                store_error(
                    LocalInstallGenerationStoreErrorKind::UnsafeFilesystem,
                    "the selected local-install data path is not a directory",
                ),
            )
        },
    }
}

/// Judges an absolute directory that was opened one entry after the other,
/// following no links.
pub fn open_absolute_directory(path: &str, owner: (u32, u32), readings: &DirectoryReadings) -> (r:
    Result<FileStat, LocalInstallGenerationStoreError>)
    ensures
        stat_view(r) == opened_absolute_directory(path@, owner, *readings),
{
    if !paths::upright(path) {
        return Err(
            store_error(
                LocalInstallGenerationStoreErrorKind::InvalidLocation,
                "the selected local-install data directory is invalid",
            ),
        );
    }
    if !readings.root_opened {
        return Err(
            store_error(
                LocalInstallGenerationStoreErrorKind::Io,
                "the filesystem root could not be opened",
            ),
        );
    }
    let ghost all = readings.opened@;
    let mut i: usize = 0;
    assert(all.skip(0) =~= all);
    while i < readings.opened.len()
        invariant
            i <= readings.opened@.len(),
            all == readings.opened@,
            paths::is_upright(path@),
            readings.root_opened,
            first_data_refusal(all) == first_data_refusal(all.skip(i as int)),
        decreases readings.opened@.len() - i,
    {
        assert(all.skip(i as int)[0] == all[i as int]);
        assert(all.skip(i as int).skip(1) =~= all.skip(i as int + 1));
        open_data_entry(readings.opened[i])?;
        i += 1;
    }
    inspect_optional_directory(
        readings.directory,
        Some(owner),
        false,
        "local-install data path",
    )
}

/// What [`open_existing_file`] answers.
pub open spec fn opened_file(
    opened: OpenedEntry,
    owner: (u32, u32),
    mode: u32,
    subject: Seq<char>,
) -> Result<FileStat, StoreErrorView> {
    match opened {
        OpenedEntry::Refused(OpenRefusal::Missing) => Err(
            local_install_generation_store::recovery_required(subject + " is absent"@),
        ),
        OpenedEntry::Refused(OpenRefusal::Other) => Err(io(subject + " could not be opened"@)),
        OpenedEntry::Refused(_) => Err(
            local_install_generation_store::unsafe_filesystem(
                subject + " is symlinked or invalid"@,
            ),
        ),
        OpenedEntry::Opened(stat) => inspected_optional_file(stat, owner, mode, None, subject),
    }
}

/// Judges a private file that was opened without following links.
pub fn open_existing_file(opened: OpenedEntry, owner: (u32, u32), mode: u32, subject: &str) -> (r:
    Result<FileStat, LocalInstallGenerationStoreError>)
    ensures
        stat_view(r) == opened_file(opened, owner, mode, subject@),
{
    match opened {
        OpenedEntry::Refused(OpenRefusal::Missing) => Err(
            subject_error(
                LocalInstallGenerationStoreErrorKind::RecoveryRequired,
                subject,
                " is absent",
            ),
        ),
        OpenedEntry::Refused(OpenRefusal::Other) => Err(
            subject_error(
                LocalInstallGenerationStoreErrorKind::Io,
                subject,
                " could not be opened",
            ),
        ),
        OpenedEntry::Refused(_) => Err(
            subject_error(
                LocalInstallGenerationStoreErrorKind::UnsafeFilesystem,
                subject,
                " is symlinked or invalid",
            ),
        ),
        OpenedEntry::Opened(stat) => inspect_optional_file(stat, owner, mode, None, subject),
    }
}

/// The readings of one bounded file. What stands behind a reading that decides
/// was not read and does not matter.
#[derive(Debug)]
pub struct BoundedFileReadings {
    pub before: Option<FileStat>,
    pub retained: bool,
    /// Everything up to one byte beyond the bound, or nothing if reading failed.
    pub bytes: Option<Vec<u8>>,
    pub after: Option<FileStat>,
}

/// What [`read_bounded_file`] answers: the bytes of a file that stayed the same
/// while it was read and holds no more than its bound.
pub open spec fn bounded_file(
    readings: BoundedFileReadings,
    owner: (u32, u32),
    mode: u32,
    limit: u64,
    subject: Seq<char>,
) -> Result<Seq<u8>, StoreErrorView> {
    let oversized = local_install_generation_store::corrupt(
        subject + " exceeds its byte limit"@,
    );
    match inspected_optional_file(readings.before, owner, mode, None, subject) {
        Err(e) => Err(e),
        Ok(before) => if before.size < 0 || before.size > limit {
            Err(oversized)
        } else if !readings.retained {
            Err(io("could not retain "@ + subject))
        } else {
            match readings.bytes {
                None => Err(io(subject + " could not be read"@)),
                Some(bytes) => if bytes@.len() > limit {
                    Err(oversized)
                } else {
                    match inspected_optional_file(
                        readings.after,
                        owner,
                        mode,
                        Some(bytes@.len() as u64),
                        subject,
                    ) {
                        Err(e) => Err(e),
                        Ok(after) => if before == after {
                            Ok(bytes@)
                        } else {
                            Err(
                                local_install_generation_store::recovery_required(
                                    subject + " changed while it was read"@,
                                ),
                            )
                        },
                    }
                },
            }
        },
    }
}

/// Judges a bounded file that was read.
pub fn read_bounded_file(
    readings: BoundedFileReadings,
    owner: (u32, u32),
    mode: u32,
    limit: u64,
    subject: &str,
) -> (r: Result<Vec<u8>, LocalInstallGenerationStoreError>)
    ensures
        outcome::is_outcome(r, bounded_file(readings, owner, mode, limit, subject@)),
{
    let before = inspect_optional_file(readings.before, owner, mode, None, subject)?;
    if before.size < 0 || before.size as u64 > limit {
        return Err(
            subject_error(
                LocalInstallGenerationStoreErrorKind::CorruptState,
                subject,
                " exceeds its byte limit",
            ),
        );
    }
    if !readings.retained {
        return Err(
            subject_error(LocalInstallGenerationStoreErrorKind::Io, "could not retain ", subject),
        );
    }
    let bytes = match readings.bytes {
        Some(bytes) => bytes,
        None => {
            return Err(
                subject_error(
                    LocalInstallGenerationStoreErrorKind::Io,
                    subject,
                    " could not be read",
                ),
            );
        },
    };
    if bytes.len() as u64 > limit {
        return Err(
            subject_error(
                LocalInstallGenerationStoreErrorKind::CorruptState,
                subject,
                " exceeds its byte limit",
            ),
        );
    }
    let after = inspect_optional_file(
        readings.after,
        owner,
        mode,
        Some(bytes.len() as u64),
        subject,
    )?;
    if !same_file_snapshot(&before, &after) {
        return Err(
            subject_error(
                LocalInstallGenerationStoreErrorKind::RecoveryRequired,
                subject,
                " changed while it was read",
            ),
        );
    }
    Ok(bytes)
}

/// The bytes of a file on their way into a digest, counted.
pub struct FileDigest {
    stream: DigestStream,
    total: u64,
}

impl View for FileDigest {
    type V = Seq<u8>;

    closed spec fn view(&self) -> Seq<u8> {
        self.stream@
    }
}

impl FileDigest {
    #[verifier::type_invariant]
    spec fn is_valid(self) -> bool {
        self.total == self.stream@.len()
    }

    pub fn new() -> (digest: Self)
        ensures
            digest@ == Seq::<u8>::empty(),
    {
        FileDigest { stream: DigestStream::new(), total: 0 }
    }

    /// Takes the next bytes that were read, up to what a length can count.
    pub fn update(self, piece: &[u8]) -> (r: Option<Self>)
        ensures
            match r {
                Some(next) => next@ == self@ + piece@,
                None => self@.len() + piece@.len() > u64::MAX,
            },
    {
        proof {
            use_type_invariant(&self);
        }
        let total = self.total.checked_add(piece.len() as u64)?;
        let mut stream = self.stream;
        stream.update(piece);
        Some(FileDigest { stream, total })
    }

    pub fn length(&self) -> (length: u64)
        ensures
            length == self@.len(),
    {
        proof {
            use_type_invariant(&*self);
        }
        self.total
    }

    pub fn finish(self) -> (digest: Sha256Digest)
        ensures
            digest@ == artifact::digest_text(self@),
    {
        self.stream.finish()
    }
}

/// The readings of one file that was hashed.
pub struct HashReadings {
    pub retained: bool,
    pub rewound: bool,
    /// Everything up to one byte beyond the expected length, or nothing if
    /// reading failed.
    pub content: Option<FileDigest>,
    pub after: Option<FileStat>,
}

/// What [`hash_file_stable`] answers.
pub open spec fn stable_hash(
    readings: HashReadings,
    before: FileStat,
    expected_bytes: u64,
    subject: Seq<char>,
) -> Result<Seq<char>, StoreErrorView> {
    if !readings.retained {
        Err(io("could not retain "@ + subject))
    } else if !readings.rewound {
        Err(io(subject + " could not be rewound for hashing"@))
    } else {
        match readings.content {
            None => Err(io(subject + " could not be hashed"@)),
            Some(content) => match readings.after {
                None => Err(io(subject + " could not be re-inspected"@)),
                Some(after) => if content@.len() == expected_bytes && before == after {
                    Ok(artifact::digest_text(content@))
                } else {
                    Err(
                        local_install_generation_store::recovery_required(
                            subject + " changed while it was hashed"@,
                        ),
                    )
                },
            },
        }
    }
}

/// The digest of a file that stayed the same while it was hashed.
pub fn hash_file_stable(
    readings: HashReadings,
    before: &FileStat,
    expected_bytes: u64,
    subject: &str,
) -> (r: Result<Sha256Digest, LocalInstallGenerationStoreError>)
    ensures
        outcome::is_outcome(r, stable_hash(readings, *before, expected_bytes, subject@)),
{
    if !readings.retained {
        return Err(
            subject_error(LocalInstallGenerationStoreErrorKind::Io, "could not retain ", subject),
        );
    }
    if !readings.rewound {
        return Err(
            subject_error(
                LocalInstallGenerationStoreErrorKind::Io,
                subject,
                " could not be rewound for hashing",
            ),
        );
    }
    let content = match readings.content {
        Some(content) => content,
        None => {
            return Err(
                subject_error(
                    LocalInstallGenerationStoreErrorKind::Io,
                    subject,
                    " could not be hashed",
                ),
            );
        },
    };
    let after = match readings.after {
        Some(after) => after,
        None => {
            return Err(
                subject_error(
                    LocalInstallGenerationStoreErrorKind::Io,
                    subject,
                    " could not be re-inspected",
                ),
            );
        },
    };
    if content.length() != expected_bytes || !same_file_snapshot(before, &after) {
        return Err(
            subject_error(
                LocalInstallGenerationStoreErrorKind::RecoveryRequired,
                subject,
                " changed while it was hashed",
            ),
        );
    }
    Ok(content.finish())
}

/// What [`hash_private_file`] answers.
pub open spec fn private_hash(
    before: Option<FileStat>,
    readings: HashReadings,
    owner: (u32, u32),
    mode: u32,
    expected_bytes: u64,
    subject: Seq<char>,
) -> Result<Seq<char>, StoreErrorView> {
    match inspected_optional_file(before, owner, mode, Some(expected_bytes), subject) {
        Err(e) => Err(e),
        Ok(found) => stable_hash(readings, found, expected_bytes, subject),
    }
}

/// The digest of a private file of exactly the expected length.
pub fn hash_private_file(
    before: Option<FileStat>,
    readings: HashReadings,
    owner: (u32, u32),
    mode: u32,
    expected_bytes: u64,
    subject: &str,
) -> (r: Result<Sha256Digest, LocalInstallGenerationStoreError>)
    ensures
        outcome::is_outcome(
            r,
            private_hash(before, readings, owner, mode, expected_bytes, subject@),
        ),
{
    let found = inspect_optional_file(before, owner, mode, Some(expected_bytes), subject)?;
    hash_file_stable(readings, &found, expected_bytes, subject)
}

pub open spec fn identity_changed(subject: Seq<char>) -> StoreErrorView {
    local_install_generation_store::unsafe_filesystem(subject + " identity changed"@)
}

/// What [`verify_retained_file`] answers.
pub open spec fn retained_file(
    reopened: OpenedEntry,
    retained: Option<FileStat>,
    owner: (u32, u32),
    mode: u32,
    subject: Seq<char>,
) -> Result<(), StoreErrorView> {
    match opened_file(reopened, owner, mode, subject) {
        Err(e) => Err(e),
        Ok(right) => match retained {
            None => Err(not_inspected(subject)),
            Some(left) => if file_evidence::is_same_object(left, right) {
                Ok(())
            } else {
                Err(identity_changed(subject))
            },
        },
    }
}

/// Checks that a name still reaches the file that was kept open.
pub fn verify_retained_file(
    reopened: OpenedEntry,
    retained: Option<FileStat>,
    owner: (u32, u32),
    mode: u32,
    subject: &str,
) -> (r: Result<(), LocalInstallGenerationStoreError>)
    ensures
        outcome::is_check(r, retained_file(reopened, retained, owner, mode, subject@)),
{
    let right = open_existing_file(reopened, owner, mode, subject)?;
    let left = match retained {
        Some(left) => left,
        None => {
            return Err(inspection_error(subject));
        },
    };
    if !same_object(&left, &right) {
        return Err(
            subject_error(
                LocalInstallGenerationStoreErrorKind::UnsafeFilesystem,
                subject,
                " identity changed",
            ),
        );
    }
    Ok(())
}

/// What [`verify_retained_directory`] answers.
pub open spec fn retained_directory(
    reopened: OpenedEntry,
    retained: Option<FileStat>,
    owner: (u32, u32),
    subject: Seq<char>,
) -> Result<(), StoreErrorView> {
    match reopened {
        OpenedEntry::Refused(_) => Err(
            local_install_generation_store::unsafe_filesystem(
                subject + " could not be reopened safely"@,
            ),
        ),
        OpenedEntry::Opened(current) => match inspected_optional_directory(
            retained,
            Some(owner),
            true,
            subject,
        ) {
            Err(e) => Err(e),
            Ok(left) => match inspected_optional_directory(current, Some(owner), true, subject) {
                Err(e) => Err(e),
                Ok(right) => if file_evidence::is_same_object(left, right) {
                    Ok(())
                } else {
                    Err(identity_changed(subject))
                },
            },
        },
    }
}

/// Checks that a name still reaches the directory that was kept open.
pub fn verify_retained_directory(
    reopened: OpenedEntry,
    retained: Option<FileStat>,
    owner: (u32, u32),
    subject: &str,
) -> (r: Result<(), LocalInstallGenerationStoreError>)
    ensures
        outcome::is_check(r, retained_directory(reopened, retained, owner, subject@)),
{
    let current = match reopened {
        OpenedEntry::Opened(current) => current,
        OpenedEntry::Refused(_) => {
            return Err(
                subject_error(
                    LocalInstallGenerationStoreErrorKind::UnsafeFilesystem,
                    subject,
                    " could not be reopened safely",
                ),
            );
        },
    };
    let left = inspect_optional_directory(retained, Some(owner), true, subject)?;
    let right = inspect_optional_directory(current, Some(owner), true, subject)?;
    if !same_object(&left, &right) {
        return Err(
            subject_error(
                LocalInstallGenerationStoreErrorKind::UnsafeFilesystem,
                subject,
                " identity changed",
            ),
        );
    }
    Ok(())
}

/// Whether an entry stands in a directory.
#[derive(Debug, Clone, Copy, PartialEq, Eq, Structural)]
pub enum PresenceReading {
    Present,
    Absent,
    Unreadable,
}

/// What [`entry_exists`] answers.
pub open spec fn presence(reading: PresenceReading) -> Result<bool, StoreErrorView> {
    match reading {
        PresenceReading::Present => Ok(true),
        PresenceReading::Absent => Ok(false),
        PresenceReading::Unreadable => Err(
            io("a local-install store entry could not be inspected"@),
        ),
    }
}

pub fn entry_exists(reading: PresenceReading) -> (r: Result<
    bool,
    LocalInstallGenerationStoreError,
>)
    ensures
        match r {
            Ok(present) => presence(reading) == Ok::<_, StoreErrorView>(present),
            Err(e) => presence(reading) == Err::<bool, _>(e@),
        },
{
    match reading {
        PresenceReading::Present => Ok(true),
        PresenceReading::Absent => Ok(false),
        PresenceReading::Unreadable => Err(
            store_error(
                LocalInstallGenerationStoreErrorKind::Io,
                "a local-install store entry could not be inspected",
            ),
        ),
    }
}

/// How making a new entry ended.
#[derive(Debug, Clone, Copy, PartialEq, Eq, Structural)]
pub enum CreationReading {
    Created,
    Exists,
    Failed,
}

/// The readings of one directory that was created.
#[derive(Debug)]
pub struct CreatedDirectoryReadings {
    pub created: CreationReading,
    /// The new directory, opened.
    pub opened: OpenedEntry,
    pub permissions_set: bool,
    pub stat: Option<FileStat>,
    pub parent_synchronized: bool,
}

pub open spec fn creation_refusal(created: CreationReading, subject: Seq<char>) -> Option<
    StoreErrorView,
> {
    match created {
        CreationReading::Created => None,
        CreationReading::Exists => Some(
            local_install_generation_store::conflict(subject + " already exists"@),
        ),
        CreationReading::Failed => Some(io(subject + " could not be created"@)),
    }
}

fn require_created(created: CreationReading, subject: &str) -> (r: Result<
    (),
    LocalInstallGenerationStoreError,
>)
    ensures
        match r {
            Ok(_) => creation_refusal(created, subject@) is None,
            Err(e) => creation_refusal(created, subject@) == Some(e@),
        },
{
    match created {
        CreationReading::Created => Ok(()),
        CreationReading::Exists => Err(
            subject_error(
                LocalInstallGenerationStoreErrorKind::Conflict,
                subject,
                " already exists",
            ),
        ),
        CreationReading::Failed => Err(
            subject_error(
                LocalInstallGenerationStoreErrorKind::Io,
                subject,
                " could not be created",
            ),
        ),
    }
}

/// What [`create_private_directory`] answers.
pub open spec fn created_directory(
    readings: CreatedDirectoryReadings,
    owner: (u32, u32),
    subject: Seq<char>,
) -> Result<FileStat, StoreErrorView> {
    if creation_refusal(readings.created, subject) is Some {
        Err(creation_refusal(readings.created, subject)->0)
    } else if readings.opened is Refused {
        Err(io(subject + " could not be opened"@))
    } else if !readings.permissions_set {
        Err(io(subject + " permissions could not be set"@))
    } else {
        match inspected_optional_directory(readings.stat, Some(owner), true, subject) {
            Err(e) => Err(e),
            Ok(stat) => if readings.parent_synchronized {
                Ok(stat)
            } else {
                Err(io("could not synchronize local-install parent directory"@))
            },
        }
    }
}

/// Judges a private directory that was created.
pub fn create_private_directory(
    readings: &CreatedDirectoryReadings,
    owner: (u32, u32),
    subject: &str,
) -> (r: Result<FileStat, LocalInstallGenerationStoreError>)
    ensures
        stat_view(r) == created_directory(*readings, owner, subject@),
{
    require_created(readings.created, subject)?;
    if let OpenedEntry::Refused(_) = readings.opened {
        return Err(
            subject_error(
                LocalInstallGenerationStoreErrorKind::Io,
                subject,
                " could not be opened",
            ),
        );
    }
    if !readings.permissions_set {
        return Err(
            subject_error(
                LocalInstallGenerationStoreErrorKind::Io,
                subject,
                " permissions could not be set",
            ),
        );
    }
    let stat = inspect_optional_directory(readings.stat, Some(owner), true, subject)?;
    if !readings.parent_synchronized {
        return Err(
            store_error(
                LocalInstallGenerationStoreErrorKind::Io,
                "could not synchronize local-install parent directory",
            ),
        );
    }
    Ok(stat)
}

/// What [`create_private_file`] answers: the new file is empty.
pub open spec fn created_file(
    created: CreationReading,
    permissions_set: bool,
    stat: Option<FileStat>,
    mode: u32,
    owner: (u32, u32),
    subject: Seq<char>,
) -> Result<FileStat, StoreErrorView> {
    if creation_refusal(created, subject) is Some {
        Err(creation_refusal(created, subject)->0)
    } else if !permissions_set {
        Err(io(subject + " permissions could not be set"@))
    } else {
        inspected_optional_file(stat, owner, mode, Some(0), subject)
    }
}

/// Judges a private file that was created.
pub fn create_private_file(
    created: CreationReading,
    permissions_set: bool,
    stat: Option<FileStat>,
    mode: u32,
    owner: (u32, u32),
    subject: &str,
) -> (r: Result<FileStat, LocalInstallGenerationStoreError>)
    ensures
        stat_view(r) == created_file(created, permissions_set, stat, mode, owner, subject@),
{
    require_created(created, subject)?;
    if !permissions_set {
        return Err(
            subject_error(
                LocalInstallGenerationStoreErrorKind::Io,
                subject,
                " permissions could not be set",
            ),
        );
    }
    inspect_optional_file(stat, owner, mode, Some(0), subject)
}

/// The entries of a directory as they were enumerated: each name, or nothing
/// for an entry that could not be read.
#[derive(Debug)]
pub struct EntriesReading {
    pub enumerated: bool,
    pub names: Vec<Option<Vec<u8>>>,
}

/// The names without their owners.
pub open spec fn raw_names(names: Seq<Option<Vec<u8>>>) -> Seq<Option<Seq<u8>>> {
    Seq::new(names.len(), |i: int| outcome::option_view(names[i]))
}

/// The directory itself or the one above it.
pub open spec fn is_dot(name: Seq<u8>) -> bool {
    name == vstd::utf8::encode_utf8("."@) || name == vstd::utf8::encode_utf8(".."@)
}

pub fn is_dot_entry(name: &[u8]) -> (r: bool)
    ensures
        r == is_dot(name@),
{
    same_bytes(name, ".".as_bytes()) || same_bytes(name, "..".as_bytes())
}

/// Which names a directory of the store may hold.
#[derive(Debug, Clone, Copy, PartialEq, Eq, Structural)]
pub enum NameClass {
    Generations,
    Staged,
    GenerationEntries,
}

pub open spec fn is_expected_name(class: NameClass, name: Seq<char>) -> bool {
    match class {
        NameClass::Generations => local_install_generation_store::generation_named(name) is Ok,
        NameClass::Staged => local_install_generation_store::operation_named(name) is Ok
            || local_install_generation_store::retirement_named(name) is Ok,
        NameClass::GenerationEntries => name == "generation.json"@ || name == "glaeda"@,
    }
}

fn expected_name(class: NameClass, name: &str) -> (r: bool)
    ensures
        r == is_expected_name(class, name@),
{
    match class {
        NameClass::Generations => is_generation_directory_name(name),
        NameClass::Staged => is_operation_directory_name(name) || is_retirement_directory_name(
            name,
        ),
        NameClass::GenerationEntries => text::same_text(name, GENERATION_DOCUMENT)
            || text::same_text(name, BINARY_FILE),
    }
}

/// The names from `at` on, behind those that were taken before, or the first
/// refusal.
pub open spec fn collected(
    names: Seq<Option<Seq<u8>>>,
    at: nat,
    taken: Seq<Seq<char>>,
    limit: nat,
    class: NameClass,
    subject: Seq<char>,
) -> Result<Seq<Seq<char>>, StoreErrorView>
    decreases names.len() - at,
{
    if at >= names.len() {
        Ok(taken)
    } else {
        match names[at as int] {
            None => Err(io("an entry in "@ + subject + " could not be read"@)),
            Some(name) => if is_dot(name) {
                collected(names, at + 1, taken, limit, class, subject)
            } else if !vstd::utf8::valid_utf8(name) {
                Err(
                    local_install_generation_store::corrupt(
                        subject + " contains a noncanonical entry"@,
                    ),
                )
            } else if taken.len() >= limit || !is_expected_name(
                class,
                vstd::utf8::decode_utf8(name),
            ) {
                Err(
                    local_install_generation_store::corrupt(
                        subject + " contains unexpected or excess entries"@,
                    ),
                )
            } else {
                collected(
                    names,
                    at + 1,
                    taken.push(vstd::utf8::decode_utf8(name)),
                    limit,
                    class,
                    subject,
                )
            },
        }
    }
}

/// Where a name belongs among names in order: behind those that come before
/// it.
pub open spec fn insertion_point(sorted: Seq<Seq<char>>, name: Seq<char>) -> nat
    decreases sorted.len(),
{
    if sorted.len() == 0 || !text::precedes(name, sorted.last()) {
        sorted.len()
    } else {
        insertion_point(sorted.drop_last(), name)
    }
}

/// The names in order.
pub open spec fn sorted_names(names: Seq<Seq<char>>) -> Seq<Seq<char>>
    decreases names.len(),
{
    if names.len() == 0 {
        Seq::empty()
    } else {
        let before = sorted_names(names.drop_last());
        before.insert(insertion_point(before, names.last()) as int, names.last())
    }
}

/// What [`enumerate_names`] answers.
pub open spec fn enumerated_names(
    reading: EntriesReading,
    limit: nat,
    class: NameClass,
    subject: Seq<char>,
) -> Result<Seq<Seq<char>>, StoreErrorView> {
    if !reading.enumerated {
        Err(io(subject + " could not be enumerated"@))
    } else {
        match collected(raw_names(reading.names@), 0, Seq::empty(), limit, class, subject) {
            Err(e) => Err(e),
            Ok(names) => Ok(sorted_names(names)),
        }
    }
}

proof fn lemma_insertion_point(sorted: Seq<Seq<char>>, name: Seq<char>)
    ensures
        insertion_point(sorted, name) <= sorted.len(),
    decreases sorted.len(),
{
    if sorted.len() > 0 {
        lemma_insertion_point(sorted.drop_last(), name);
    }
}

fn find_insertion_point(sorted: &Vec<String>, name: &str) -> (at: usize)
    ensures
        at == insertion_point(outcome::seq_view(sorted@), name@),
        at <= sorted@.len(),
{
    let ghost all = outcome::seq_view(sorted@);
    let mut at = sorted.len();
    assert(all.take(at as int) =~= all);
    while at > 0 && text::is_before(name, sorted[at - 1].as_str())
        invariant
            at <= sorted@.len(),
            all == outcome::seq_view(sorted@),
            insertion_point(all, name@) == insertion_point(all.take(at as int), name@),
        ensures
            at <= sorted@.len(),
            insertion_point(all, name@) == insertion_point(all.take(at as int), name@),
            at > 0 ==> !text::precedes(name@, all[at - 1]),
        decreases at,
    {
        assert(all.take(at as int).drop_last() =~= all.take(at - 1));
        assert(all.take(at as int).last() == all[at - 1]);
        at -= 1;
    }
    assert(at > 0 ==> all.take(at as int).last() == all[at - 1]);
    at
}

proof fn lemma_insert_view(before: Seq<String>, at: int, name: String)
    requires
        0 <= at <= before.len(),
    ensures
        outcome::seq_view(before.insert(at, name)) == outcome::seq_view(before).insert(at, name@),
{
    assert(outcome::seq_view(before.insert(at, name)) =~= outcome::seq_view(before).insert(
        at,
        name@,
    ));
}

/// The names in a directory, in order: no more than the limit, and none but
/// those that are expected there.
pub fn enumerate_names(reading: &EntriesReading, limit: usize, class: NameClass, subject: &str) -> (r:
    Result<Vec<String>, LocalInstallGenerationStoreError>)
    ensures
        match r {
            Ok(names) => enumerated_names(*reading, limit as nat, class, subject@) == Ok::<
                _,
                StoreErrorView,
            >(outcome::seq_view(names@)),
            Err(e) => enumerated_names(*reading, limit as nat, class, subject@) == Err::<
                Seq<Seq<char>>,
                _,
            >(e@),
        },
{
    if !reading.enumerated {
        return Err(
            subject_error(
                LocalInstallGenerationStoreErrorKind::Io,
                subject,
                " could not be enumerated",
            ),
        );
    }
    let ghost raw = raw_names(reading.names@);
    let ghost mut taken: Seq<Seq<char>> = Seq::empty();
    let mut sorted: Vec<String> = Vec::new();
    let mut at: usize = 0;
    assert(outcome::seq_view(sorted@) =~= sorted_names(taken));
    while at < reading.names.len()
        invariant
            at <= reading.names@.len(),
            reading.enumerated,
            raw == raw_names(reading.names@),
            sorted@.len() == taken.len(),
            outcome::seq_view(sorted@) == sorted_names(taken),
            collected(raw, 0, Seq::empty(), limit as nat, class, subject@) == collected(
                raw,
                at as nat,
                taken,
                limit as nat,
                class,
                subject@,
            ),
        decreases reading.names@.len() - at,
    {
        assert(raw[at as int] == outcome::option_view(reading.names@[at as int]));
        let bytes = match &reading.names[at] {
            Some(bytes) => bytes,
            None => {
                return Err(
                    enclosed_error(
                        LocalInstallGenerationStoreErrorKind::Io,
                        "an entry in ",
                        subject,
                        " could not be read",
                    ),
                );
            },
        };
        if !is_dot_entry(bytes.as_slice()) {
            let name = match text::utf8_text(bytes.as_slice()) {
                Some(name) => name,
                None => {
                    return Err(
                        subject_error(
                            LocalInstallGenerationStoreErrorKind::CorruptState,
                            subject,
                            " contains a noncanonical entry",
                        ),
                    );
                },
            };
            if sorted.len() >= limit || !expected_name(class, name.as_str()) {
                return Err(
                    subject_error(
                        LocalInstallGenerationStoreErrorKind::CorruptState,
                        subject,
                        " contains unexpected or excess entries",
                    ),
                );
            }
            let place = find_insertion_point(&sorted, name.as_str());
            proof {
                lemma_insert_view(sorted@, place as int, name);
                assert(taken.push(name@).drop_last() =~= taken);
                taken = taken.push(name@);
            }
            sorted.insert(place, name);
        }
        at += 1;
    }
    Ok(sorted)
}

/// What [`review_removal`] answers: only a complete generation is removed.
pub open spec fn removal_review(entries: Result<Seq<Seq<char>>, StoreErrorView>) -> Result<
    (),
    StoreErrorView,
> {
    match entries {
        Err(e) => Err(e),
        Ok(names) => if names == local_install_store_observation::complete_entries() {
            Ok(())
        } else {
            Err(
                local_install_generation_store::recovery_required(
                    "the local-install generation cannot be removed because its shape changed"@,
                ),
            )
        },
    }
}

/// Checks the entries of a generation directory before it is removed.
pub fn review_removal(
    entries: &Result<Vec<String>, LocalInstallGenerationStoreError>,
) -> (r: Result<(), LocalInstallGenerationStoreError>)
    ensures
        outcome::is_check(
            r,
            removal_review(local_install_store_observation::names_view(*entries)),
        ),
{
    match entries {
        Err(e) => Err(e.clone()),
        Ok(names) => if has_complete_entries(names) {
            Ok(())
        } else {
            Err(
                store_error(
                    LocalInstallGenerationStoreErrorKind::RecoveryRequired,
                    "the local-install generation cannot be removed because its shape changed",
                ),
            )
        },
    }
}

/// What [`review_candidate`] answers.
pub open spec fn candidate_review(
    path: Seq<char>,
    opened: OpenedEntry,
    owner: (u32, u32),
    digest: Result<Seq<char>, StoreErrorView>,
    expected: Seq<char>,
) -> Result<u64, StoreErrorView> {
    if path.len() == 0 || path[0] != '/' {
        Err(
            local_install_generation_store::invalid_request(
                "the candidate binary path must be absolute"@,
            ),
        )
    } else {
        match opened {
            OpenedEntry::Refused(OpenRefusal::SymbolicLink)
            | OpenedEntry::Refused(OpenRefusal::NotADirectory)
            | OpenedEntry::Refused(OpenRefusal::IsADirectory) => Err(
                local_install_generation_store::unsafe_filesystem(
                    "the candidate binary path is symlinked or invalid"@,
                ),
            ),
            OpenedEntry::Refused(_) => Err(io("the candidate binary could not be opened"@)),
            OpenedEntry::Opened(None) => Err(io("the candidate binary could not be inspected"@)),
            OpenedEntry::Opened(Some(stat)) => local_install_generation_store::verified_candidate(
                stat,
                owner,
                digest,
                expected,
            ),
        }
    }
}

/// Judges the candidate binary that is to be published, and tells its size.
pub fn review_candidate(
    path: &str,
    opened: OpenedEntry,
    owner: (u32, u32),
    digest: Result<Sha256Digest, LocalInstallGenerationStoreError>,
    expected: &Sha256Digest,
) -> (r: Result<u64, LocalInstallGenerationStoreError>)
    ensures
        match r {
            Ok(size) => candidate_review(
                path@,
                opened,
                owner,
                outcome::result_view(digest),
                expected@,
            ) == Ok::<_, StoreErrorView>(size),
            Err(e) => candidate_review(
                path@,
                opened,
                owner,
                outcome::result_view(digest),
                expected@,
            ) == Err::<u64, _>(e@),
        },
{
    let chars = text::chars_of(path);
    if chars.len() == 0 || chars[0] != '/' {
        return Err(
            store_error(
                LocalInstallGenerationStoreErrorKind::InvalidRequest,
                "the candidate binary path must be absolute",
            ),
        );
    }
    match opened {
        OpenedEntry::Refused(OpenRefusal::SymbolicLink)
        | OpenedEntry::Refused(OpenRefusal::NotADirectory)
        | OpenedEntry::Refused(OpenRefusal::IsADirectory) => Err(
            store_error(
                LocalInstallGenerationStoreErrorKind::UnsafeFilesystem,
                "the candidate binary path is symlinked or invalid",
            ),
        ),
        OpenedEntry::Refused(_) => Err(
            store_error(
                LocalInstallGenerationStoreErrorKind::Io,
                "the candidate binary could not be opened",
            ),
        ),
        OpenedEntry::Opened(None) => Err(
            store_error(
                LocalInstallGenerationStoreErrorKind::Io,
                "the candidate binary could not be inspected",
            ),
        ),
        OpenedEntry::Opened(Some(stat)) => verify_candidate_binary(
            &stat,
            owner,
            digest,
            expected,
        ),
    }
}

/// What [`review_copy`] answers.
pub open spec fn copy_review(copied: Option<u64>, expected_bytes: u64) -> Result<
    (),
    StoreErrorView,
> {
    match copied {
        None => Err(io("the candidate binary could not be copied into staging"@)),
        Some(bytes) => if bytes == expected_bytes {
            Ok(())
        } else {
            Err(
                local_install_generation_store::recovery_required(
                    "the candidate binary changed while it was copied"@,
                ),
            )
        },
    }
}

/// Checks how much of the candidate binary was copied.
pub fn review_copy(copied: Option<u64>, expected_bytes: u64) -> (r: Result<
    (),
    LocalInstallGenerationStoreError,
>)
    ensures
        outcome::is_check(r, copy_review(copied, expected_bytes)),
{
    match copied {
        None => Err(
            store_error(
                LocalInstallGenerationStoreErrorKind::Io,
                "the candidate binary could not be copied into staging",
            ),
        ),
        Some(bytes) => if bytes == expected_bytes {
            Ok(())
        } else {
            Err(
                store_error(
                    LocalInstallGenerationStoreErrorKind::RecoveryRequired,
                    "the candidate binary changed while it was copied",
                ),
            )
        },
    }
}

/// Names in order: none precedes one that stands before it.
pub open spec fn is_sorted(names: Seq<Seq<char>>) -> bool {
    forall|i: int, j: int|
        0 <= i < j < names.len() ==> !text::precedes(#[trigger] names[j], #[trigger] names[i])
}

proof fn lemma_insert_sorted(sorted: Seq<Seq<char>>, name: Seq<char>)
    requires
        is_sorted(sorted),
    ensures
        insertion_point(sorted, name) <= sorted.len(),
        forall|k: int|
            0 <= k < insertion_point(sorted, name) ==> !text::precedes(
                name,
                #[trigger] sorted[k],
            ),
        forall|k: int|
            insertion_point(sorted, name) <= k < sorted.len() ==> text::precedes(
                name,
                #[trigger] sorted[k],
            ),
    decreases sorted.len(),
{
    if sorted.len() == 0 {
    } else if text::precedes(name, sorted.last()) {
        let rest = sorted.drop_last();
        assert forall|i: int, j: int| 0 <= i < j < rest.len() implies !text::precedes(
            #[trigger] rest[j],
            #[trigger] rest[i],
        ) by {
            assert(rest[j] == sorted[j] && rest[i] == sorted[i]);
        }
        lemma_insert_sorted(rest, name);
        assert forall|k: int| 0 <= k < insertion_point(sorted, name) implies !text::precedes(
            name,
            #[trigger] sorted[k],
        ) by {
            assert(rest[k] == sorted[k]);
        }
        assert forall|k: int|
            insertion_point(sorted, name) <= k < sorted.len() implies text::precedes(
            name,
            #[trigger] sorted[k],
        ) by {
            if k < rest.len() {
                assert(rest[k] == sorted[k]);
            }
        }
    } else {
        let last = sorted.last();
        assert forall|k: int| 0 <= k < sorted.len() implies !text::precedes(
            name,
            #[trigger] sorted[k],
        ) by {
            if text::precedes(name, sorted[k]) && k < sorted.len() - 1 {
                text::lemma_precedes_total(name, last);
                text::lemma_precedes_total(sorted[k], last);
                if name == last {
                    assert(!text::precedes(sorted[sorted.len() - 1], sorted[k]));
                } else {
                    text::lemma_precedes_transitive(last, name, sorted[k]);
                    assert(!text::precedes(sorted[sorted.len() - 1], sorted[k]));
                }
            }
        }
    }
}

/// Putting names in order loses none, adds none, and puts every one behind
/// those that precede it.
pub proof fn law_sorted_names_are_ordered(names: Seq<Seq<char>>)
    ensures
        is_sorted(sorted_names(names)),
        sorted_names(names).to_multiset() == names.to_multiset(),
    decreases names.len(),
{
    if names.len() == 0 {
        assert(sorted_names(names) =~= names);
    } else {
        let before = sorted_names(names.drop_last());
        let name = names.last();
        let at = insertion_point(before, name) as int;
        law_sorted_names_are_ordered(names.drop_last());
        lemma_insert_sorted(before, name);
        let after = before.insert(at, name);
        assert forall|i: int, j: int| 0 <= i < j < after.len() implies !text::precedes(
            #[trigger] after[j],
            #[trigger] after[i],
        ) by {
            let left = if i < at {
                before[i]
            } else if i == at {
                name
            } else {
                before[i - 1]
            };
            let right = if j < at {
                before[j]
            } else if j == at {
                name
            } else {
                before[j - 1]
            };
            assert(after[i] == left && after[j] == right);
            text::lemma_precedes_total(right, left);
        }
        broadcast use vstd::seq_lib::group_to_multiset_ensures;

        assert(names.drop_last().push(name) =~= names);
        assert(names.to_multiset() == names.drop_last().to_multiset().insert(name));
        assert(after.to_multiset() == before.to_multiset().insert(name));
    }
}

/// An enumeration that succeeds names only what its directory may hold, and no
/// more than its limit.
pub proof fn law_enumerated_names_are_expected(
    reading: EntriesReading,
    limit: nat,
    class: NameClass,
    subject: Seq<char>,
)
    requires
        enumerated_names(reading, limit, class, subject) is Ok,
    ensures
        ({
            let names = enumerated_names(reading, limit, class, subject)->Ok_0;
            &&& is_sorted(names)
            &&& names.len() <= limit
            &&& forall|i: int|
                0 <= i < names.len() ==> is_expected_name(class, #[trigger] names[i])
        }),
{
    let raw = raw_names(reading.names@);
    let names = collected(raw, 0, Seq::empty(), limit, class, subject)->Ok_0;
    lemma_collected_expected(raw, 0, Seq::empty(), limit, class, subject);
    law_sorted_names_are_ordered(names);
    let sorted = sorted_names(names);
    lemma_sorted_length(names);
    assert forall|i: int| 0 <= i < sorted.len() implies is_expected_name(
        class,
        #[trigger] sorted[i],
    ) by {
        broadcast use vstd::seq_lib::group_to_multiset_ensures;

        assert(sorted.contains(sorted[i]));
        assert(sorted.to_multiset().count(sorted[i]) > 0);
        assert(names.contains(sorted[i]));
    }
}

proof fn lemma_sorted_length(names: Seq<Seq<char>>)
    ensures
        sorted_names(names).len() == names.len(),
    decreases names.len(),
{
    if names.len() > 0 {
        lemma_sorted_length(names.drop_last());
        lemma_insertion_point(sorted_names(names.drop_last()), names.last());
    }
}

proof fn lemma_collected_expected(
    names: Seq<Option<Seq<u8>>>,
    at: nat,
    taken: Seq<Seq<char>>,
    limit: nat,
    class: NameClass,
    subject: Seq<char>,
)
    requires
        taken.len() <= limit,
        forall|i: int| 0 <= i < taken.len() ==> is_expected_name(class, #[trigger] taken[i]),
    ensures
        match collected(names, at, taken, limit, class, subject) {
            Ok(all) => all.len() <= limit && forall|i: int|
                0 <= i < all.len() ==> is_expected_name(class, #[trigger] all[i]),
            Err(_) => true,
        },
    decreases names.len() - at,
{
    if at < names.len() {
        if let Some(name) = names[at as int] {
            if is_dot(name) {
                lemma_collected_expected(names, at + 1, taken, limit, class, subject);
            } else if vstd::utf8::valid_utf8(name) && taken.len() < limit && is_expected_name(
                class,
                vstd::utf8::decode_utf8(name),
            ) {
                lemma_collected_expected(
                    names,
                    at + 1,
                    taken.push(vstd::utf8::decode_utf8(name)),
                    limit,
                    class,
                    subject,
                );
            }
        }
    }
}

/// A candidate binary is taken exactly when its path is absolute, it could be
/// opened without following a link, and it is a private executable of the
/// caller of at most half a gibibyte that hashes to the expected digest; the
/// answer is its size.
pub proof fn law_candidates_are_reviewed_before_publication(
    path: Seq<char>,
    opened: OpenedEntry,
    owner: (u32, u32),
    digest: Result<Seq<char>, StoreErrorView>,
    expected: Seq<char>,
)
    ensures
        candidate_review(path, opened, owner, digest, expected) is Ok <==> {
            &&& path.len() > 0 && path[0] == '/'
            &&& match opened {
                OpenedEntry::Opened(Some(stat)) => {
                    &&& stat.mode & 0o170000 == 0o100000
                    &&& stat.mode & 0o022 == 0
                    &&& stat.mode & 0o100 != 0
                    &&& stat.links == 1
                    &&& stat.owner == owner.0
                    &&& stat.group == owner.1
                    &&& 1 <= stat.size <= 536_870_912
                },
                _ => false,
            }
            &&& digest is Ok
            &&& digest->Ok_0 == expected
        },
        candidate_review(path, opened, owner, digest, expected) matches Ok(size) ==> size
            == (opened->Opened_0)->0.size,
        path.len() == 0 || path[0] != '/' ==> candidate_review(
            path,
            opened,
            owner,
            digest,
            expected,
        )->Err_0.kind == LocalInstallGenerationStoreErrorKind::InvalidRequest,
        path.len() > 0 && path[0] == '/' && opened == OpenedEntry::Refused(
            OpenRefusal::SymbolicLink,
        ) ==> candidate_review(path, opened, owner, digest, expected)->Err_0.kind
            == LocalInstallGenerationStoreErrorKind::UnsafeFilesystem,
        path.len() > 0 && path[0] == '/' && opened == OpenedEntry::Refused(OpenRefusal::Missing)
            ==> candidate_review(path, opened, owner, digest, expected)->Err_0.kind
            == LocalInstallGenerationStoreErrorKind::Io,
{
}

/// A copy is complete exactly when it has the bytes that were reviewed.
pub proof fn law_copies_are_complete(copied: Option<u64>, expected_bytes: u64)
    ensures
        copy_review(copied, expected_bytes) is Ok <==> copied == Some(expected_bytes),
        copied is Some && copied != Some(expected_bytes) ==> copy_review(
            copied,
            expected_bytes,
        )->Err_0.kind == LocalInstallGenerationStoreErrorKind::RecoveryRequired,
{
}

/// The data directory is found exactly when its path is upright, every entry on
/// the way is a directory that was opened without following a link, and it is
/// the owner's and closed to others.
pub proof fn law_data_directories_are_found(
    path: Seq<char>,
    owner: (u32, u32),
    readings: DirectoryReadings,
)
    ensures
        opened_absolute_directory(path, owner, readings) is Ok <==> {
            &&& paths::is_upright(path)
            &&& readings.root_opened
            &&& forall|k: int|
                0 <= k < readings.opened@.len() ==> match #[trigger] readings.opened@[k] {
                    OpenedEntry::Opened(Some(stat)) => stat.mode & 0o170000 == 0o040000,
                    _ => false,
                }
            &&& readings.directory matches Some(stat) && stat.mode & 0o170000 == 0o040000
                && stat.mode & 0o022 == 0 && stat.owner == owner.0 && stat.group == owner.1
        },
        opened_absolute_directory(path, owner, readings) matches Ok(stat) ==> readings.directory
            == Some(stat),
{
    lemma_no_data_refusal(readings.opened@);
}

proof fn lemma_no_data_refusal(opened: Seq<OpenedEntry>)
    ensures
        first_data_refusal(opened) is None <==> forall|k: int|
            0 <= k < opened.len() ==> match #[trigger] opened[k] {
                OpenedEntry::Opened(Some(stat)) => stat.mode & 0o170000 == 0o040000,
                _ => false,
            },
    decreases opened.len(),
{
    if opened.len() > 0 {
        let rest = opened.skip(1);
        lemma_no_data_refusal(rest);
        assert forall|k: int| 0 < k < opened.len() implies #[trigger] opened[k] == rest[k - 1] by {}
        assert forall|k: int| 0 <= k < rest.len() implies #[trigger] rest[k] == opened[k + 1] by {}
        assert(data_entry_refusal(opened[0]) is None <==> match opened[0] {
            OpenedEntry::Opened(Some(stat)) => stat.mode & 0o170000 == 0o040000,
            _ => false,
        });
    }
}

/// What is missing on the way leaves the location invalid, and a link or a file
/// in the way is unsafe.
pub proof fn law_data_paths_are_told_apart(opened: OpenedEntry)
    ensures
        opened == OpenedEntry::Refused(OpenRefusal::Missing) ==> data_entry_refusal(opened)->0.kind
            == LocalInstallGenerationStoreErrorKind::InvalidLocation,
        opened == OpenedEntry::Refused(OpenRefusal::SymbolicLink) || opened == OpenedEntry::Refused(
            OpenRefusal::NotADirectory,
        ) ==> data_entry_refusal(opened)->0.kind
            == LocalInstallGenerationStoreErrorKind::UnsafeFilesystem,
        opened == OpenedEntry::Opened(None) ==> data_entry_refusal(opened)->0.kind
            == LocalInstallGenerationStoreErrorKind::Io,
{
}

/// A file is opened exactly when it is a private file of the mode that is asked
/// for; one that is missing needs recovery, and a link is unsafe.
pub proof fn law_private_files_are_opened(
    opened: OpenedEntry,
    owner: (u32, u32),
    mode: u32,
    subject: Seq<char>,
)
    ensures
        opened_file(opened, owner, mode, subject) is Ok <==> match opened {
            OpenedEntry::Opened(Some(stat)) => stat.mode & 0o170000 == 0o100000 && stat.mode
                & 0o7777 == mode && stat.links == 1 && stat.owner == owner.0 && stat.group
                == owner.1,
            _ => false,
        },
        opened_file(opened, owner, mode, subject) matches Ok(stat) ==> opened
            == OpenedEntry::Opened(Some(stat)),
        opened == OpenedEntry::Refused(OpenRefusal::Missing) ==> opened_file(
            opened,
            owner,
            mode,
            subject,
        )->Err_0.kind == LocalInstallGenerationStoreErrorKind::RecoveryRequired,
        opened == OpenedEntry::Refused(OpenRefusal::SymbolicLink) ==> opened_file(
            opened,
            owner,
            mode,
            subject,
        )->Err_0.kind == LocalInstallGenerationStoreErrorKind::UnsafeFilesystem,
{
}

/// The bytes of a file are read exactly when it is a private file within its
/// limit that holds just these bytes before and after it was read.
pub proof fn law_bounded_files_are_read_whole(
    readings: BoundedFileReadings,
    owner: (u32, u32),
    mode: u32,
    limit: u64,
    subject: Seq<char>,
)
    ensures
        bounded_file(readings, owner, mode, limit, subject) is Ok <==> {
            &&& readings.before is Some
            &&& readings.before == readings.after
            &&& readings.retained
            &&& readings.bytes is Some
            &&& {
                let stat = readings.before->0;
                &&& stat.mode & 0o170000 == 0o100000
                &&& stat.mode & 0o7777 == mode
                &&& stat.links == 1
                &&& stat.owner == owner.0
                &&& stat.group == owner.1
                &&& stat.size == readings.bytes->0@.len()
                &&& stat.size <= limit
            }
        },
        bounded_file(readings, owner, mode, limit, subject) matches Ok(bytes) ==> bytes
            == readings.bytes->0@,
{
}

/// A private file is hashed exactly when it has the size that is expected, was
/// read to its end from its start, and did not change meanwhile; the answer is
/// the digest of what was read.
pub proof fn law_private_files_are_hashed_whole(
    before: Option<FileStat>,
    readings: HashReadings,
    owner: (u32, u32),
    mode: u32,
    expected_bytes: u64,
    subject: Seq<char>,
)
    ensures
        private_hash(before, readings, owner, mode, expected_bytes, subject) is Ok <==> {
            &&& before is Some
            &&& before == readings.after
            &&& readings.retained
            &&& readings.rewound
            &&& readings.content is Some
            &&& readings.content->0@.len() == expected_bytes
            &&& {
                let stat = before->0;
                &&& stat.mode & 0o170000 == 0o100000
                &&& stat.mode & 0o7777 == mode
                &&& stat.links == 1
                &&& stat.owner == owner.0
                &&& stat.group == owner.1
                &&& stat.size == expected_bytes
            }
        },
        private_hash(before, readings, owner, mode, expected_bytes, subject) matches Ok(digest)
            ==> digest == artifact::digest_text(readings.content->0@),
{
}

/// What was retained is still there exactly when opening it again finds the
/// same object, as private as before.
pub proof fn law_retained_objects_are_found_again(
    reopened: OpenedEntry,
    retained: Option<FileStat>,
    owner: (u32, u32),
    mode: u32,
    subject: Seq<char>,
)
    ensures
        retained_file(reopened, retained, owner, mode, subject) is Ok <==> {
            &&& reopened matches OpenedEntry::Opened(Some(stat)) && retained matches Some(kept)
                && stat.device == kept.device && stat.inode == kept.inode && stat.mode & 0o170000
                == 0o100000 && stat.mode & 0o7777 == mode && stat.links == 1 && stat.owner
                == owner.0 && stat.group == owner.1
        },
        retained_directory(reopened, retained, owner, subject) is Ok <==> {
            &&& reopened matches OpenedEntry::Opened(Some(stat)) && retained matches Some(kept)
                && stat.device == kept.device && stat.inode == kept.inode && stat.mode & 0o170000
                == 0o040000 && stat.mode & 0o7777 == 0o700 && stat.owner == owner.0 && stat.group
                == owner.1 && kept.mode & 0o170000 == 0o040000 && kept.mode & 0o7777 == 0o700
                && kept.owner == owner.0 && kept.group == owner.1
        },
{
}

/// An entry is present, absent, or could not be told; and something is created
/// only where nothing stood, since what stands is in conflict.
pub proof fn law_presence_and_creation_are_told(
    reading: PresenceReading,
    created: CreationReading,
    subject: Seq<char>,
)
    ensures
        presence(reading) == Ok::<bool, StoreErrorView>(true) <==> reading
            == PresenceReading::Present,
        presence(reading) == Ok::<bool, StoreErrorView>(false) <==> reading
            == PresenceReading::Absent,
        creation_refusal(created, subject) is None <==> created == CreationReading::Created,
        created == CreationReading::Exists ==> creation_refusal(created, subject)->0.kind
            == LocalInstallGenerationStoreErrorKind::Conflict,
        created == CreationReading::Failed ==> creation_refusal(created, subject)->0.kind
            == LocalInstallGenerationStoreErrorKind::Io,
{
}

/// A directory or a file is created exactly when every step of creating it went
/// well and what was made is private to the owner, a file empty and of the mode
/// that is asked for.
pub proof fn law_creations_are_private(
    readings: CreatedDirectoryReadings,
    created: CreationReading,
    permissions_set: bool,
    stat: Option<FileStat>,
    mode: u32,
    owner: (u32, u32),
    subject: Seq<char>,
)
    ensures
        created_directory(readings, owner, subject) is Ok <==> {
            &&& readings.created == CreationReading::Created
            &&& readings.opened is Opened
            &&& readings.permissions_set
            &&& readings.parent_synchronized
            &&& readings.stat matches Some(made) && made.mode & 0o170000 == 0o040000 && made.mode
                & 0o7777 == 0o700 && made.owner == owner.0 && made.group == owner.1
        },
        created_file(created, permissions_set, stat, mode, owner, subject) is Ok <==> {
            &&& created == CreationReading::Created
            &&& permissions_set
            &&& stat matches Some(made) && made.mode & 0o170000 == 0o100000 && made.mode & 0o7777
                == mode && made.links == 1 && made.owner == owner.0 && made.group == owner.1
                && made.size == 0
        },
{
}

/// A generation is removed only while it holds its document and its binary and
/// nothing else.
pub proof fn law_only_whole_generations_are_removed(
    entries: Result<Seq<Seq<char>>, StoreErrorView>,
)
    ensures
        removal_review(entries) is Ok <==> entries == Ok::<Seq<Seq<char>>, StoreErrorView>(
            seq!["generation.json"@, "glaeda"@],
        ),
        entries is Ok && removal_review(entries) is Err ==> removal_review(entries)->Err_0.kind
            == LocalInstallGenerationStoreErrorKind::RecoveryRequired,
        entries matches Err(e) ==> removal_review(entries) == Err::<(), StoreErrorView>(e),
{
}

/// A directory is enumerated exactly when every entry could be read and is,
/// apart from the directory itself and its parent, an expected name, and there
/// are no more of them than the limit.
pub proof fn law_expected_names_are_enumerated(
    reading: EntriesReading,
    limit: nat,
    class: NameClass,
    subject: Seq<char>,
)
    requires
        forall|k: int|
            0 <= k < reading.names@.len() ==> match #[trigger] reading.names@[k] {
                Some(name) => !is_dot(name@),
                None => true,
            },
    ensures
        ({
            let names = reading.names@;
            &&& enumerated_names(reading, limit, class, subject) is Ok <==> {
                &&& reading.enumerated
                &&& names.len() <= limit
                &&& forall|k: int|
                    0 <= k < names.len() ==> match #[trigger] names[k] {
                        Some(name) => vstd::utf8::valid_utf8(name@) && is_expected_name(
                            class,
                            vstd::utf8::decode_utf8(name@),
                        ),
                        None => false,
                    }
            }
            &&& enumerated_names(reading, limit, class, subject) matches Ok(found) ==> found.len()
                == names.len() && forall|k: int|
                0 <= k < names.len() ==> found.contains(
                    vstd::utf8::decode_utf8((#[trigger] names[k])->0@),
                )
        }),
{
    let raw = raw_names(reading.names@);
    assert forall|k: int| 0 <= k < raw.len() implies match #[trigger] raw[k] {
        Some(name) => !is_dot(name),
        None => true,
    } by {
        assert(raw[k] == outcome::option_view(reading.names@[k]));
    }
    lemma_collected(raw, 0, Seq::empty(), limit, class, subject);
    let good = |k: int|
        match raw[k] {
            Some(name) => vstd::utf8::valid_utf8(name) && is_expected_name(
                class,
                vstd::utf8::decode_utf8(name),
            ),
            None => false,
        };
    assert forall|k: int| 0 <= k < raw.len() implies (#[trigger] raw[k]) == outcome::option_view(
        reading.names@[k],
    ) by {}
    assert forall|k: int| 0 <= k < reading.names@.len() implies outcome::option_view(
        #[trigger] reading.names@[k],
    ) == raw[k] by {}
    let gathered = collected(raw, 0, Seq::empty(), limit, class, subject);
    if gathered is Ok {
        let names = gathered->Ok_0;
        law_sorted_names_are_ordered(names);
        let found = sorted_names(names);
        assert(found.len() == names.len()) by {
            found.to_multiset_ensures();
            names.to_multiset_ensures();
        }
        assert forall|k: int| 0 <= k < reading.names@.len() implies found.contains(
            vstd::utf8::decode_utf8((#[trigger] reading.names@[k])->0@),
        ) by {
            let name = vstd::utf8::decode_utf8(raw[k]->0);
            assert(names[k] == name);
            found.to_multiset_ensures();
            names.to_multiset_ensures();
            assert(names.contains(name));
            assert(names.to_multiset().count(name) > 0);
        }
    }
}

proof fn lemma_collected(
    names: Seq<Option<Seq<u8>>>,
    at: nat,
    taken: Seq<Seq<char>>,
    limit: nat,
    class: NameClass,
    subject: Seq<char>,
)
    requires
        at <= names.len(),
        taken.len() == at,
        at <= limit,
        forall|k: int|
            0 <= k < names.len() ==> match #[trigger] names[k] {
                Some(name) => !is_dot(name),
                None => true,
            },
    ensures
        collected(names, at, taken, limit, class, subject) is Ok <==> names.len() <= limit
            && forall|k: int|
            at <= k < names.len() ==> match #[trigger] names[k] {
                Some(name) => vstd::utf8::valid_utf8(name) && is_expected_name(
                    class,
                    vstd::utf8::decode_utf8(name),
                ),
                None => false,
            },
        collected(names, at, taken, limit, class, subject) matches Ok(all) ==> {
            &&& all.len() == names.len()
            &&& forall|k: int| 0 <= k < at ==> #[trigger] all[k] == taken[k]
            &&& forall|k: int|
                at <= k < names.len() ==> #[trigger] all[k] == vstd::utf8::decode_utf8(names[k]->0)
        },
    decreases names.len() - at,
{
    if at < names.len() {
        let here = names[at as int];
        if here is Some && at < limit {
            let next = taken.push(vstd::utf8::decode_utf8(here->0));
            lemma_collected(names, at + 1, next, limit, class, subject);
        }
    }
}

/// Only the entries of the directory itself and of its parent are passed over.
pub proof fn law_dot_entries_are_the_directory_and_its_parent(name: Seq<u8>)
    ensures
        is_dot(name) <==> name == seq![46u8] || name == seq![46u8, 46u8],
{
    reveal_strlit(".");
    reveal_strlit("..");
    assert("."@ =~= seq!['.']);
    assert(".."@ =~= seq!['.', '.']);
    assert(vstd::utf8::is_ascii_chars("."@) && vstd::utf8::is_ascii_chars(".."@));
    vstd::utf8::is_ascii_chars_encode_utf8("."@);
    vstd::utf8::is_ascii_chars_encode_utf8(".."@);
    let one = vstd::utf8::encode_utf8("."@);
    let two = vstd::utf8::encode_utf8(".."@);
    assert("."@[0] as u8 == one[0]);
    assert(".."@[0] as u8 == two[0] && ".."@[1] as u8 == two[1]);
    assert(one =~= seq![46u8]);
    assert(two =~= seq![46u8, 46u8]);
}

/// Which names are expected depends on the directory: generations under their
/// canonical names, staged operations and retirements, and in a generation its
/// document and its binary.
pub proof fn law_expected_names_depend_on_the_directory(name: Seq<char>)
    ensures
        is_expected_name(NameClass::Generations, name) <==>
            local_install_generation_store::generation_named(name) is Ok,
        is_expected_name(NameClass::Staged, name) <==>
            local_install_generation_store::operation_named(name) is Ok
            || local_install_generation_store::retirement_named(name) is Ok,
        is_expected_name(NameClass::GenerationEntries, name) <==> name == "generation.json"@ || name
            == "glaeda"@,
{
}

} // verus!
