//! Where a generation store lives, how its root comes into being, and what has
//! to hold of it before anything in it is trusted.
//!
//! As with the files of the store, every function judges what was read.
use vstd::prelude::*;

use crate::file_evidence;
use crate::file_evidence::{
    same_file_snapshot, same_object, DirectoryReadings, FileStat, OpenRefusal, OpenedEntry,
};
use crate::local_install_generation_store;
use crate::local_install_generation_store::{
    generation_directory_name, store_error, LocalInstallGenerationStoreError,
    LocalInstallGenerationStoreErrorKind, LocalInstallStoreLocationClass, SnapshotView,
    StoreErrorView, BINARY_FILE, CURRENT_FILE, CURRENT_NEXT_FILE, GENERATIONS_DIRECTORY,
    INITIALIZATION_STAGE_PREFIX, LOCK_FILE,
    PRIVATE_BINARY_MODE, PRIVATE_FILE_MODE, STAGED_DIRECTORY, STORE_IDENTITY_FILE,
};
use crate::local_install_launcher::{LocalInstallLauncherTarget, TargetView};
use crate::local_install_plan::{GenerationView, InstalledLocalBinaryGeneration};
use crate::local_install_store_documents;
use crate::local_install_store_documents::{
    verify_store_identity_document, StoreIdentityDocument,
};
use crate::local_install_store_files;
use crate::local_install_store_files::{
    inspect_optional_directory, inspect_optional_file, is_dot_entry, open_absolute_directory,
    open_existing_file, read_bounded_file, verify_retained_directory, verify_retained_file,
    BoundedFileReadings, CreationReading, EntriesReading,
};
use crate::local_install_store_observation;
use crate::local_install_store_observation::{
    verify_complete_generation_directory, DirectoryObservation, DirectoryView, StoreObservation,
};
use crate::local_install_store_publication;
use crate::local_install_store_publication::load_clean_state;
use crate::outcome;
use crate::paths;
use crate::text;
use crate::text::same_bytes;

verus! {

pub const MAX_STORE_ROOT_ENTRIES: usize = 7;

pub const MAX_STORE_IDENTITY_BYTES: u64 = 1024;

pub const INITIALIZATION_CREATE_ATTEMPTS: usize = 4;

/// The platforms that a store can be asked for.
#[derive(Debug, Clone, Copy, PartialEq, Eq, Structural)]
pub enum StorePlatform {
    Linux,
    Macos,
    Other,
}

/// The directories beneath the user's data directory, down to the store root.
pub open spec fn location_components(class: LocalInstallStoreLocationClass) -> Seq<Seq<char>> {
    match class {
        LocalInstallStoreLocationClass::LinuxXdgDataHome => seq!["glaeda"@, "local-install"@],
        LocalInstallStoreLocationClass::LinuxHomeDefault => seq![
            ".local"@,
            "share"@,
            "glaeda"@,
            "local-install"@,
        ],
        LocalInstallStoreLocationClass::MacosApplicationSupport => seq![
            "Library"@,
            "Application Support"@,
            "Glaeda"@,
            "local-install"@,
        ],
    }
}

/// A path down through directories.
pub open spec fn descended(base: Seq<char>, components: Seq<Seq<char>>) -> Seq<char>
    decreases components.len(),
{
    if components.len() == 0 {
        base
    } else {
        paths::child(descended(base, components.drop_last()), components.last())
    }
}

/// The fixed place of the current user's store.
#[derive(Debug)]
pub struct StoreLocation {
    pub class: LocalInstallStoreLocationClass,
    pub base: String,
    pub components: Vec<String>,
    pub root_path: String,
}

pub struct StoreLocationView {
    pub class: LocalInstallStoreLocationClass,
    pub base: Seq<char>,
    pub components: Seq<Seq<char>>,
    pub root_path: Seq<char>,
}

impl View for StoreLocation {
    type V = StoreLocationView;

    open spec fn view(&self) -> StoreLocationView {
        StoreLocationView {
            class: self.class,
            base: self.base@,
            components: outcome::seq_view(self.components@),
            root_path: self.root_path@,
        }
    }
}

pub open spec fn location_at(class: LocalInstallStoreLocationClass, base: Seq<char>) -> StoreLocationView {
    StoreLocationView {
        class,
        base,
        components: location_components(class),
        root_path: descended(base, location_components(class)),
    }
}

/// What [`select_location`] answers.
pub open spec fn selected_location(
    platform: StorePlatform,
    xdg_data_home: Option<Seq<char>>,
    home: Option<Seq<char>>,
) -> Result<StoreLocationView, StoreErrorView> {
    let homeless = local_install_store_files::invalid_location(
        "the operator home directory is unavailable"@,
    );
    match platform {
        StorePlatform::Linux => if xdg_data_home is Some && xdg_data_home->0.len() > 0 {
            Ok(location_at(LocalInstallStoreLocationClass::LinuxXdgDataHome, xdg_data_home->0))
        } else {
            match home {
                Some(directory) => Ok(
                    location_at(LocalInstallStoreLocationClass::LinuxHomeDefault, directory),
                ),
                None => Err(homeless),
            }
        },
        StorePlatform::Macos => match home {
            Some(directory) => Ok(
                location_at(LocalInstallStoreLocationClass::MacosApplicationSupport, directory),
            ),
            None => Err(homeless),
        },
        StorePlatform::Other => Err(
            local_install_generation_store::refusal(
                LocalInstallGenerationStoreErrorKind::UnsupportedPlatform,
                "the reviewed local-install store is unavailable on this platform"@,
            ),
        ),
    }
}

fn components_of(class: LocalInstallStoreLocationClass) -> (components: Vec<String>)
    ensures
        outcome::seq_view(components@) == location_components(class),
{
    let mut components: Vec<String> = Vec::new();
    match class {
        LocalInstallStoreLocationClass::LinuxXdgDataHome => {
            components.push("glaeda".to_owned());
        },
        LocalInstallStoreLocationClass::LinuxHomeDefault => {
            components.push(".local".to_owned());
            components.push("share".to_owned());
            components.push("glaeda".to_owned());
        },
        LocalInstallStoreLocationClass::MacosApplicationSupport => {
            components.push("Library".to_owned());
            components.push("Application Support".to_owned());
            components.push("Glaeda".to_owned());
        },
    }
    components.push("local-install".to_owned());
    assert(outcome::seq_view(components@) =~= location_components(class));
    components
}

fn place(class: LocalInstallStoreLocationClass, base: &str) -> (location: StoreLocation)
    ensures
        location@ == location_at(class, base@),
{
    let components = components_of(class);
    let ghost all = outcome::seq_view(components@);
    let mut root_path = base.to_owned();
    let mut i: usize = 0;
    assert(all.take(0) =~= Seq::empty());
    while i < components.len()
        invariant
            i <= components@.len(),
            all == outcome::seq_view(components@),
            root_path@ == descended(base@, all.take(i as int)),
        decreases components@.len() - i,
    {
        assert(all.take(i as int + 1).drop_last() =~= all.take(i as int));
        assert(all.take(i as int + 1).last() == components@[i as int]@);
        root_path = paths::child_of(root_path.as_str(), components[i].as_str());
        i += 1;
    }
    assert(all.take(all.len() as int) =~= all);
    StoreLocation { class, base: base.to_owned(), components, root_path }
}

/// Selects the current user's fixed store location.
///
/// Linux uses `${XDG_DATA_HOME}/glaeda/local-install` when the variable is nonempty, otherwise
/// `$HOME/.local/share/glaeda/local-install`. macOS uses
/// `$HOME/Library/Application Support/Glaeda/local-install`.
pub fn select_location(
    platform: StorePlatform,
    xdg_data_home: &Option<String>,
    home: &Option<String>,
) -> (r: Result<StoreLocation, LocalInstallGenerationStoreError>)
    ensures
        outcome::is_outcome(
            r,
            selected_location(
                platform,
                outcome::option_view(*xdg_data_home),
                outcome::option_view(*home),
            ),
        ),
{
    let class = match platform {
        StorePlatform::Linux => {
            if let Some(base) = xdg_data_home {
                if text::chars_of(base.as_str()).len() > 0 {
                    return Ok(
                        place(LocalInstallStoreLocationClass::LinuxXdgDataHome, base.as_str()),
                    );
                }
            }
            LocalInstallStoreLocationClass::LinuxHomeDefault
        },
        StorePlatform::Macos => LocalInstallStoreLocationClass::MacosApplicationSupport,
        StorePlatform::Other => {
            return Err(
                store_error(
                    LocalInstallGenerationStoreErrorKind::UnsupportedPlatform,
                    "the reviewed local-install store is unavailable on this platform",
                ),
            );
        },
    };
    match home {
        Some(base) => Ok(place(class, base.as_str())),
        None => Err(
            store_error(
                LocalInstallGenerationStoreErrorKind::InvalidLocation,
                "the operator home directory is unavailable",
            ),
        ),
    }
}

/// Whether the directory at `index` has to be private to its owner rather than
/// merely closed to foreign writers: the store root and the one that holds it.
pub open spec fn is_exactly_private(components: nat, index: nat) -> bool {
    index + 2 >= components
}

pub fn exactly_private(location: &StoreLocation, index: usize) -> (r: bool)
    ensures
        r == is_exactly_private(location@.components.len(), index as nat),
{
    let count = location.components.len();
    count <= 2 || index >= count - 2
}

/// The readings of one directory of the store that was opened or made.
#[derive(Debug)]
pub struct EnsuredDirectoryReadings {
    pub opened: OpenedEntry,
    /// How making the directory ended, if it was missing.
    pub made: CreationReading,
    /// The directory opened once more, if it was missing.
    pub reopened: OpenedEntry,
    pub permissions_set: bool,
    pub stat: Option<FileStat>,
    pub parent_synchronized: bool,
}

pub open spec fn store_directory_refusal(opened: OpenedEntry) -> Option<StoreErrorView> {
    match opened {
        OpenedEntry::Opened(_) => None,
        OpenedEntry::Refused(OpenRefusal::SymbolicLink)
        | OpenedEntry::Refused(OpenRefusal::NotADirectory) => Some(
            local_install_generation_store::unsafe_filesystem(
                "a local-install store directory is symlinked or invalid"@,
            ),
        ),
        OpenedEntry::Refused(_) => Some(
            local_install_store_files::io("a local-install store directory could not be opened"@),
        ),
    }
}

fn require_store_directory(opened: OpenedEntry) -> (r: Result<
    (),
    LocalInstallGenerationStoreError,
>)
    ensures
        match r {
            Ok(_) => store_directory_refusal(opened) is None,
            Err(e) => store_directory_refusal(opened) == Some(e@),
        },
{
    match opened {
        OpenedEntry::Opened(_) => Ok(()),
        OpenedEntry::Refused(OpenRefusal::SymbolicLink)
        | OpenedEntry::Refused(OpenRefusal::NotADirectory) => Err(
            store_error(
                LocalInstallGenerationStoreErrorKind::UnsafeFilesystem,
                "a local-install store directory is symlinked or invalid",
            ),
        ),
        OpenedEntry::Refused(_) => Err(
            store_error(
                LocalInstallGenerationStoreErrorKind::Io,
                "a local-install store directory could not be opened",
            ),
        ),
    }
}

/// What [`ensure_directory`] answers.
pub open spec fn ensured_directory(
    readings: EnsuredDirectoryReadings,
    owner: (u32, u32),
    exact_private: bool,
) -> Result<FileStat, StoreErrorView> {
    let missing = readings.opened == OpenedEntry::Refused(OpenRefusal::Missing);
    let created = missing && readings.made == CreationReading::Created;
    if missing && readings.made == CreationReading::Failed {
        Err(local_install_store_files::io("a local-install store directory could not be created"@))
    } else {
        let reached = if missing {
            readings.reopened
        } else {
            readings.opened
        };
        match store_directory_refusal(reached) {
            Some(e) => Err(e),
            None => if created && !readings.permissions_set {
                Err(
                    local_install_store_files::io(
                        "private local-install directory permissions could not be set"@,
                    ),
                )
            } else {
                match local_install_store_files::inspected_optional_directory(
                    readings.stat,
                    Some(owner),
                    exact_private,
                    "local-install store directory"@,
                ) {
                    Err(e) => Err(e),
                    Ok(stat) => if created && !readings.parent_synchronized {
                        Err(
                            local_install_store_files::io(
                                "could not synchronize local-install parent directory"@,
                            ),
                        )
                    } else {
                        Ok(stat)
                    },
                }
            },
        }
    }
}

/// Judges a directory of the store that was opened, or made where it was
/// missing.
pub fn ensure_directory(
    readings: &EnsuredDirectoryReadings,
    owner: (u32, u32),
    exact_private: bool,
) -> (r: Result<FileStat, LocalInstallGenerationStoreError>)
    ensures
        local_install_store_files::stat_view(r) == ensured_directory(
            *readings,
            owner,
            exact_private,
        ),
{
    let missing = match readings.opened {
        OpenedEntry::Refused(OpenRefusal::Missing) => true,
        _ => false,
    };
    let created = missing && readings.made == CreationReading::Created;
    if missing && readings.made == CreationReading::Failed {
        return Err(
            store_error(
                LocalInstallGenerationStoreErrorKind::Io,
                "a local-install store directory could not be created",
            ),
        );
    }
    if missing {
        require_store_directory(readings.reopened)?;
    } else {
        require_store_directory(readings.opened)?;
    }
    if created && !readings.permissions_set {
        return Err(
            store_error(
                LocalInstallGenerationStoreErrorKind::Io,
                "private local-install directory permissions could not be set",
            ),
        );
    }
    let stat = inspect_optional_directory(
        readings.stat,
        Some(owner),
        exact_private,
        "local-install store directory",
    )?;
    if created && !readings.parent_synchronized {
        return Err(
            store_error(
                LocalInstallGenerationStoreErrorKind::Io,
                "could not synchronize local-install parent directory",
            ),
        );
    }
    Ok(stat)
}

/// The readings of the lock file that was made or opened.
#[derive(Debug)]
pub struct LockFileReadings {
    pub made: CreationReading,
    pub permissions_set: bool,
    pub synchronized: bool,
    pub root_synchronized: bool,
    /// Whether the lock that already stood there was opened.
    pub opened: bool,
    pub stat: Option<FileStat>,
}

/// What [`ensure_lock_file`] answers: the lock is an empty private file.
pub open spec fn ensured_lock(readings: LockFileReadings, owner: (u32, u32)) -> Result<
    FileStat,
    StoreErrorView,
> {
    match readings.made {
        CreationReading::Failed => Err(
            local_install_store_files::io("the local-install store lock could not be created"@),
        ),
        CreationReading::Created if !readings.permissions_set => Err(
            local_install_store_files::io(
                "local-install store lock permissions could not be set"@,
            ),
        ),
        CreationReading::Created if !readings.synchronized => Err(
            local_install_store_files::io(
                "the local-install store lock could not be synchronized"@,
            ),
        ),
        CreationReading::Created if !readings.root_synchronized => Err(
            local_install_store_files::io("could not synchronize local-install store root"@),
        ),
        CreationReading::Exists if !readings.opened => Err(
            local_install_generation_store::unsafe_filesystem(
                "the local-install store lock could not be opened safely"@,
            ),
        ),
        _ => local_install_store_files::inspected_optional_file(
            readings.stat,
            owner,
            PRIVATE_FILE_MODE,
            Some(0),
            "local-install store lock"@,
        ),
    }
}

/// Judges the lock file that was made, or opened where it already stood.
pub fn ensure_lock_file(readings: &LockFileReadings, owner: (u32, u32)) -> (r: Result<
    FileStat,
    LocalInstallGenerationStoreError,
>)
    ensures
        local_install_store_files::stat_view(r) == ensured_lock(*readings, owner),
{
    match readings.made {
        CreationReading::Failed => {
            return Err(
                store_error(
                    LocalInstallGenerationStoreErrorKind::Io,
                    "the local-install store lock could not be created",
                ),
            );
        },
        CreationReading::Created => {
            if !readings.permissions_set {
                return Err(
                    store_error(
                        LocalInstallGenerationStoreErrorKind::Io,
                        "local-install store lock permissions could not be set",
                    ),
                );
            }
            if !readings.synchronized {
                return Err(
                    store_error(
                        LocalInstallGenerationStoreErrorKind::Io,
                        "the local-install store lock could not be synchronized",
                    ),
                );
            }
            if !readings.root_synchronized {
                return Err(
                    store_error(
                        LocalInstallGenerationStoreErrorKind::Io,
                        "could not synchronize local-install store root",
                    ),
                );
            }
        },
        CreationReading::Exists => {
            if !readings.opened {
                return Err(
                    store_error(
                        LocalInstallGenerationStoreErrorKind::UnsafeFilesystem,
                        "the local-install store lock could not be opened safely",
                    ),
                );
            }
        },
    }
    inspect_optional_file(
        readings.stat,
        owner,
        PRIVATE_FILE_MODE,
        Some(0),
        "local-install store lock",
    )
}

/// What to do about the store root after it was looked for.
#[derive(Debug, Clone, Copy, PartialEq, Eq, Structural)]
pub enum RootChoice {
    /// It is there and has to prove its identity.
    OpenExisting,
    /// It is made aside and published without replacing anything.
    PublishNew,
}

/// What [`choose_root`] answers.
pub open spec fn root_choice(opened: OpenedEntry) -> Result<RootChoice, StoreErrorView> {
    match opened {
        OpenedEntry::Opened(_) => Ok(RootChoice::OpenExisting),
        OpenedEntry::Refused(OpenRefusal::Missing) => Ok(RootChoice::PublishNew),
        OpenedEntry::Refused(OpenRefusal::SymbolicLink)
        | OpenedEntry::Refused(OpenRefusal::NotADirectory) => Err(
            local_install_generation_store::unsafe_filesystem(
                "the local-install store root is symlinked or invalid"@,
            ),
        ),
        OpenedEntry::Refused(_) => Err(
            local_install_store_files::io("the local-install store root could not be opened"@),
        ),
    }
}

/// Decides whether the store root is opened or published.
pub fn choose_root(opened: OpenedEntry) -> (r: Result<
    RootChoice,
    LocalInstallGenerationStoreError,
>)
    ensures
        match r {
            Ok(choice) => root_choice(opened) == Ok::<_, StoreErrorView>(choice),
            Err(e) => root_choice(opened) == Err::<RootChoice, _>(e@),
        },
{
    match opened {
        OpenedEntry::Opened(_) => Ok(RootChoice::OpenExisting),
        OpenedEntry::Refused(OpenRefusal::Missing) => Ok(RootChoice::PublishNew),
        OpenedEntry::Refused(OpenRefusal::SymbolicLink)
        | OpenedEntry::Refused(OpenRefusal::NotADirectory) => Err(
            store_error(
                LocalInstallGenerationStoreErrorKind::UnsafeFilesystem,
                "the local-install store root is symlinked or invalid",
            ),
        ),
        OpenedEntry::Refused(_) => Err(
            store_error(
                LocalInstallGenerationStoreErrorKind::Io,
                "the local-install store root could not be opened",
            ),
        ),
    }
}

/// The name of a root that is made aside: the prefix and the random bytes in
/// lowercase hexadecimal.
pub open spec fn stage_name(random: Seq<u8>) -> Seq<char> {
    ".local-install.init-"@ + text::hex_text(random)
}

/// The name of a root that is made aside, from random bytes.
pub fn initialization_stage_name(random: &[u8]) -> (name: String)
    ensures
        name@ == stage_name(random@),
{
    let digits = text::hex_of(random);
    text::joined(INITIALIZATION_STAGE_PREFIX, digits.as_str())
}

/// How the attempts to make a root aside end.
pub open spec fn stage_attempts_end(attempts: Seq<CreationReading>) -> Result<nat, StoreErrorView>
    decreases attempts.len(),
{
    if attempts.len() == 0 {
        Err(
            local_install_generation_store::conflict(
                "a unique private local-install initialization root could not be created"@,
            ),
        )
    } else {
        match attempts[0] {
            CreationReading::Created => Ok(0),
            CreationReading::Failed => Err(
                local_install_store_files::io(
                    "a private local-install initialization root could not be created"@,
                ),
            ),
            CreationReading::Exists => match stage_attempts_end(attempts.skip(1)) {
                Ok(at) => Ok(at + 1),
                Err(e) => Err(e),
            },
        }
    }
}

/// Which of the attempts to make a root aside, each under a fresh name,
/// succeeded; only a name that is taken is tried again, a few times.
pub fn review_stage_attempts(attempts: &Vec<CreationReading>) -> (r: Result<
    usize,
    LocalInstallGenerationStoreError,
>)
    requires
        attempts@.len() <= INITIALIZATION_CREATE_ATTEMPTS,
    ensures
        match r {
            Ok(at) => stage_attempts_end(attempts@) == Ok::<_, StoreErrorView>(at as nat),
            Err(e) => stage_attempts_end(attempts@) == Err::<nat, _>(e@),
        },
{
    let mut at: usize = 0;
    assert(attempts@.skip(0) =~= attempts@);
    while at < attempts.len()
        invariant
            at <= attempts@.len(),
            stage_attempts_end(attempts@) == (match stage_attempts_end(
                attempts@.skip(at as int),
            ) {
                Ok(more) => Ok::<nat, StoreErrorView>((more + at) as nat),
                Err(e) => Err(e),
            }),
        decreases attempts@.len() - at,
    {
        assert(attempts@.skip(at as int)[0] == attempts@[at as int]);
        assert(attempts@.skip(at as int).skip(1) =~= attempts@.skip(at as int + 1));
        match attempts[at] {
            CreationReading::Created => {
                return Ok(at);
            },
            CreationReading::Failed => {
                return Err(
                    store_error(
                        LocalInstallGenerationStoreErrorKind::Io,
                        "a private local-install initialization root could not be created",
                    ),
                );
            },
            CreationReading::Exists => {},
        }
        at += 1;
    }
    Err(
        store_error(
            LocalInstallGenerationStoreErrorKind::Conflict,
            "a unique private local-install initialization root could not be created",
        ),
    )
}

/// What [`review_root_publication`] answers.
pub open spec fn root_publication(renamed: CreationReading) -> Result<RootChoice, StoreErrorView> {
    match renamed {
        CreationReading::Created => Ok(RootChoice::PublishNew),
        CreationReading::Exists => Ok(RootChoice::OpenExisting),
        CreationReading::Failed => Err(
            local_install_store_files::io(
                "the local-install store root could not be published atomically"@,
            ),
        ),
    }
}

/// Whose root stands at the store's name after a root made aside was renamed
/// to it: the new one, or one that was published meanwhile.
pub fn review_root_publication(renamed: CreationReading) -> (r: Result<
    RootChoice,
    LocalInstallGenerationStoreError,
>)
    ensures
        match r {
            Ok(choice) => root_publication(renamed) == Ok::<_, StoreErrorView>(choice),
            Err(e) => root_publication(renamed) == Err::<RootChoice, _>(e@),
        },
{
    match renamed {
        CreationReading::Created => Ok(RootChoice::PublishNew),
        CreationReading::Exists => Ok(RootChoice::OpenExisting),
        CreationReading::Failed => Err(
            store_error(
                LocalInstallGenerationStoreErrorKind::Io,
                "the local-install store root could not be published atomically",
            ),
        ),
    }
}

/// What is cleaned up of a root that was made aside and not published.
#[derive(Debug, Clone, Copy, PartialEq, Eq, Structural)]
pub struct StageCleanup {
    pub remove_identity: bool,
    pub remove_root: bool,
}

/// What [`plan_stage_cleanup`] answers: only the very root that was made is
/// removed, and its identity only if it is the very file that was written.
pub open spec fn stage_cleanup(
    made: FileStat,
    found: Option<FileStat>,
    written_identity: Option<FileStat>,
    found_identity: Option<FileStat>,
) -> StageCleanup {
    let ours = found is Some && file_evidence::is_same_object(made, found->0);
    StageCleanup {
        remove_identity: ours && written_identity is Some && found_identity is Some
            && file_evidence::is_same_object(written_identity->0, found_identity->0),
        remove_root: ours,
    }
}

/// Plans the cleanup of a root that was made aside and not published.
pub fn plan_stage_cleanup(
    made: &FileStat,
    found: Option<FileStat>,
    written_identity: Option<FileStat>,
    found_identity: Option<FileStat>,
) -> (cleanup: StageCleanup)
    ensures
        cleanup == stage_cleanup(*made, found, written_identity, found_identity),
{
    let ours = match found {
        Some(stat) => same_object(made, &stat),
        None => false,
    };
    let own_identity = match (written_identity, found_identity) {
        (Some(written), Some(stat)) => same_object(&written, &stat),
        _ => false,
    };
    StageCleanup { remove_identity: ours && own_identity, remove_root: ours }
}

/// What is expected of the entries of a store root.
#[derive(Debug, Clone, Copy, PartialEq, Eq, Structural)]
pub enum RootReview {
    /// Before the store is initialized, only its identity is required.
    Initial,
    /// Afterwards its lock and directories are required too.
    Complete,
}

pub open spec fn is_named(name: Seq<u8>, text: Seq<char>) -> bool {
    name == vstd::utf8::encode_utf8(text)
}

/// The names that a store root may hold.
pub open spec fn is_root_entry(name: Seq<u8>) -> bool {
    ||| is_named(name, "store.identity.json"@)
    ||| is_named(name, "lock"@)
    ||| is_named(name, "current"@)
    ||| is_named(name, "current.next"@)
    ||| is_named(name, "generations"@)
    ||| is_named(name, "staged"@)
}

pub open spec fn unreadable_entry(review: RootReview) -> StoreErrorView {
    match review {
        RootReview::Initial => local_install_store_files::io(
            "a local-install store root entry could not be read before initialization"@,
        ),
        RootReview::Complete => local_install_store_files::io(
            "a local-install store root entry could not be read"@,
        ),
    }
}

/// The first refusal among the entries from `at` on, behind `count` that were
/// passed.
pub open spec fn root_entry_refusal(
    review: RootReview,
    names: Seq<Option<Seq<u8>>>,
    at: nat,
    count: nat,
) -> Option<StoreErrorView>
    decreases names.len() - at,
{
    if at >= names.len() {
        None
    } else {
        match names[at as int] {
            None => Some(unreadable_entry(review)),
            Some(name) => if local_install_store_files::is_dot(name) {
                root_entry_refusal(review, names, at + 1, count)
            } else if count + 1 > MAX_STORE_ROOT_ENTRIES {
                Some(
                    local_install_generation_store::corrupt(
                        "the local-install store root contains too many entries"@,
                    ),
                )
            } else if !is_root_entry(name) {
                Some(
                    local_install_generation_store::corrupt(
                        "the local-install store root contains an unexpected entry"@,
                    ),
                )
            } else {
                root_entry_refusal(review, names, at + 1, count + 1)
            },
        }
    }
}

pub open spec fn lists(names: Seq<Option<Seq<u8>>>, text: Seq<char>) -> bool {
    names.contains(Some(vstd::utf8::encode_utf8(text)))
}

/// What [`inspect_root_entries`] answers.
pub open spec fn reviewed_root_entries(review: RootReview, reading: EntriesReading) -> Result<
    (),
    StoreErrorView,
> {
    let names = local_install_store_files::raw_names(reading.names@);
    if !reading.enumerated {
        Err(
            local_install_store_files::io(
                match review {
                    RootReview::Initial =>
                        "the local-install store root could not be enumerated before initialization"@,
                    RootReview::Complete =>
                        "the local-install store root could not be enumerated"@,
                },
            ),
        )
    } else {
        match root_entry_refusal(review, names, 0, 0) {
            Some(e) => Err(e),
            None => match review {
                RootReview::Initial => if lists(names, "store.identity.json"@) {
                    Ok(())
                } else {
                    Err(
                        local_install_generation_store::unsafe_filesystem(
                            "the local-install store root has no durable identity"@,
                        ),
                    )
                },
                RootReview::Complete => if lists(names, "store.identity.json"@) && lists(
                    names,
                    "lock"@,
                ) && lists(names, "generations"@) && lists(names, "staged"@) {
                    Ok(())
                } else {
                    Err(
                        local_install_generation_store::unsafe_filesystem(
                            "a required local-install store entry disappeared"@,
                        ),
                    )
                },
            },
        }
    }
}

fn root_entry(name: &[u8]) -> (r: bool)
    ensures
        r == is_root_entry(name@),
{
    same_bytes(name, STORE_IDENTITY_FILE.as_bytes()) || same_bytes(name, LOCK_FILE.as_bytes())
        || same_bytes(name, CURRENT_FILE.as_bytes()) || same_bytes(
        name,
        CURRENT_NEXT_FILE.as_bytes(),
    ) || same_bytes(name, GENERATIONS_DIRECTORY.as_bytes()) || same_bytes(
        name,
        STAGED_DIRECTORY.as_bytes(),
    )
}

fn is_listed(names: &Vec<Option<Vec<u8>>>, wanted: &str) -> (r: bool)
    ensures
        r == lists(local_install_store_files::raw_names(names@), wanted@),
{
    let ghost raw = local_install_store_files::raw_names(names@);
    let ghost entry = Some(vstd::utf8::encode_utf8(wanted@));
    let mut i: usize = 0;
    while i < names.len()
        invariant
            i <= names@.len(),
            raw == local_install_store_files::raw_names(names@),
            entry == Some(vstd::utf8::encode_utf8(wanted@)),
            forall|k: int| 0 <= k < i ==> #[trigger] raw[k] != entry,
        decreases names@.len() - i,
    {
        assert(raw[i as int] == outcome::option_view(names@[i as int]));
        if let Some(name) = &names[i] {
            if same_bytes(name.as_slice(), wanted.as_bytes()) {
                assert(raw[i as int] == entry);
                return true;
            }
        }
        i += 1;
    }
    false
}

fn require_root_entries(review: RootReview, names: &Vec<Option<Vec<u8>>>) -> (r: Result<
    (),
    LocalInstallGenerationStoreError,
>)
    ensures
        match r {
            Ok(_) => root_entry_refusal(
                review,
                local_install_store_files::raw_names(names@),
                0,
                0,
            ) is None,
            Err(e) => root_entry_refusal(
                review,
                local_install_store_files::raw_names(names@),
                0,
                0,
            ) == Some(e@),
        },
{
    let ghost raw = local_install_store_files::raw_names(names@);
    let mut at: usize = 0;
    let mut count: usize = 0;
    while at < names.len()
        invariant
            at <= names@.len(),
            count <= MAX_STORE_ROOT_ENTRIES,
            raw == local_install_store_files::raw_names(names@),
            root_entry_refusal(review, raw, 0, 0) == root_entry_refusal(
                review,
                raw,
                at as nat,
                count as nat,
            ),
        decreases names@.len() - at,
    {
        assert(raw[at as int] == outcome::option_view(names@[at as int]));
        let name = match &names[at] {
            Some(name) => name,
            None => {
                return Err(
                    store_error(
                        LocalInstallGenerationStoreErrorKind::Io,
                        match review {
                            RootReview::Initial =>
                                "a local-install store root entry could not be read before initialization",
                            RootReview::Complete =>
                                "a local-install store root entry could not be read",
                        },
                    ),
                );
            },
        };
        if !is_dot_entry(name.as_slice()) {
            if count >= MAX_STORE_ROOT_ENTRIES {
                return Err(
                    store_error(
                        LocalInstallGenerationStoreErrorKind::CorruptState,
                        "the local-install store root contains too many entries",
                    ),
                );
            }
            if !root_entry(name.as_slice()) {
                return Err(
                    store_error(
                        LocalInstallGenerationStoreErrorKind::CorruptState,
                        "the local-install store root contains an unexpected entry",
                    ),
                );
            }
            count += 1;
        }
        at += 1;
    }
    Ok(())
}

/// Judges the entries of a store root.
pub fn inspect_root_entries(review: RootReview, reading: &EntriesReading) -> (r: Result<
    (),
    LocalInstallGenerationStoreError,
>)
    ensures
        outcome::is_check(r, reviewed_root_entries(review, *reading)),
{
    if !reading.enumerated {
        return Err(
            store_error(
                LocalInstallGenerationStoreErrorKind::Io,
                match review {
                    RootReview::Initial =>
                        "the local-install store root could not be enumerated before initialization",
                    RootReview::Complete =>
                        "the local-install store root could not be enumerated",
                },
            ),
        );
    }
    require_root_entries(review, &reading.names)?;
    match review {
        RootReview::Initial => if is_listed(&reading.names, STORE_IDENTITY_FILE) {
            Ok(())
        } else {
            Err(
                store_error(
                    LocalInstallGenerationStoreErrorKind::UnsafeFilesystem,
                    "the local-install store root has no durable identity",
                ),
            )
        },
        RootReview::Complete => if is_listed(&reading.names, STORE_IDENTITY_FILE) && is_listed(
            &reading.names,
            LOCK_FILE,
        ) && is_listed(&reading.names, GENERATIONS_DIRECTORY) && is_listed(
            &reading.names,
            STAGED_DIRECTORY,
        ) {
            Ok(())
        } else {
            Err(
                store_error(
                    LocalInstallGenerationStoreErrorKind::UnsafeFilesystem,
                    "a required local-install store entry disappeared",
                ),
            )
        },
    }
}

/// The stored identity: its file, and what a JSON reader made of it.
#[derive(Debug)]
pub struct IdentityReadings {
    pub file: BoundedFileReadings,
    pub parsed: Option<StoreIdentityDocument>,
    pub root: Option<FileStat>,
}

/// What [`verify_identity`] answers.
pub open spec fn verified_identity(
    readings: IdentityReadings,
    owner: (u32, u32),
    location: LocalInstallStoreLocationClass,
) -> Result<(), StoreErrorView> {
    match local_install_store_files::bounded_file(
        readings.file,
        owner,
        PRIVATE_FILE_MODE,
        MAX_STORE_IDENTITY_BYTES,
        "local-install store identity"@,
    ) {
        Err(e) => Err(e),
        Ok(bytes) => if readings.parsed is None {
            Err(
                local_install_generation_store::corrupt(
                    "the local-install store identity is invalid"@,
                ),
            )
        } else {
            match local_install_store_files::inspected_optional_directory(
                readings.root,
                Some(owner),
                true,
                "local-install store root"@,
            ) {
                Err(e) => Err(e),
                Ok(root) => local_install_store_documents::verified_store_identity(
                    bytes,
                    readings.parsed,
                    location,
                    root.device,
                    root.inode,
                ),
            }
        },
    }
}

/// Checks that the stored identity is exactly that of the store root.
pub fn verify_identity(
    readings: IdentityReadings,
    owner: (u32, u32),
    location: LocalInstallStoreLocationClass,
) -> (r: Result<(), LocalInstallGenerationStoreError>)
    ensures
        outcome::is_check(r, verified_identity(readings, owner, location)),
{
    let IdentityReadings { file, parsed, root } = readings;
    let bytes = read_bounded_file(
        file,
        owner,
        PRIVATE_FILE_MODE,
        MAX_STORE_IDENTITY_BYTES,
        "local-install store identity",
    )?;
    if parsed.is_none() {
        return Err(
            store_error(
                LocalInstallGenerationStoreErrorKind::CorruptState,
                "the local-install store identity is invalid",
            ),
        );
    }
    let stat = inspect_optional_directory(root, Some(owner), true, "local-install store root")?;
    verify_store_identity_document(bytes.as_slice(), &parsed, location, stat.device, stat.inode)
}

/// The readings of a store root that already stood there.
#[derive(Debug)]
pub struct ExistingRootReadings {
    pub root: Option<FileStat>,
    pub identity_file: OpenedEntry,
    pub identity: IdentityReadings,
    pub entries: EntriesReading,
}

/// What [`open_existing_store_root`] answers: a root without an identity, or
/// with another one, is never adopted.
pub open spec fn opened_existing_root(
    readings: ExistingRootReadings,
    owner: (u32, u32),
    location: LocalInstallStoreLocationClass,
) -> Result<(), StoreErrorView> {
    match local_install_store_files::inspected_optional_directory(
        readings.root,
        Some(owner),
        true,
        "local-install store root"@,
    ) {
        Err(e) => Err(e),
        Ok(_) => match local_install_store_files::opened_file(
            readings.identity_file,
            owner,
            PRIVATE_FILE_MODE,
            "local-install store identity"@,
        ) {
            Err(e) => Err(
                if e.kind == LocalInstallGenerationStoreErrorKind::RecoveryRequired {
                    local_install_generation_store::unsafe_filesystem(
                        "a pre-existing local-install store root has no durable identity"@,
                    )
                } else {
                    e
                },
            ),
            Ok(_) => match verified_identity(readings.identity, owner, location) {
                Err(e) => Err(e),
                Ok(_) => reviewed_root_entries(RootReview::Initial, readings.entries),
            },
        },
    }
}

/// Judges a store root that already stood there.
pub fn open_existing_store_root(
    readings: ExistingRootReadings,
    owner: (u32, u32),
    location: LocalInstallStoreLocationClass,
) -> (r: Result<(), LocalInstallGenerationStoreError>)
    ensures
        outcome::is_check(r, opened_existing_root(readings, owner, location)),
{
    let ExistingRootReadings { root, identity_file, identity, entries } = readings;
    inspect_optional_directory(root, Some(owner), true, "local-install store root")?;
    match open_existing_file(
        identity_file,
        owner,
        PRIVATE_FILE_MODE,
        "local-install store identity",
    ) {
        Ok(_) => {},
        Err(e) => {
            if e.kind() == LocalInstallGenerationStoreErrorKind::RecoveryRequired {
                return Err(
                    store_error(
                        LocalInstallGenerationStoreErrorKind::UnsafeFilesystem,
                        "a pre-existing local-install store root has no durable identity",
                    ),
                );
            }
            return Err(e);
        },
    }
    verify_identity(identity, owner, location)?;
    inspect_root_entries(RootReview::Initial, &entries)
}

/// How asking for the store lock ended.
#[derive(Debug, Clone, Copy, PartialEq, Eq, Structural)]
pub enum StoreLockReading {
    Acquired,
    Held,
    Failed,
}

/// The readings of the store lock.
#[derive(Debug)]
pub struct StoreLockReadings {
    pub retained: Option<FileStat>,
    pub reopened: OpenedEntry,
    pub lock: StoreLockReading,
}

/// What [`acquire_lock`] answers: the lock is taken on the very file that was
/// kept open, without waiting.
pub open spec fn acquired_lock(readings: StoreLockReadings, owner: (u32, u32)) -> Result<
    (),
    StoreErrorView,
> {
    let subject = "local-install store lock"@;
    match local_install_store_files::inspected_optional_file(
        readings.retained,
        owner,
        PRIVATE_FILE_MODE,
        Some(0),
        subject,
    ) {
        Err(e) => Err(e),
        Ok(retained) => match readings.reopened {
            OpenedEntry::Refused(_) => Err(
                local_install_generation_store::unsafe_filesystem(
                    "the local-install store lock could not be reopened safely"@,
                ),
            ),
            OpenedEntry::Opened(stat) => match local_install_store_files::inspected_optional_file(
                stat,
                owner,
                PRIVATE_FILE_MODE,
                Some(0),
                subject,
            ) {
                Err(e) => Err(e),
                Ok(current) => if !file_evidence::is_same_object(retained, current) {
                    Err(
                        local_install_generation_store::unsafe_filesystem(
                            "the local-install store lock identity changed"@,
                        ),
                    )
                } else {
                    match readings.lock {
                        StoreLockReading::Acquired => Ok(()),
                        StoreLockReading::Held => Err(
                            local_install_generation_store::refusal(
                                LocalInstallGenerationStoreErrorKind::Busy,
                                "another local-install store operation holds the writer lock"@,
                            ),
                        ),
                        StoreLockReading::Failed => Err(
                            local_install_store_files::io(
                                "the local-install store lock could not be acquired"@,
                            ),
                        ),
                    }
                },
            },
        },
    }
}

/// Judges the lock that was asked for.
pub fn acquire_lock(readings: &StoreLockReadings, owner: (u32, u32)) -> (r: Result<
    (),
    LocalInstallGenerationStoreError,
>)
    ensures
        outcome::is_check(r, acquired_lock(*readings, owner)),
{
    let subject = "local-install store lock";
    let retained = inspect_optional_file(
        readings.retained,
        owner,
        PRIVATE_FILE_MODE,
        Some(0),
        subject,
    )?;
    let stat = match readings.reopened {
        OpenedEntry::Opened(stat) => stat,
        OpenedEntry::Refused(_) => {
            return Err(
                store_error(
                    LocalInstallGenerationStoreErrorKind::UnsafeFilesystem,
                    "the local-install store lock could not be reopened safely",
                ),
            );
        },
    };
    let current = inspect_optional_file(stat, owner, PRIVATE_FILE_MODE, Some(0), subject)?;
    if !same_object(&retained, &current) {
        return Err(
            store_error(
                LocalInstallGenerationStoreErrorKind::UnsafeFilesystem,
                "the local-install store lock identity changed",
            ),
        );
    }
    match readings.lock {
        StoreLockReading::Acquired => Ok(()),
        StoreLockReading::Held => Err(
            store_error(
                LocalInstallGenerationStoreErrorKind::Busy,
                "another local-install store operation holds the writer lock",
            ),
        ),
        StoreLockReading::Failed => Err(
            store_error(
                LocalInstallGenerationStoreErrorKind::Io,
                "the local-install store lock could not be acquired",
            ),
        ),
    }
}

/// An object that is kept open, and what its name reaches now.
#[derive(Debug, Clone, Copy, PartialEq, Eq)]
pub struct RetainedReadings {
    pub reopened: OpenedEntry,
    pub retained: Option<FileStat>,
}

/// The readings of everything that a store stands on.
#[derive(Debug)]
pub struct BoundaryReadings {
    pub root: RetainedReadings,
    pub identity_file: RetainedReadings,
    pub identity: IdentityReadings,
    pub generations: RetainedReadings,
    pub staged: RetainedReadings,
    pub entries: EntriesReading,
}

/// What [`verify_boundaries`] answers.
pub open spec fn verified_boundaries(
    readings: BoundaryReadings,
    owner: (u32, u32),
    location: LocalInstallStoreLocationClass,
) -> Result<(), StoreErrorView> {
    let root = local_install_store_files::retained_directory(
        readings.root.reopened,
        readings.root.retained,
        owner,
        "local-install store root"@,
    );
    let identity_file = local_install_store_files::retained_file(
        readings.identity_file.reopened,
        readings.identity_file.retained,
        owner,
        PRIVATE_FILE_MODE,
        "local-install store identity"@,
    );
    let identity = verified_identity(readings.identity, owner, location);
    let generations = local_install_store_files::retained_directory(
        readings.generations.reopened,
        readings.generations.retained,
        owner,
        "local-install generations directory"@,
    );
    let staged = local_install_store_files::retained_directory(
        readings.staged.reopened,
        readings.staged.retained,
        owner,
        "local-install staged directory"@,
    );
    if root is Err {
        root
    } else if identity_file is Err {
        identity_file
    } else if identity is Err {
        identity
    } else if generations is Err {
        generations
    } else if staged is Err {
        staged
    } else {
        reviewed_root_entries(RootReview::Complete, readings.entries)
    }
}

/// Checks under the lock that everything kept open is still what the store's
/// names reach.
pub fn verify_boundaries(
    readings: BoundaryReadings,
    owner: (u32, u32),
    location: LocalInstallStoreLocationClass,
) -> (r: Result<(), LocalInstallGenerationStoreError>)
    ensures
        outcome::is_check(r, verified_boundaries(readings, owner, location)),
{
    let BoundaryReadings { root, identity_file, identity, generations, staged, entries } = readings;
    verify_retained_directory(root.reopened, root.retained, owner, "local-install store root")?;
    verify_retained_file(
        identity_file.reopened,
        identity_file.retained,
        owner,
        PRIVATE_FILE_MODE,
        "local-install store identity",
    )?;
    verify_identity(identity, owner, location)?;
    verify_retained_directory(
        generations.reopened,
        generations.retained,
        owner,
        "local-install generations directory",
    )?;
    verify_retained_directory(
        staged.reopened,
        staged.retained,
        owner,
        "local-install staged directory",
    )?;
    inspect_root_entries(RootReview::Complete, &entries)
}

/// What [`verify_absolute_launcher_root`] answers.
pub open spec fn verified_launcher_root(
    root_path: Seq<char>,
    owner: (u32, u32),
    directory: DirectoryReadings,
    retained: Option<FileStat>,
    resolved: Option<FileStat>,
) -> Result<(), StoreErrorView> {
    match local_install_store_files::opened_absolute_directory(root_path, owner, directory) {
        Err(e) => Err(e),
        Ok(_) => match local_install_store_files::inspected_optional_directory(
            retained,
            Some(owner),
            true,
            "retained local-install store root"@,
        ) {
            Err(e) => Err(e),
            Ok(left) => match local_install_store_files::inspected_optional_directory(
                resolved,
                Some(owner),
                true,
                "resolved local-install store root"@,
            ) {
                Err(e) => Err(e),
                Ok(right) => if file_evidence::is_same_object(left, right) {
                    Ok(())
                } else {
                    Err(
                        local_install_generation_store::unsafe_filesystem(
                            "the absolute local-install store path no longer reaches the retained root"@,
                        ),
                    )
                },
            },
        },
    }
}

/// Checks that the absolute path of the store still reaches the root that is
/// kept open.
pub fn verify_absolute_launcher_root(
    root_path: &str,
    owner: (u32, u32),
    directory: &DirectoryReadings,
    retained: Option<FileStat>,
    resolved: Option<FileStat>,
) -> (r: Result<(), LocalInstallGenerationStoreError>)
    ensures
        outcome::is_check(
            r,
            verified_launcher_root(root_path@, owner, *directory, retained, resolved),
        ),
{
    open_absolute_directory(root_path, owner, directory)?;
    let left = inspect_optional_directory(
        retained,
        Some(owner),
        true,
        "retained local-install store root",
    )?;
    let right = inspect_optional_directory(
        resolved,
        Some(owner),
        true,
        "resolved local-install store root",
    )?;
    if !same_object(&left, &right) {
        return Err(
            store_error(
                LocalInstallGenerationStoreErrorKind::UnsafeFilesystem,
                "the absolute local-install store path no longer reaches the retained root",
            ),
        );
    }
    Ok(())
}

/// The readings of a launcher target that was resolved from the filesystem
/// root once more.
#[derive(Debug)]
pub struct ResolvedTargetReadings {
    pub directory: DirectoryReadings,
    pub file: OpenedEntry,
    /// The binary that was verified and kept open.
    pub retained: Option<FileStat>,
    pub resolved: Option<FileStat>,
}

pub open spec fn is_binary_path(path: Seq<char>) -> bool {
    let entries = paths::named_entries(path);
    entries.len() > 0 && entries.last() == "glaeda"@
}

/// What [`verify_resolved_path`] answers.
pub open spec fn verified_resolved_path(
    path: Seq<char>,
    owner: (u32, u32),
    readings: ResolvedTargetReadings,
) -> Result<(), StoreErrorView> {
    let subject = "resolved launcher target"@;
    if !paths::is_upright(path) {
        Err(
            local_install_store_files::invalid_location(
                "the resolved launcher target path is invalid"@,
            ),
        )
    } else if paths::named_entries(path).len() == 0 {
        Err(
            local_install_store_files::invalid_location(
                "the resolved launcher target parent is unavailable"@,
            ),
        )
    } else if !is_binary_path(path) {
        Err(
            local_install_store_files::invalid_location(
                "the resolved launcher target name is invalid"@,
            ),
        )
    } else {
        match local_install_store_files::opened_absolute_directory(
            path,
            owner,
            readings.directory,
        ) {
            Err(e) => Err(e),
            Ok(_) => match local_install_store_files::opened_file(
                readings.file,
                owner,
                PRIVATE_BINARY_MODE,
                subject,
            ) {
                Err(e) => Err(e),
                Ok(_) => same_target(readings.retained, readings.resolved, owner),
            },
        }
    }
}

pub open spec fn same_target(
    retained: Option<FileStat>,
    resolved: Option<FileStat>,
    owner: (u32, u32),
) -> Result<(), StoreErrorView> {
    match local_install_store_files::inspected_optional_file(
        retained,
        owner,
        PRIVATE_BINARY_MODE,
        None,
        "retained launcher target"@,
    ) {
        Err(e) => Err(e),
        Ok(left) => match local_install_store_files::inspected_optional_file(
            resolved,
            owner,
            PRIVATE_BINARY_MODE,
            None,
            "resolved launcher target"@,
        ) {
            Err(e) => Err(e),
            Ok(right) => if left == right {
                Ok(())
            } else {
                Err(
                    local_install_generation_store::unsafe_filesystem(
                        "the absolute launcher target no longer resolves to the verified generation"@,
                    ),
                )
            },
        },
    }
}

/// Checks that the absolute path that a launcher names still resolves to the
/// retained, fully verified binary. The way is walked from the filesystem root
/// once more: what is kept open cannot tell what a later execution of an
/// absolute link will reach after a directory above was replaced.
///
/// The directory readings are those of the directory that holds the binary.
pub fn verify_resolved_path(
    path: &str,
    owner: (u32, u32),
    readings: &ResolvedTargetReadings,
) -> (r: Result<(), LocalInstallGenerationStoreError>)
    ensures
        outcome::is_check(r, verified_resolved_path(path@, owner, *readings)),
{
    if !paths::upright(path) {
        return Err(
            store_error(
                LocalInstallGenerationStoreErrorKind::InvalidLocation,
                "the resolved launcher target path is invalid",
            ),
        );
    }
    let entries = paths::normal_components(path);
    if entries.len() == 0 {
        return Err(
            store_error(
                LocalInstallGenerationStoreErrorKind::InvalidLocation,
                "the resolved launcher target parent is unavailable",
            ),
        );
    }
    assert(paths::named_entries(path@).last() == entries@.last()@);
    if !text::same_text(entries[entries.len() - 1].as_str(), BINARY_FILE) {
        return Err(
            store_error(
                LocalInstallGenerationStoreErrorKind::InvalidLocation,
                "the resolved launcher target name is invalid",
            ),
        );
    }
    open_absolute_directory(path, owner, &readings.directory)?;
    open_existing_file(readings.file, owner, PRIVATE_BINARY_MODE, "resolved launcher target")?;
    let left = inspect_optional_file(
        readings.retained,
        owner,
        PRIVATE_BINARY_MODE,
        None,
        "retained launcher target",
    )?;
    let right = inspect_optional_file(
        readings.resolved,
        owner,
        PRIVATE_BINARY_MODE,
        None,
        "resolved launcher target",
    )?;
    if !same_file_snapshot(&left, &right) {
        return Err(
            store_error(
                LocalInstallGenerationStoreErrorKind::UnsafeFilesystem,
                "the absolute launcher target no longer resolves to the verified generation",
            ),
        );
    }
    Ok(())
}

/// The readings of one generation that a launcher may point to.
#[derive(Debug)]
pub struct TargetReadings {
    pub directory: DirectoryObservation,
    pub resolved: ResolvedTargetReadings,
}

/// Where the binary of a generation stands.
pub open spec fn binary_path(root_path: Seq<char>, generation_name: Seq<char>) -> Seq<char> {
    paths::child(
        paths::child(paths::child(root_path, "generations"@), generation_name),
        "glaeda"@,
    )
}

/// What [`launcher_target`] answers.
pub open spec fn verified_target(
    root_path: Seq<char>,
    owner: (u32, u32),
    generation: GenerationView,
    directory: Option<DirectoryView>,
    resolved: Option<ResolvedTargetReadings>,
) -> Result<TargetView, StoreErrorView> {
    match local_install_generation_store::named_generation(generation.identity) {
        Err(e) => Err(e),
        Ok(name) => if directory is None || resolved is None {
            Err(
                local_install_generation_store::recovery_required(
                    "a launcher generation could not be reopened safely"@,
                ),
            )
        } else {
            let found = directory->0;
            match found.opened {
                Err(e) => Err(e),
                Ok(_) => match local_install_store_observation::complete_generation(
                    found,
                    owner,
                    None,
                    Some(generation.identity),
                ) {
                    Err(e) => Err(e),
                    Ok(loaded) => match found.still_named {
                        Err(e) => Err(e),
                        Ok(_) => if loaded.generation != generation {
                            Err(
                                local_install_generation_store::conflict(
                                    "the launcher generation changed after current-state verification"@,
                                ),
                            )
                        } else {
                            let path = binary_path(root_path, name);
                            match verified_resolved_path(path, owner, resolved->0) {
                                Err(e) => Err(e),
                                Ok(_) => Ok(
                                    TargetView {
                                        identity: generation.identity,
                                        path: vstd::utf8::encode_utf8(path),
                                    },
                                ),
                            }
                        },
                    },
                },
            }
        },
    }
}

pub open spec fn target_directory(readings: Option<TargetReadings>) -> Option<DirectoryView> {
    match readings {
        Some(value) => Some(value.directory@),
        None => None,
    }
}

pub open spec fn target_resolution(readings: Option<TargetReadings>) -> Option<
    ResolvedTargetReadings,
> {
    match readings {
        Some(value) => Some(value.resolved),
        None => None,
    }
}

/// Verifies one generation as a launcher target.
pub fn launcher_target(
    root_path: &str,
    owner: (u32, u32),
    generation: &InstalledLocalBinaryGeneration,
    readings: &Option<TargetReadings>,
) -> (r: Result<LocalInstallLauncherTarget, LocalInstallGenerationStoreError>)
    ensures
        outcome::is_outcome(
            r,
            verified_target(
                root_path@,
                owner,
                generation@,
                target_directory(*readings),
                target_resolution(*readings),
            ),
        ),
{
    let name = generation_directory_name(&generation.identity)?;
    let found = match readings {
        Some(found) => found,
        None => {
            return Err(
                store_error(
                    LocalInstallGenerationStoreErrorKind::RecoveryRequired,
                    "a launcher generation could not be reopened safely",
                ),
            );
        },
    };
    if let Err(e) = &found.directory.opened {
        return Err(e.clone());
    }
    let loaded = verify_complete_generation_directory(
        &found.directory,
        owner,
        None,
        Some(&generation.identity),
    )?;
    if let Err(e) = &found.directory.still_named {
        return Err(e.clone());
    }
    if !loaded.generation.same_as(generation) {
        return Err(
            store_error(
                LocalInstallGenerationStoreErrorKind::Conflict,
                "the launcher generation changed after current-state verification",
            ),
        );
    }
    let generations = paths::child_of(root_path, GENERATIONS_DIRECTORY);
    let directory = paths::child_of(generations.as_str(), name.as_str());
    let path = paths::child_of(directory.as_str(), BINARY_FILE);
    verify_resolved_path(path.as_str(), owner, &found.resolved)?;
    Ok(
        LocalInstallLauncherTarget {
            identity: generation.identity.clone(),
            path: vstd::slice::slice_to_vec(path.as_str().as_bytes()),
        },
    )
}

/// The readings of everything that launcher targets are verified from.
#[derive(Debug)]
pub struct TargetsReadings {
    /// Whether the absolute path of the store reaches its root.
    pub root: Result<(), LocalInstallGenerationStoreError>,
    pub store: StoreObservation,
    pub accepted: Option<TargetReadings>,
    pub retained: Option<TargetReadings>,
}

/// The targets that a clean state has: the accepted generation, then the
/// retained one.
pub open spec fn state_targets(
    root_path: Seq<char>,
    owner: (u32, u32),
    snapshot: SnapshotView,
    accepted: Option<TargetReadings>,
    retained: Option<TargetReadings>,
) -> Result<Seq<TargetView>, StoreErrorView> {
    let state = snapshot.state;
    let first = match state.accepted {
        None => Ok(Seq::<TargetView>::empty()),
        Some(generation) => match verified_target(
            root_path,
            owner,
            generation,
            target_directory(accepted),
            target_resolution(accepted),
        ) {
            Err(e) => Err(e),
            Ok(target) => Ok(seq![target]),
        },
    };
    match first {
        Err(e) => Err(e),
        Ok(targets) => if state.retained.len() == 0 {
            Ok(targets)
        } else {
            match verified_target(
                root_path,
                owner,
                state.retained[0],
                target_directory(retained),
                target_resolution(retained),
            ) {
                Err(e) => Err(e),
                Ok(target) => Ok(targets.push(target)),
            }
        },
    }
}

/// What [`launcher_targets`] answers.
pub open spec fn verified_targets(
    root_path: Seq<char>,
    owner: (u32, u32),
    readings: TargetsReadings,
) -> Result<Seq<TargetView>, StoreErrorView> {
    match outcome::check_view(readings.root) {
        Err(e) => Err(e),
        Ok(_) => match local_install_store_publication::clean_state(readings.store@) {
            Err(e) => Err(e),
            Ok(snapshot) => state_targets(
                root_path,
                owner,
                snapshot,
                readings.accepted,
                readings.retained,
            ),
        },
    }
}

/// The accepted and retained generations as launcher targets, after a complete
/// load under the shared lock.
///
/// They have passed canonical document, ownership, mode, link, byte-length and
/// SHA-256 verification. Recovery debt fails before any target is returned.
pub fn launcher_targets(root_path: &str, owner: (u32, u32), readings: &TargetsReadings) -> (r:
    Result<Vec<LocalInstallLauncherTarget>, LocalInstallGenerationStoreError>)
    ensures
        match r {
            Ok(targets) => verified_targets(root_path@, owner, *readings) == Ok::<
                _,
                StoreErrorView,
            >(outcome::seq_view(targets@)),
            Err(e) => verified_targets(root_path@, owner, *readings) == Err::<
                Seq<TargetView>,
                _,
            >(e@),
        },
{
    if let Err(e) = &readings.root {
        return Err(e.clone());
    }
    let snapshot = load_clean_state(&readings.store)?;
    let mut targets: Vec<LocalInstallLauncherTarget> = Vec::new();
    assert(outcome::seq_view(targets@) =~= Seq::<TargetView>::empty());
    if let Some(generation) = &snapshot.state().accepted {
        let target = launcher_target(root_path, owner, generation, &readings.accepted)?;
        let ghost view = target@;
        targets.push(target);
        assert(outcome::seq_view(targets@) =~= seq![view]);
    }
    let retained = &snapshot.state().retained;
    if retained.len() > 0 {
        let ghost before = outcome::seq_view(targets@);
        let target = launcher_target(root_path, owner, &retained[0], &readings.retained)?;
        let ghost view = target@;
        targets.push(target);
        assert(outcome::seq_view(targets@) =~= before.push(view));
    }
    Ok(targets)
}

/// Launcher targets are only ever generations that a clean state names.
pub proof fn law_targets_are_stored_generations(
    root_path: Seq<char>,
    owner: (u32, u32),
    readings: TargetsReadings,
)
    requires
        verified_targets(root_path, owner, readings) is Ok,
    ensures
        local_install_store_publication::clean_state(readings.store@) is Ok,
        ({
            let targets = verified_targets(root_path, owner, readings)->Ok_0;
            let state = local_install_store_publication::clean_state(readings.store@)->Ok_0.state;
            forall|i: int|
                0 <= i < targets.len() ==> (state.accepted is Some && (#[trigger] targets[i]).identity
                    == state.accepted->0.identity) || (state.retained.len() > 0
                    && targets[i].identity == state.retained[0].identity)
        }),
{
}

/// A root directory that holds no identity of its own is never adopted.
pub proof fn law_foreign_roots_are_not_adopted(
    readings: ExistingRootReadings,
    owner: (u32, u32),
    location: LocalInstallStoreLocationClass,
)
    requires
        opened_existing_root(readings, owner, location) is Ok,
    ensures
        readings.root is Some,
        readings.identity_file is Opened,
        readings.identity.parsed matches Some(document) && readings.identity.root matches Some(
            root,
        ) && local_install_store_documents::is_store_identity_of(
            document,
            location,
            root.device,
            root.inode,
        ),
        lists(local_install_store_files::raw_names(readings.entries.names@), "store.identity.json"@),
{
}

/// The store stands below the XDG data directory on Linux where one is named,
/// below the home directory otherwise, and nowhere on other platforms.
pub proof fn law_store_locations_are_selected(
    platform: StorePlatform,
    xdg_data_home: Option<Seq<char>>,
    home: Option<Seq<char>>,
)
    ensures
        ({
            let selected = selected_location(platform, xdg_data_home, home);
            let named = xdg_data_home is Some && xdg_data_home->0.len() > 0;
            &&& selected is Ok <==> match platform {
                StorePlatform::Linux => named || home is Some,
                StorePlatform::Macos => home is Some,
                StorePlatform::Other => false,
            }
            &&& selected matches Ok(location) ==> match platform {
                StorePlatform::Linux => if named {
                    location.class == LocalInstallStoreLocationClass::LinuxXdgDataHome
                        && location.base == xdg_data_home->0
                } else {
                    location.class == LocalInstallStoreLocationClass::LinuxHomeDefault
                        && location.base == home->0
                },
                _ => location.class == LocalInstallStoreLocationClass::MacosApplicationSupport
                    && location.base == home->0,
            }
            &&& selected matches Ok(location) ==> location.root_path == match location.class {
                LocalInstallStoreLocationClass::LinuxXdgDataHome => paths::child(
                    paths::child(location.base, "glaeda"@),
                    "local-install"@,
                ),
                LocalInstallStoreLocationClass::LinuxHomeDefault => paths::child(
                    paths::child(
                        paths::child(paths::child(location.base, ".local"@), "share"@),
                        "glaeda"@,
                    ),
                    "local-install"@,
                ),
                LocalInstallStoreLocationClass::MacosApplicationSupport => paths::child(
                    paths::child(
                        paths::child(
                            paths::child(location.base, "Library"@),
                            "Application Support"@,
                        ),
                        "Glaeda"@,
                    ),
                    "local-install"@,
                ),
            }
            &&& platform == StorePlatform::Other ==> selected->Err_0.kind
                == LocalInstallGenerationStoreErrorKind::UnsupportedPlatform
            &&& platform != StorePlatform::Other && selected is Err ==> selected->Err_0.kind
                == LocalInstallGenerationStoreErrorKind::InvalidLocation
        }),
{
    reveal_with_fuel(descended, 5);
    if selected_location(platform, xdg_data_home, home) is Ok {
        let location = selected_location(platform, xdg_data_home, home)->Ok_0;
        let base = location.base;
        let xdg = location_components(LocalInstallStoreLocationClass::LinuxXdgDataHome);
        let linux = location_components(LocalInstallStoreLocationClass::LinuxHomeDefault);
        let macos = location_components(LocalInstallStoreLocationClass::MacosApplicationSupport);
        assert(xdg.drop_last() =~= seq!["glaeda"@]);
        assert(xdg.drop_last().drop_last() =~= Seq::empty());
        assert(linux.drop_last() =~= seq![".local"@, "share"@, "glaeda"@]);
        assert(linux.drop_last().drop_last() =~= seq![".local"@, "share"@]);
        assert(linux.drop_last().drop_last().drop_last() =~= seq![".local"@]);
        assert(linux.drop_last().drop_last().drop_last().drop_last() =~= Seq::empty());
        assert(macos.drop_last() =~= seq!["Library"@, "Application Support"@, "Glaeda"@]);
        assert(macos.drop_last().drop_last() =~= seq!["Library"@, "Application Support"@]);
        assert(macos.drop_last().drop_last().drop_last() =~= seq!["Library"@]);
        assert(macos.drop_last().drop_last().drop_last().drop_last() =~= Seq::empty());
    }
}

/// The last two directories of a location are the store's own and closed to
/// everybody else; those before them are shared with the user's other data.
pub proof fn law_own_directories_are_exactly_private(components: nat, index: nat)
    requires
        index < components,
    ensures
        is_exactly_private(components, index) <==> index == components - 1 || index == components
            - 2,
{
}

/// A directory of the store is there exactly when it stood there or was made
/// with every step of making it, and is the owner's and as closed as asked for.
pub proof fn law_store_directories_are_ensured(
    readings: EnsuredDirectoryReadings,
    owner: (u32, u32),
    exact_private: bool,
)
    ensures
        ensured_directory(readings, owner, exact_private) is Ok <==> {
            let made = readings.opened == OpenedEntry::Refused(OpenRefusal::Missing)
                && readings.reopened is Opened && (readings.made == CreationReading::Exists || (
            readings.made == CreationReading::Created && readings.permissions_set
                && readings.parent_synchronized));
            &&& readings.opened is Opened || made
            &&& readings.stat matches Some(stat) && stat.mode & 0o170000 == 0o040000 && stat.owner
                == owner.0 && stat.group == owner.1 && (if exact_private {
                stat.mode & 0o7777 == 0o700
            } else {
                stat.mode & 0o022 == 0
            })
        },
        ensured_directory(readings, owner, exact_private) matches Ok(stat) ==> readings.stat
            == Some(stat),
        readings.opened == OpenedEntry::Refused(OpenRefusal::SymbolicLink) ==> ensured_directory(
            readings,
            owner,
            exact_private,
        )->Err_0.kind == LocalInstallGenerationStoreErrorKind::UnsafeFilesystem,
{
}

/// The lock is an empty file of mode 0600 that stood there and was opened, or
/// was made with every step of making it.
pub proof fn law_locks_are_empty_private_files(readings: LockFileReadings, owner: (u32, u32))
    ensures
        ensured_lock(readings, owner) is Ok <==> {
            &&& match readings.made {
                CreationReading::Created => readings.permissions_set && readings.synchronized
                    && readings.root_synchronized,
                CreationReading::Exists => readings.opened,
                CreationReading::Failed => false,
            }
            &&& readings.stat matches Some(stat) && file_evidence::is_closed_file(
                stat,
                owner,
                0o600,
            ) && stat.size == 0
        },
{
}

/// A root that is there has to prove its identity and one that is missing is
/// published; a link or a file in its place is neither.
pub proof fn law_roots_are_opened_or_published(opened: OpenedEntry, renamed: CreationReading)
    ensures
        root_choice(opened) == Ok::<RootChoice, StoreErrorView>(RootChoice::OpenExisting)
            <==> opened is Opened,
        root_choice(opened) == Ok::<RootChoice, StoreErrorView>(RootChoice::PublishNew) <==> opened
            == OpenedEntry::Refused(OpenRefusal::Missing),
        opened == OpenedEntry::Refused(OpenRefusal::SymbolicLink) ==> root_choice(
            opened,
        )->Err_0.kind == LocalInstallGenerationStoreErrorKind::UnsafeFilesystem,
        root_publication(renamed) == Ok::<RootChoice, StoreErrorView>(RootChoice::PublishNew)
            <==> renamed == CreationReading::Created,
        root_publication(renamed) == Ok::<RootChoice, StoreErrorView>(RootChoice::OpenExisting)
            <==> renamed == CreationReading::Exists,
{
}

/// The first attempt at making a stage that does not meet an existing one ends
/// the attempts: it made the stage or it failed. When all of them met one, the
/// attempts are in conflict.
pub proof fn law_stage_attempts_end_at_the_first_free_name(
    attempts: Seq<CreationReading>,
    at: int,
)
    requires
        0 <= at <= attempts.len(),
        forall|k: int| 0 <= k < at ==> #[trigger] attempts[k] == CreationReading::Exists,
    ensures
        at < attempts.len() && attempts[at] == CreationReading::Created ==> stage_attempts_end(
            attempts,
        ) == Ok::<nat, StoreErrorView>(at as nat),
        at < attempts.len() && attempts[at] == CreationReading::Failed ==> stage_attempts_end(
            attempts,
        ) is Err && stage_attempts_end(attempts)->Err_0.kind
            == LocalInstallGenerationStoreErrorKind::Io,
        at == attempts.len() ==> stage_attempts_end(attempts) is Err && stage_attempts_end(
            attempts,
        )->Err_0.kind == LocalInstallGenerationStoreErrorKind::Conflict,
    decreases attempts.len(),
{
    if at > 0 {
        let rest = attempts.skip(1);
        assert(attempts[0] == CreationReading::Exists);
        assert forall|k: int| 0 <= k < at - 1 implies #[trigger] rest[k]
            == CreationReading::Exists by {
            assert(attempts[k + 1] == CreationReading::Exists);
        }
        law_stage_attempts_end_at_the_first_free_name(rest, at - 1);
        if at < attempts.len() {
            assert(rest[at - 1] == attempts[at]);
        }
    }
}

/// A failed initialization removes only what it made itself: the stage if it is
/// still the very directory, and the identity in it if that too is the very
/// file.
pub proof fn law_cleanup_removes_only_its_own(
    made: FileStat,
    found: Option<FileStat>,
    written_identity: Option<FileStat>,
    found_identity: Option<FileStat>,
)
    ensures
        ({
            let cleanup = stage_cleanup(made, found, written_identity, found_identity);
            &&& cleanup.remove_root <==> (found matches Some(stat) && stat.device == made.device
                && stat.inode == made.inode)
            &&& cleanup.remove_identity ==> cleanup.remove_root
            &&& cleanup.remove_identity <==> cleanup.remove_root && (written_identity matches Some(
                w,
            ) && found_identity matches Some(f) && w.device == f.device && w.inode == f.inode)
        }),
{
}

/// The lock is acquired exactly when the file that was kept open is still the
/// one under its name, both empty and private, and nobody holds it; where
/// somebody does, the store is busy.
pub proof fn law_locks_are_acquired_on_the_retained_file(
    readings: StoreLockReadings,
    owner: (u32, u32),
)
    ensures
        ({
            let sound = readings.retained is Some && (readings.reopened matches OpenedEntry::Opened(
                Some(now),
            ) && {
                let kept = readings.retained->0;
                &&& file_evidence::is_closed_file(kept, owner, 0o600) && kept.size == 0
                &&& file_evidence::is_closed_file(now, owner, 0o600) && now.size == 0
                &&& kept.device == now.device && kept.inode == now.inode
            });
            &&& acquired_lock(readings, owner) is Ok <==> sound && readings.lock
                == StoreLockReading::Acquired
            &&& sound && readings.lock == StoreLockReading::Held ==> acquired_lock(
                readings,
                owner,
            )->Err_0.kind == LocalInstallGenerationStoreErrorKind::Busy
        }),
{
}

/// The identity of a store is verified exactly when its file is private and
/// small enough, and says in canonical bytes that the store is of this location
/// and stands in this very directory.
pub proof fn law_identities_are_of_their_own_root(
    readings: IdentityReadings,
    owner: (u32, u32),
    location: LocalInstallStoreLocationClass,
)
    ensures
        verified_identity(readings, owner, location) is Ok <==> {
            let root = readings.root->0;
            let document = readings.parsed->0;
            &&& local_install_store_files::bounded_file(
                readings.file,
                owner,
                0o600,
                1024,
                "local-install store identity"@,
            ) is Ok
            &&& readings.root is Some && file_evidence::is_closed_directory(root, owner)
            &&& readings.parsed is Some
            &&& document.store_schema_version == 1
            &&& document.location == location
            &&& document.root_device == root.device
            &&& document.root_inode == root.inode
            &&& local_install_store_documents::encoded_store_identity(
                location,
                root.device,
                root.inode,
            ) == Ok::<Seq<u8>, StoreErrorView>(readings.file.bytes->0@)
        },
{
}

/// An existing root is opened exactly when it and its identity file are
/// private, its identity is its own, and it holds nothing unexpected. One
/// without an identity file is never adopted.
pub proof fn law_existing_roots_prove_their_identity(
    readings: ExistingRootReadings,
    owner: (u32, u32),
    location: LocalInstallStoreLocationClass,
)
    ensures
        opened_existing_root(readings, owner, location) is Ok <==> {
            &&& readings.root matches Some(root) && file_evidence::is_closed_directory(root, owner)
            &&& readings.identity_file matches OpenedEntry::Opened(Some(file))
                && file_evidence::is_closed_file(file, owner, 0o600)
            &&& verified_identity(readings.identity, owner, location) is Ok
            &&& reviewed_root_entries(RootReview::Initial, readings.entries) is Ok
        },
        (readings.root matches Some(root) && file_evidence::is_closed_directory(root, owner))
            && readings.identity_file == OpenedEntry::Refused(OpenRefusal::Missing)
            ==> opened_existing_root(readings, owner, location)->Err_0.kind
            == LocalInstallGenerationStoreErrorKind::UnsafeFilesystem,
{
}

/// The boundaries of a store hold exactly when its root, its two directories
/// and its identity file are still the private objects that were opened, its
/// identity is its own, and nothing that it needs is missing.
pub proof fn law_boundaries_hold_together(
    readings: BoundaryReadings,
    owner: (u32, u32),
    location: LocalInstallStoreLocationClass,
)
    ensures
        verified_boundaries(readings, owner, location) is Ok <==> {
            &&& is_kept_directory(readings.root, owner)
            &&& is_kept_directory(readings.generations, owner)
            &&& is_kept_directory(readings.staged, owner)
            &&& readings.identity_file.retained matches Some(kept)
                && readings.identity_file.reopened matches OpenedEntry::Opened(Some(now))
                && file_evidence::is_closed_file(now, owner, 0o600) && kept.device == now.device
                && kept.inode == now.inode
            &&& verified_identity(readings.identity, owner, location) is Ok
            &&& reviewed_root_entries(RootReview::Complete, readings.entries) is Ok
        },
{
}

/// The directory that was kept open is still the private one under its name.
pub open spec fn is_kept_directory(readings: RetainedReadings, owner: (u32, u32)) -> bool {
    readings.retained matches Some(kept) && readings.reopened matches OpenedEntry::Opened(Some(now))
        && file_evidence::is_closed_directory(kept, owner) && file_evidence::is_closed_directory(
        now,
        owner,
    ) && kept.device == now.device && kept.inode == now.inode
}

/// A name that a store root can hold.
pub open spec fn belongs_to_root(name: Seq<u8>) -> bool {
    exists|k: int| 0 <= k < 6 && name == vstd::utf8::encode_utf8(#[trigger] root_names()[k])
}

pub open spec fn root_names() -> Seq<Seq<char>> {
    seq![
        "store.identity.json"@,
        "lock"@,
        "current"@,
        "current.next"@,
        "generations"@,
        "staged"@,
    ]
}

/// A root is as it should be exactly when every entry in it belongs there and
/// the required ones are there: its identity before it is initialized, and its
/// lock and directories afterwards.
pub proof fn law_roots_hold_what_belongs_to_them(review: RootReview, reading: EntriesReading)
    requires
        reading.names@.len() <= 7,
    ensures
        ({
            let names = local_install_store_files::raw_names(reading.names@);
            reviewed_root_entries(review, reading) is Ok <==> {
                &&& reading.enumerated
                &&& forall|k: int|
                    0 <= k < names.len() ==> match #[trigger] names[k] {
                        Some(name) => local_install_store_files::is_dot(name) || belongs_to_root(
                            name,
                        ),
                        None => false,
                    }
                &&& lists(names, "store.identity.json"@)
                &&& review == RootReview::Complete ==> lists(names, "lock"@) && lists(
                    names,
                    "generations"@,
                ) && lists(names, "staged"@)
            }
        }),
{
    let names = local_install_store_files::raw_names(reading.names@);
    lemma_root_entries(review, names, 0, 0);
}

proof fn lemma_belongs_to_root(name: Seq<u8>)
    ensures
        belongs_to_root(name) <==> is_root_entry(name),
{
    let all = root_names();
    assert(all[0] == "store.identity.json"@ && all[1] == "lock"@ && all[2] == "current"@ && all[3]
        == "current.next"@ && all[4] == "generations"@ && all[5] == "staged"@);
    if belongs_to_root(name) {
        let k = choose|k: int| 0 <= k < 6 && name == vstd::utf8::encode_utf8(#[trigger] all[k]);
        assert(k == 0 || k == 1 || k == 2 || k == 3 || k == 4 || k == 5);
    }
}

proof fn lemma_root_entries(
    review: RootReview,
    names: Seq<Option<Seq<u8>>>,
    at: nat,
    count: nat,
)
    requires
        names.len() <= 7,
        count <= at <= names.len(),
    ensures
        root_entry_refusal(review, names, at, count) is None <==> forall|k: int|
            at <= k < names.len() ==> match #[trigger] names[k] {
                Some(name) => local_install_store_files::is_dot(name) || belongs_to_root(name),
                None => false,
            },
    decreases names.len() - at,
{
    if at < names.len() {
        let here = names[at as int];
        if here is Some {
            lemma_belongs_to_root(here->0);
            if local_install_store_files::is_dot(here->0) {
                lemma_root_entries(review, names, at + 1, count);
            } else {
                lemma_root_entries(review, names, at + 1, count + 1);
            }
        }
    }
}

/// The path of the store reaches its root exactly when the way to it holds and
/// it is the private directory that was kept open.
pub proof fn law_launcher_roots_are_the_retained_ones(
    root_path: Seq<char>,
    owner: (u32, u32),
    directory: DirectoryReadings,
    retained: Option<FileStat>,
    resolved: Option<FileStat>,
)
    ensures
        verified_launcher_root(root_path, owner, directory, retained, resolved) is Ok <==> {
            &&& local_install_store_files::opened_absolute_directory(root_path, owner, directory)
                is Ok
            &&& retained matches Some(kept) && resolved matches Some(now)
                && file_evidence::is_closed_directory(kept, owner)
                && file_evidence::is_closed_directory(now, owner) && kept.device == now.device
                && kept.inode == now.inode
        },
{
}

/// A launcher target resolves exactly when the path is upright and ends in the
/// binary's name, the way to it holds, and the binary there is the one of mode
/// 0500 that was verified, unchanged in every respect.
pub proof fn law_targets_resolve_to_the_verified_binary(
    path: Seq<char>,
    owner: (u32, u32),
    readings: ResolvedTargetReadings,
)
    ensures
        verified_resolved_path(path, owner, readings) is Ok <==> {
            &&& paths::is_upright(path)
            &&& paths::named_entries(path).len() > 0
            &&& paths::named_entries(path).last() == "glaeda"@
            &&& local_install_store_files::opened_absolute_directory(
                path,
                owner,
                readings.directory,
            ) is Ok
            &&& readings.file matches OpenedEntry::Opened(Some(file))
                && file_evidence::is_closed_file(file, owner, 0o500)
            &&& readings.retained is Some
            &&& readings.retained == readings.resolved
            &&& file_evidence::is_closed_file(readings.retained->0, owner, 0o500)
        },
{
}

/// The targets of a store are its accepted generation and then its retained
/// one, each by the path of its binary below the root.
pub proof fn law_targets_are_the_binaries_of_the_state(
    root_path: Seq<char>,
    owner: (u32, u32),
    readings: TargetsReadings,
)
    requires
        verified_targets(root_path, owner, readings) is Ok,
    ensures
        ({
            let targets = verified_targets(root_path, owner, readings)->Ok_0;
            let state = local_install_store_publication::clean_state(readings.store@)->Ok_0.state;
            let first: int = if state.accepted is Some {
                1
            } else {
                0
            };
            &&& targets.len() == first + (if state.retained.len() > 0 {
                1int
            } else {
                0int
            })
            &&& state.accepted matches Some(accepted) ==> targets[0].identity == accepted.identity
                && targets[0].path == vstd::utf8::encode_utf8(
                stored_binary(root_path, accepted),
            )
            &&& state.retained.len() > 0 ==> targets[first].identity == state.retained[0].identity
                && targets[first].path == vstd::utf8::encode_utf8(
                stored_binary(root_path, state.retained[0]),
            )
        }),
{
}

/// Where the binary of a generation is stored.
pub open spec fn stored_binary(root_path: Seq<char>, generation: GenerationView) -> Seq<char> {
    paths::child(
        paths::child(
            paths::child(root_path, "generations"@),
            local_install_generation_store::generation_name(generation.identity),
        ),
        "glaeda"@,
    )
}

/// A generation is a launcher target exactly when its directory was reopened,
/// is complete, still has its name and holds this very generation, and the path
/// of its binary resolves.
pub proof fn law_targets_are_verified_generations(
    root_path: Seq<char>,
    owner: (u32, u32),
    generation: GenerationView,
    directory: Option<DirectoryView>,
    resolved: Option<ResolvedTargetReadings>,
)
    requires
        local_install_generation_store::is_nameable(generation.identity),
    ensures
        ({
            let target = verified_target(root_path, owner, generation, directory, resolved);
            let complete = local_install_store_observation::complete_generation(
                directory->0,
                owner,
                None,
                Some(generation.identity),
            );
            let path = stored_binary(root_path, generation);
            &&& target is Ok <==> {
                &&& directory is Some && resolved is Some
                &&& directory->0.opened is Ok
                &&& complete is Ok && complete->Ok_0.generation == generation
                &&& directory->0.still_named is Ok
                &&& verified_resolved_path(path, owner, resolved->0) is Ok
            }
            &&& target matches Ok(found) ==> found.identity == generation.identity && found.path
                == vstd::utf8::encode_utf8(path)
        }),
{
}

} // verus!
