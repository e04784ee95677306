//! Observation and publication of the canonical user-local `glaeda` launcher.
//!
//! Only fixed platform location classes and freshly verified local-generation-store targets are
//! accepted. Nothing here edits shell configuration, searches arbitrary writable `PATH` entries,
//! invokes elevation, builds binaries, or adopts an unmarked executable. Public output contains
//! symbolic locations and generation identities, never private paths or PATH contents.
use vstd::prelude::*;

use crate::file_evidence::{DirectoryReadings, FileStat, OpenRefusal, OpenedEntry};
use crate::local_install_generation_store::{
    LocalInstallGenerationStoreError, LocalInstallGenerationStoreErrorKind, StoreErrorView,
};
use crate::local_install_plan;
use crate::local_install_plan::{
    EntryView, IdentityView, LauncherDirectoryDisposition, LauncherEntryDisposition,
    LauncherLocationClass, LauncherLocationObservation, LauncherSwitchPlan,
    LocalInstallGenerationIdentity, LocalInstallPlatform, ObservationView,
};
use crate::outcome;
use crate::paths;
use crate::scan;
use crate::text;
use crate::text::same_bytes;

verus! {

/// The name of the launcher in its directory.
pub const LAUNCHER_NAME: &'static str = "glaeda";

/// The name that a launcher is staged under. Nothing here stages one.
pub const STAGED_LAUNCHER_NAME: &'static str = ".glaeda.launcher.next";

#[derive(Debug, Clone, Copy, PartialEq, Eq, Structural)]
pub enum LocalInstallLauncherAuthority {
    ApprovedCurrentUserLauncherOnly,
}

#[derive(Debug, Clone, Copy, PartialEq, Eq, Structural)]
pub enum LocalInstallLauncherPublishDisposition {
    Published,
    Replayed,
}

#[derive(Debug, Clone, Copy, PartialEq, Eq, Structural)]
pub enum LocalInstallLauncherErrorKind {
    UnsupportedPlatform,
    InvalidContext,
    GenerationStoreUnavailable,
    MissingAcceptedGeneration,
    LocationNotInPath,
    LocationUnavailable,
    UnsafeDirectory,
    NeedsElevation,
    ForeignEntry,
    UnknownEntry,
    Busy,
    Conflict,
    RecoveryRequired,
    Io,
    InjectedFailure,
}

#[derive(Debug, PartialEq, Eq)]
pub struct LocalInstallLauncherError {
    kind: LocalInstallLauncherErrorKind,
    message: &'static str,
}

pub struct LauncherErrorView {
    pub kind: LocalInstallLauncherErrorKind,
    pub message: Seq<char>,
}

impl View for LocalInstallLauncherError {
    type V = LauncherErrorView;

    closed spec fn view(&self) -> LauncherErrorView {
        LauncherErrorView { kind: self.kind, message: self.message@ }
    }
}

impl Clone for LocalInstallLauncherError {
    fn clone(&self) -> (copy: Self)
        ensures
            copy@ == self@,
    {
        LocalInstallLauncherError { kind: self.kind, message: self.message }
    }
}

impl LocalInstallLauncherError {
    pub fn kind(&self) -> (kind: LocalInstallLauncherErrorKind)
        ensures
            kind == self@.kind,
    {
        self.kind
    }

    /// The bounded, path-free explanation.
    pub fn message(&self) -> (message: &str)
        ensures
            message@ == self@.message,
    {
        self.message
    }
}

pub open spec fn refusal(
    kind: LocalInstallLauncherErrorKind,
    message: Seq<char>,
) -> LauncherErrorView {
    LauncherErrorView { kind, message }
}

fn error(kind: LocalInstallLauncherErrorKind, message: &'static str) -> (e:
    LocalInstallLauncherError)
    ensures
        e@ == refusal(kind, message@),
{
    LocalInstallLauncherError { kind, message }
}

/// An operation of the operating system that failed.
#[derive(Debug, Clone, Copy, PartialEq, Eq, Structural)]
pub enum LauncherIoFailure {
    UnsupportedPlatform,
    HomeUnavailable,
    RootNotOpened,
    LockNotRetained,
    LockHeld,
    LockFailed,
    LauncherExists,
    LauncherNotCreated,
    DirectoryNotSynchronized,
}

pub open spec fn io_refusal(failure: LauncherIoFailure) -> LauncherErrorView {
    match failure {
        LauncherIoFailure::UnsupportedPlatform => refusal(
            LocalInstallLauncherErrorKind::UnsupportedPlatform,
            "the current platform has no reviewed local launcher contract"@,
        ),
        LauncherIoFailure::HomeUnavailable => refusal(
            LocalInstallLauncherErrorKind::InvalidContext,
            "the operator home directory is unavailable"@,
        ),
        LauncherIoFailure::RootNotOpened => refusal(
            LocalInstallLauncherErrorKind::Io,
            "the filesystem root could not be opened"@,
        ),
        LauncherIoFailure::LockNotRetained => refusal(
            LocalInstallLauncherErrorKind::Io,
            "the launcher directory lock could not be retained"@,
        ),
        LauncherIoFailure::LockHeld => refusal(
            LocalInstallLauncherErrorKind::Busy,
            "another launcher publisher holds the directory lock"@,
        ),
        LauncherIoFailure::LockFailed => refusal(
            LocalInstallLauncherErrorKind::Io,
            "the launcher directory could not be locked"@,
        ),
        LauncherIoFailure::LauncherExists => refusal(
            LocalInstallLauncherErrorKind::Conflict,
            "the launcher changed at the publication boundary"@,
        ),
        LauncherIoFailure::LauncherNotCreated => refusal(
            LocalInstallLauncherErrorKind::Io,
            "the launcher could not be created atomically"@,
        ),
        LauncherIoFailure::DirectoryNotSynchronized => refusal(
            LocalInstallLauncherErrorKind::Io,
            "the launcher directory could not be synchronized"@,
        ),
    }
}

/// The error of a failed operation.
pub fn io_error(failure: LauncherIoFailure) -> (e: LocalInstallLauncherError)
    ensures
        e@ == io_refusal(failure),
{
    match failure {
        LauncherIoFailure::UnsupportedPlatform => error(
            LocalInstallLauncherErrorKind::UnsupportedPlatform,
            "the current platform has no reviewed local launcher contract",
        ),
        LauncherIoFailure::HomeUnavailable => error(
            LocalInstallLauncherErrorKind::InvalidContext,
            "the operator home directory is unavailable",
        ),
        LauncherIoFailure::RootNotOpened => error(
            LocalInstallLauncherErrorKind::Io,
            "the filesystem root could not be opened",
        ),
        LauncherIoFailure::LockNotRetained => error(
            LocalInstallLauncherErrorKind::Io,
            "the launcher directory lock could not be retained",
        ),
        LauncherIoFailure::LockHeld => error(
            LocalInstallLauncherErrorKind::Busy,
            "another launcher publisher holds the directory lock",
        ),
        LauncherIoFailure::LockFailed => error(
            LocalInstallLauncherErrorKind::Io,
            "the launcher directory could not be locked",
        ),
        LauncherIoFailure::LauncherExists => error(
            LocalInstallLauncherErrorKind::Conflict,
            "the launcher changed at the publication boundary",
        ),
        LauncherIoFailure::LauncherNotCreated => error(
            LocalInstallLauncherErrorKind::Io,
            "the launcher could not be created atomically",
        ),
        LauncherIoFailure::DirectoryNotSynchronized => error(
            LocalInstallLauncherErrorKind::Io,
            "the launcher directory could not be synchronized",
        ),
    }
}

/// What a refusal of the generation store means to the launcher.
pub open spec fn store_refusal(
    kind: LocalInstallGenerationStoreErrorKind,
) -> LauncherErrorView {
    match kind {
        LocalInstallGenerationStoreErrorKind::Busy => refusal(
            LocalInstallLauncherErrorKind::Busy,
            "another local-install store operation is active"@,
        ),
        LocalInstallGenerationStoreErrorKind::Conflict => refusal(
            LocalInstallLauncherErrorKind::Conflict,
            "the local-install generation evidence conflicts"@,
        ),
        LocalInstallGenerationStoreErrorKind::RecoveryRequired => refusal(
            LocalInstallLauncherErrorKind::RecoveryRequired,
            "the local-install generation store requires recovery"@,
        ),
        _ => refusal(
            LocalInstallLauncherErrorKind::GenerationStoreUnavailable,
            "the generation store could not supply verified launcher targets"@,
        ),
    }
}

/// The launcher error of a refusal of the generation store.
pub fn map_store_error(value: &LocalInstallGenerationStoreError) -> (e: LocalInstallLauncherError)
    ensures
        e@ == store_refusal(value@.kind),
{
    match value.kind() {
        LocalInstallGenerationStoreErrorKind::Busy => error(
            LocalInstallLauncherErrorKind::Busy,
            "another local-install store operation is active",
        ),
        LocalInstallGenerationStoreErrorKind::Conflict => error(
            LocalInstallLauncherErrorKind::Conflict,
            "the local-install generation evidence conflicts",
        ),
        LocalInstallGenerationStoreErrorKind::RecoveryRequired => error(
            LocalInstallLauncherErrorKind::RecoveryRequired,
            "the local-install generation store requires recovery",
        ),
        LocalInstallGenerationStoreErrorKind::UnsupportedPlatform
        | LocalInstallGenerationStoreErrorKind::InvalidLocation
        | LocalInstallGenerationStoreErrorKind::InvalidRequest
        | LocalInstallGenerationStoreErrorKind::CorruptState
        | LocalInstallGenerationStoreErrorKind::UnsafeFilesystem
        | LocalInstallGenerationStoreErrorKind::Io
        | LocalInstallGenerationStoreErrorKind::InjectedFailure => error(
            LocalInstallLauncherErrorKind::GenerationStoreUnavailable,
            "the generation store could not supply verified launcher targets",
        ),
    }
}

/// Current platform/home/PATH identity retained privately for one operation.
pub struct LocalInstallLauncherContext {
    platform: LocalInstallPlatform,
    home: String,
    path: String,
    owner: (u32, u32),
}

pub struct LauncherContextView {
    pub platform: LocalInstallPlatform,
    pub home: Seq<char>,
    pub path: Seq<char>,
    pub owner: (u32, u32),
}

impl View for LocalInstallLauncherContext {
    type V = LauncherContextView;

    closed spec fn view(&self) -> LauncherContextView {
        LauncherContextView {
            platform: self.platform,
            home: self.home@,
            path: self.path@,
            owner: self.owner,
        }
    }
}

impl LocalInstallLauncherContext {
    /// Binds the current user's platform, home directory, lexical PATH and
    /// owner.
    ///
    /// # Errors
    ///
    /// Returns a bounded error when the home directory is noncanonical.
    pub fn new(platform: LocalInstallPlatform, home: &str, path: &str, owner: (u32, u32)) -> (r:
        Result<Self, LocalInstallLauncherError>)
        ensures
            outcome::is_outcome(
                r,
                if paths::is_upright(home@) {
                    Ok(LauncherContextView { platform, home: home@, path: path@, owner })
                } else {
                    Err(
                        refusal(
                            LocalInstallLauncherErrorKind::InvalidContext,
                            "the operator home directory is not a canonical absolute path"@,
                        ),
                    )
                },
            ),
    {
        if !paths::upright(home) {
            return Err(
                error(
                    LocalInstallLauncherErrorKind::InvalidContext,
                    "the operator home directory is not a canonical absolute path",
                ),
            );
        }
        Ok(
            LocalInstallLauncherContext {
                platform,
                home: home.to_owned(),
                path: path.to_owned(),
                owner,
            },
        )
    }

    pub fn platform(&self) -> (platform: LocalInstallPlatform)
        ensures
            platform == self@.platform,
    {
        self.platform
    }

    /// What may be shown in place of the private values.
    pub fn redacted(&self) -> (label: &'static str)
        ensures
            label@ == "home: <private-home-path>, path: <private-path-value>"@,
    {
        "home: <private-home-path>, path: <private-path-value>"
    }
}

/// One approved directory that a launcher can stand in.
#[derive(Debug)]
pub struct Candidate {
    pub class: LauncherLocationClass,
    pub path: String,
    pub system: bool,
}

pub struct CandidateView {
    pub class: LauncherLocationClass,
    pub path: Seq<char>,
    pub system: bool,
}

impl View for Candidate {
    type V = CandidateView;

    open spec fn view(&self) -> CandidateView {
        CandidateView { class: self.class, path: self.path@, system: self.system }
    }
}

/// The approved directory of a class, where the platform has one.
pub open spec fn candidate(
    context: LauncherContextView,
    class: LauncherLocationClass,
) -> Option<CandidateView> {
    match class {
        LauncherLocationClass::HomeLocalBin => Some(
            CandidateView {
                class,
                path: paths::child(context.home, ".local/bin"@),
                system: false,
            },
        ),
        LauncherLocationClass::HomeBin => Some(
            CandidateView { class, path: paths::child(context.home, "bin"@), system: false },
        ),
        LauncherLocationClass::HomebrewBin => if context.platform == LocalInstallPlatform::Macos {
            Some(CandidateView { class, path: "/opt/homebrew/bin"@, system: true })
        } else {
            None
        },
        LauncherLocationClass::UsrLocalBin => Some(
            CandidateView { class, path: "/usr/local/bin"@, system: true },
        ),
    }
}

/// The classes that the platform has, in the order in which they are observed.
pub open spec fn platform_classes(platform: LocalInstallPlatform) -> Seq<LauncherLocationClass> {
    match platform {
        LocalInstallPlatform::Macos => seq![
            LauncherLocationClass::HomeLocalBin,
            LauncherLocationClass::HomeBin,
            LauncherLocationClass::HomebrewBin,
            LauncherLocationClass::UsrLocalBin,
        ],
        LocalInstallPlatform::Linux => seq![
            LauncherLocationClass::HomeLocalBin,
            LauncherLocationClass::HomeBin,
            LauncherLocationClass::UsrLocalBin,
        ],
    }
}

pub open spec fn candidate_list(context: LauncherContextView) -> Seq<CandidateView> {
    let classes = platform_classes(context.platform);
    Seq::new(classes.len(), |i: int| candidate(context, classes[i])->0)
}

/// The approved directory of a class.
pub fn candidate_of(context: &LocalInstallLauncherContext, class: LauncherLocationClass) -> (r:
    Option<Candidate>)
    ensures
        outcome::option_view(r) == candidate(context@, class),
{
    match class {
        LauncherLocationClass::HomeLocalBin => Some(
            Candidate {
                class,
                path: paths::child_of(context.home.as_str(), ".local/bin"),
                system: false,
            },
        ),
        LauncherLocationClass::HomeBin => Some(
            Candidate {
                class,
                path: paths::child_of(context.home.as_str(), "bin"),
                system: false,
            },
        ),
        LauncherLocationClass::HomebrewBin => if context.platform == LocalInstallPlatform::Macos {
            Some(Candidate { class, path: "/opt/homebrew/bin".to_owned(), system: true })
        } else {
            None
        },
        LauncherLocationClass::UsrLocalBin => Some(
            Candidate { class, path: "/usr/local/bin".to_owned(), system: true },
        ),
    }
}

fn add_candidate(
    context: &LocalInstallLauncherContext,
    class: LauncherLocationClass,
    values: &mut Vec<Candidate>,
)
    requires
        candidate(context@, class) is Some,
    ensures
        outcome::seq_view(final(values)@) == outcome::seq_view(old(values)@).push(
            candidate(context@, class)->0,
        ),
{
    let ghost before = outcome::seq_view(values@);
    if let Some(value) = candidate_of(context, class) {
        values.push(value);
    }
    assert(outcome::seq_view(values@) =~= before.push(candidate(context@, class)->0));
}

/// All approved directories of the platform.
pub fn candidates(context: &LocalInstallLauncherContext) -> (values: Vec<Candidate>)
    ensures
        outcome::seq_view(values@) == candidate_list(context@),
{
    let mut values: Vec<Candidate> = Vec::new();
    add_candidate(context, LauncherLocationClass::HomeLocalBin, &mut values);
    add_candidate(context, LauncherLocationClass::HomeBin, &mut values);
    if context.platform == LocalInstallPlatform::Macos {
        add_candidate(context, LauncherLocationClass::HomebrewBin, &mut values);
    }
    add_candidate(context, LauncherLocationClass::UsrLocalBin, &mut values);
    assert(outcome::seq_view(values@) =~= candidate_list(context@));
    values
}

/// The first entry of PATH that names a directory, counted from zero.
pub open spec fn first_entry(entries: Seq<Seq<char>>, directory: Seq<char>) -> Option<nat>
    decreases entries.len(),
{
    if entries.len() == 0 {
        None
    } else if paths::is_same_location(entries[0], directory) {
        Some(0)
    } else {
        match first_entry(entries.skip(1), directory) {
            Some(at) => Some(at + 1),
            None => None,
        }
    }
}

/// What [`path_rank`] answers.
pub open spec fn ranked(path: Seq<char>, directory: Seq<char>) -> Result<
    Option<u16>,
    LauncherErrorView,
> {
    match first_entry(scan::split_on(path, ':'), directory) {
        None => Ok(None),
        Some(at) => if at <= u16::MAX {
            Ok(Some(at as u16))
        } else {
            Err(
                refusal(
                    LocalInstallLauncherErrorKind::InvalidContext,
                    "PATH has too many components for bounded observation"@,
                ),
            )
        },
    }
}

proof fn lemma_first_entry(entries: Seq<Seq<char>>, directory: Seq<char>, at: int)
    requires
        0 <= at <= entries.len(),
        forall|k: int|
            0 <= k < at ==> !paths::is_same_location(#[trigger] entries[k], directory),
        at < entries.len() ==> paths::is_same_location(entries[at], directory),
    ensures
        first_entry(entries, directory) == (if at < entries.len() {
            Some(at as nat)
        } else {
            None::<nat>
        }),
    decreases at,
{
    if at > 0 {
        assert(!paths::is_same_location(entries[0], directory));
        assert forall|k: int| 0 <= k < at - 1 implies !paths::is_same_location(
            #[trigger] entries.skip(1)[k],
            directory,
        ) by {
            assert(entries.skip(1)[k] == entries[k + 1]);
        }
        lemma_first_entry(entries.skip(1), directory, at - 1);
    }
}

/// Where PATH names a directory first.
pub fn path_rank(path: &str, directory: &str) -> (r: Result<
    Option<u16>,
    LocalInstallLauncherError,
>)
    ensures
        match r {
            Ok(rank) => ranked(path@, directory@) == Ok::<_, LauncherErrorView>(rank),
            Err(e) => ranked(path@, directory@) == Err::<Option<u16>, _>(e@),
        },
{
    let chars = text::chars_of(path);
    let pieces = scan::split(chars.as_slice(), ':');
    let ghost entries = scan::split_on(path@, ':');
    let mut at: usize = 0;
    while at < pieces.len()
        invariant
            at <= pieces@.len(),
            outcome::seq_view(pieces@) == entries,
            entries == scan::split_on(path@, ':'),
            forall|k: int|
                0 <= k < at ==> !paths::is_same_location(#[trigger] entries[k], directory@),
        decreases pieces@.len() - at,
    {
        let entry = text::text_of(pieces[at].as_slice());
        assert(entry@ == entries[at as int]);
        if paths::same_location(entry.as_str(), directory) {
            proof {
                lemma_first_entry(entries, directory@, at as int);
            }
            if at <= u16::MAX as usize {
                return Ok(Some(at as u16));
            }
            return Err(
                error(
                    LocalInstallLauncherErrorKind::InvalidContext,
                    "PATH has too many components for bounded observation",
                ),
            );
        }
        at += 1;
    }
    proof {
        lemma_first_entry(entries, directory@, at as int);
    }
    Ok(None)
}

/// What opening an approved directory, one entry of its path after the other,
/// came to.
#[derive(Debug, Clone, Copy, PartialEq, Eq, Structural)]
pub enum DirectoryProbe {
    Ready(FileStat),
    Unavailable,
    Unsafe,
}

/// A directory on the way that nobody but its trusted owner can write to.
pub open spec fn is_safe_ancestor(
    stat: FileStat,
    context: LauncherContextView,
    system: bool,
) -> bool {
    &&& stat.spec_is_directory()
    &&& !stat.spec_foreign_writable()
    &&& stat.owner == context.owner.0 || (system && stat.owner == 0)
}

/// The first `depth` entries of an approved path lie in the home directory.
pub open spec fn is_within_home(
    context: LauncherContextView,
    directory: Seq<char>,
    depth: nat,
) -> bool {
    let home = paths::named_entries(context.home);
    let entries = paths::named_entries(directory);
    home.len() <= depth <= entries.len() && entries.take(home.len() as int) == home
}

/// How one entry of an approved path ends the probe, if it does.
pub open spec fn step_end(
    context: LauncherContextView,
    approved: CandidateView,
    depth: nat,
    opened: OpenedEntry,
) -> Option<Result<DirectoryProbe, LauncherErrorView>> {
    match opened {
        OpenedEntry::Refused(OpenRefusal::Missing) => Some(Ok(DirectoryProbe::Unavailable)),
        OpenedEntry::Refused(OpenRefusal::SymbolicLink) => Some(Ok(DirectoryProbe::Unsafe)),
        OpenedEntry::Refused(OpenRefusal::NotADirectory) => Some(Ok(DirectoryProbe::Unsafe)),
        OpenedEntry::Refused(_) => Some(
            Err(
                refusal(
                    LocalInstallLauncherErrorKind::Io,
                    "an approved launcher path could not be inspected"@,
                ),
            ),
        ),
        OpenedEntry::Opened(stat) => if approved.system || is_within_home(
            context,
            approved.path,
            depth,
        ) {
            match stat {
                None => Some(
                    Err(
                        refusal(
                            LocalInstallLauncherErrorKind::Io,
                            "an approved launcher path ancestor could not be inspected"@,
                        ),
                    ),
                ),
                Some(found) => if is_safe_ancestor(found, context, approved.system) {
                    None
                } else {
                    Some(Ok(DirectoryProbe::Unsafe))
                },
            }
        } else {
            None
        },
    }
}

/// What the entries from `depth` on come to; the metadata of the directory
/// itself decides when none of them ends the probe.
pub open spec fn probed_from(
    context: LauncherContextView,
    approved: CandidateView,
    opened: Seq<OpenedEntry>,
    depth: nat,
    directory: Option<FileStat>,
) -> Result<DirectoryProbe, LauncherErrorView>
    decreases opened.len() - depth,
{
    if depth < opened.len() {
        match step_end(context, approved, depth + 1, opened[depth as int]) {
            Some(end) => end,
            None => probed_from(context, approved, opened, depth + 1, directory),
        }
    } else {
        match directory {
            None => Err(
                refusal(
                    LocalInstallLauncherErrorKind::Io,
                    "an approved launcher directory could not be inspected"@,
                ),
            ),
            Some(stat) => if stat.spec_is_directory() && (approved.system || is_within_home(
                context,
                approved.path,
                paths::named_entries(approved.path).len(),
            )) {
                Ok(DirectoryProbe::Ready(stat))
            } else {
                Ok(DirectoryProbe::Unsafe)
            },
        }
    }
}

/// What [`open_directory`] answers.
pub open spec fn probed(
    context: LauncherContextView,
    approved: CandidateView,
    readings: DirectoryReadings,
) -> Result<DirectoryProbe, LauncherErrorView> {
    if readings.root_opened {
        probed_from(context, approved, readings.opened@, 0, readings.directory)
    } else {
        Err(io_refusal(LauncherIoFailure::RootNotOpened))
    }
}

fn within_home(context: &LocalInstallLauncherContext, directory: &str, depth: usize) -> (r: bool)
    ensures
        r == is_within_home(context@, directory@, depth as nat),
{
    let home = paths::normal_components(context.home.as_str());
    let entries = paths::normal_components(directory);
    let ghost home_view = paths::named_entries(context@.home);
    let ghost entries_view = paths::named_entries(directory@);
    if home.len() > depth || depth > entries.len() {
        return false;
    }
    let mut i: usize = 0;
    while i < home.len()
        invariant
            i <= home@.len() <= depth <= entries@.len(),
            home_view == outcome::seq_view(home@),
            entries_view == outcome::seq_view(entries@),
            home_view == paths::named_entries(context@.home),
            entries_view == paths::named_entries(directory@),
            forall|k: int| 0 <= k < i ==> home_view[k] == entries_view[k],
        decreases home@.len() - i,
    {
        if !text::same_text(home[i].as_str(), entries[i].as_str()) {
            assert(home_view[i as int] != entries_view[i as int]);
            assert(entries_view.take(home_view.len() as int)[i as int] == entries_view[i as int]);
            return false;
        }
        i += 1;
    }
    assert(entries_view.take(home_view.len() as int) =~= home_view);
    true
}

/// The model of a probe's outcome.
pub open spec fn probe_view(
    r: Result<DirectoryProbe, LocalInstallLauncherError>,
) -> Result<DirectoryProbe, LauncherErrorView> {
    match r {
        Ok(probe) => Ok(probe),
        Err(e) => Err(e@),
    }
}

/// Judges one entry of an approved path: the next one is opened only where none
/// ends the probe.
pub fn open_directory_step(
    context: &LocalInstallLauncherContext,
    approved: &Candidate,
    depth: usize,
    opened: OpenedEntry,
) -> (end: Option<Result<DirectoryProbe, LocalInstallLauncherError>>)
    ensures
        match end {
            Some(r) => step_end(context@, approved@, depth as nat, opened) == Some(probe_view(r)),
            None => step_end(context@, approved@, depth as nat, opened) is None,
        },
{
    match opened {
        OpenedEntry::Refused(OpenRefusal::Missing) => Some(Ok(DirectoryProbe::Unavailable)),
        OpenedEntry::Refused(OpenRefusal::SymbolicLink) => Some(Ok(DirectoryProbe::Unsafe)),
        OpenedEntry::Refused(OpenRefusal::NotADirectory) => Some(Ok(DirectoryProbe::Unsafe)),
        OpenedEntry::Refused(_) => Some(
            Err(
                error(
                    LocalInstallLauncherErrorKind::Io,
                    "an approved launcher path could not be inspected",
                ),
            ),
        ),
        OpenedEntry::Opened(stat) => {
            if !approved.system && !within_home(context, approved.path.as_str(), depth) {
                return None;
            }
            match stat {
                None => Some(
                    Err(
                        error(
                            LocalInstallLauncherErrorKind::Io,
                            "an approved launcher path ancestor could not be inspected",
                        ),
                    ),
                ),
                Some(found) => {
                    if safe_directory_ancestor(context, approved.system, &found) {
                        None
                    } else {
                        Some(Ok(DirectoryProbe::Unsafe))
                    }
                },
            }
        },
    }
}

fn safe_directory_ancestor(
    context: &LocalInstallLauncherContext,
    system: bool,
    stat: &FileStat,
) -> (r: bool)
    ensures
        r == is_safe_ancestor(*stat, context@, system),
{
    stat.is_directory() && !stat.foreign_writable() && (stat.owner == context.owner.0 || (system
        && stat.owner == 0))
}

/// What opening an approved directory came to.
pub fn open_directory(
    context: &LocalInstallLauncherContext,
    approved: &Candidate,
    readings: &DirectoryReadings,
) -> (r: Result<DirectoryProbe, LocalInstallLauncherError>)
    ensures
        probe_view(r) == probed(context@, approved@, *readings),
{
    if !readings.root_opened {
        return Err(io_error(LauncherIoFailure::RootNotOpened));
    }
    let mut depth: usize = 0;
    while depth < readings.opened.len()
        invariant
            depth <= readings.opened@.len(),
            readings.root_opened,
            probed_from(context@, approved@, readings.opened@, 0, readings.directory)
                == probed_from(
                context@,
                approved@,
                readings.opened@,
                depth as nat,
                readings.directory,
            ),
        decreases readings.opened@.len() - depth,
    {
        match open_directory_step(context, approved, depth + 1, readings.opened[depth]) {
            Some(end) => {
                return end;
            },
            None => {},
        }
        depth += 1;
    }
    let stat = match readings.directory {
        Some(stat) => stat,
        None => {
            return Err(
                error(
                    LocalInstallLauncherErrorKind::Io,
                    "an approved launcher directory could not be inspected",
                ),
            );
        },
    };
    let whole = paths::normal_components(approved.path.as_str()).len();
    if !stat.is_directory() || (!approved.system && !within_home(
        context,
        approved.path.as_str(),
        whole,
    )) {
        return Ok(DirectoryProbe::Unsafe);
    }
    Ok(DirectoryProbe::Ready(stat))
}

/// What an approved directory that was reached can be used for.
pub open spec fn directory_state(
    context: LauncherContextView,
    system: bool,
    stat: FileStat,
) -> LauncherDirectoryDisposition {
    if stat.spec_foreign_writable() {
        LauncherDirectoryDisposition::Unsafe
    } else if stat.owner == context.owner.0 {
        LauncherDirectoryDisposition::ReadyUserOwned
    } else if system && stat.owner == 0 {
        LauncherDirectoryDisposition::NeedsElevation
    } else {
        LauncherDirectoryDisposition::Unsafe
    }
}

fn directory_disposition(
    context: &LocalInstallLauncherContext,
    system: bool,
    stat: &FileStat,
) -> (r: LauncherDirectoryDisposition)
    ensures
        r == directory_state(context@, system, *stat),
{
    if stat.foreign_writable() {
        LauncherDirectoryDisposition::Unsafe
    } else if stat.owner == context.owner.0 {
        LauncherDirectoryDisposition::ReadyUserOwned
    } else if system && stat.owner == 0 {
        LauncherDirectoryDisposition::NeedsElevation
    } else {
        LauncherDirectoryDisposition::Unsafe
    }
}

/// A verified generation that a launcher may point to.
#[derive(Debug)]
pub struct LocalInstallLauncherTarget {
    pub identity: LocalInstallGenerationIdentity,
    /// The bytes of the absolute path of its binary.
    pub path: Vec<u8>,
}

pub struct TargetView {
    pub identity: IdentityView,
    pub path: Seq<u8>,
}

impl View for LocalInstallLauncherTarget {
    type V = TargetView;

    open spec fn view(&self) -> TargetView {
        TargetView { identity: self.identity@, path: self.path@ }
    }
}

/// The first target that a link names.
pub open spec fn linked_target(targets: Seq<TargetView>, link: Seq<u8>) -> Option<TargetView>
    decreases targets.len(),
{
    if targets.len() == 0 {
        None
    } else if targets[0].path == link {
        Some(targets[0])
    } else {
        linked_target(targets.skip(1), link)
    }
}

/// The first target of an identity.
pub open spec fn target_of(targets: Seq<TargetView>, identity: IdentityView) -> Option<TargetView>
    decreases targets.len(),
{
    if targets.len() == 0 {
        None
    } else if targets[0].identity == identity {
        Some(targets[0])
    } else {
        target_of(targets.skip(1), identity)
    }
}

/// Finds the target that a link names.
pub fn find_linked(targets: &Vec<LocalInstallLauncherTarget>, link: &[u8]) -> (found: Option<usize>)
    ensures
        match found {
            Some(at) => at < targets@.len() && linked_target(
                outcome::seq_view(targets@),
                link@,
            ) == Some(targets@[at as int]@),
            None => linked_target(outcome::seq_view(targets@), link@) is None,
        },
{
    let ghost all = outcome::seq_view(targets@);
    let mut at: usize = 0;
    assert(all.skip(0) =~= all);
    while at < targets.len()
        invariant
            at <= targets@.len(),
            all == outcome::seq_view(targets@),
            linked_target(all, link@) == linked_target(all.skip(at as int), link@),
        decreases targets@.len() - at,
    {
        assert(all.skip(at as int).skip(1) =~= all.skip(at as int + 1));
        assert(all.skip(at as int)[0] == targets@[at as int]@);
        if same_bytes(targets[at].path.as_slice(), link) {
            return Some(at);
        }
        at += 1;
    }
    None
}

/// Finds the target of an identity.
pub fn find_target(
    targets: &Vec<LocalInstallLauncherTarget>,
    identity: &LocalInstallGenerationIdentity,
) -> (found: Option<usize>)
    ensures
        match found {
            Some(at) => at < targets@.len() && target_of(outcome::seq_view(targets@), identity@)
                == Some(targets@[at as int]@),
            None => target_of(outcome::seq_view(targets@), identity@) is None,
        },
{
    let ghost all = outcome::seq_view(targets@);
    let mut at: usize = 0;
    assert(all.skip(0) =~= all);
    while at < targets.len()
        invariant
            at <= targets@.len(),
            all == outcome::seq_view(targets@),
            target_of(all, identity@) == target_of(all.skip(at as int), identity@),
        decreases targets@.len() - at,
    {
        assert(all.skip(at as int).skip(1) =~= all.skip(at as int + 1));
        assert(all.skip(at as int)[0] == targets@[at as int]@);
        if targets[at].identity.same_as(identity) {
            return Some(at);
        }
        at += 1;
    }
    None
}

/// The metadata of the launcher entry, links not followed.
#[derive(Debug, Clone, Copy, PartialEq, Eq, Structural)]
pub enum EntryStat {
    Found(FileStat),
    Missing,
    Unreadable,
}

/// What was read of the launcher entry. What stands behind an answer that
/// decides was not read and does not matter.
pub struct EntryReadings {
    pub stat: EntryStat,
    /// Where the link points to, if it could be read.
    pub link: Option<Vec<u8>>,
    /// Whether the target that the link names still resolves to what was
    /// verified.
    pub resolved: Result<(), LocalInstallGenerationStoreError>,
    pub stat_again: EntryStat,
}

pub struct EntryReadingsView {
    pub stat: EntryStat,
    pub link: Option<Seq<u8>>,
    pub resolved: Result<(), StoreErrorView>,
    pub stat_again: EntryStat,
}

impl View for EntryReadings {
    type V = EntryReadingsView;

    open spec fn view(&self) -> EntryReadingsView {
        EntryReadingsView {
            stat: self.stat,
            link: outcome::option_view(self.link),
            resolved: outcome::check_view(self.resolved),
            stat_again: self.stat_again,
        }
    }
}

/// A single-link symbolic link of this owner.
pub open spec fn is_own_link(stat: FileStat, owner: (u32, u32)) -> bool {
    stat.spec_is_symlink() && stat.owner == owner.0 && stat.group == owner.1 && stat.links == 1
}

/// What [`observe_entry`] answers: an entry is owned only if it is the owner's
/// own link to a target that still resolves, and did not change meanwhile.
pub open spec fn entry_state(
    owner: (u32, u32),
    targets: Seq<TargetView>,
    readings: EntryReadingsView,
) -> Result<EntryView, LauncherErrorView> {
    match readings.stat {
        EntryStat::Missing => Ok(EntryView::Absent),
        EntryStat::Unreadable => Ok(EntryView::Unknown),
        EntryStat::Found(stat) => if !is_own_link(stat, owner) {
            Ok(EntryView::Foreign)
        } else {
            match readings.link {
                None => Ok(EntryView::Unknown),
                Some(link) => match linked_target(targets, link) {
                    None => Ok(EntryView::Foreign),
                    Some(target) => match readings.resolved {
                        Err(e) => Err(store_refusal(e.kind)),
                        Ok(_) => if readings.stat_again == EntryStat::Found(stat) {
                            Ok(EntryView::Owned { generation_digest: target.identity.digest })
                        } else {
                            Ok(EntryView::Unknown)
                        },
                    },
                },
            }
        },
    }
}

/// Judges the launcher entry.
pub fn observe_entry(
    context: &LocalInstallLauncherContext,
    targets: &Vec<LocalInstallLauncherTarget>,
    readings: &EntryReadings,
) -> (r: Result<LauncherEntryDisposition, LocalInstallLauncherError>)
    ensures
        outcome::is_outcome(
            r,
            entry_state(context@.owner, outcome::seq_view(targets@), readings@),
        ),
{
    let stat = match readings.stat {
        EntryStat::Found(stat) => stat,
        EntryStat::Missing => {
            return Ok(LauncherEntryDisposition::Absent);
        },
        EntryStat::Unreadable => {
            return Ok(LauncherEntryDisposition::Unknown);
        },
    };
    if !stat.is_symlink() || stat.owner != context.owner.0 || stat.group != context.owner.1
        || stat.links != 1 {
        return Ok(LauncherEntryDisposition::Foreign);
    }
    let link = match &readings.link {
        Some(link) => link,
        None => {
            return Ok(LauncherEntryDisposition::Unknown);
        },
    };
    let at = match find_linked(targets, link.as_slice()) {
        Some(at) => at,
        None => {
            return Ok(LauncherEntryDisposition::Foreign);
        },
    };
    if let Err(e) = &readings.resolved {
        return Err(map_store_error(e));
    }
    if readings.stat_again != EntryStat::Found(stat) {
        return Ok(LauncherEntryDisposition::Unknown);
    }
    Ok(
        LauncherEntryDisposition::Owned {
            generation_digest: targets[at].identity.digest.clone(),
        },
    )
}

/// An observation, or the refusal of an inconsistent one.
pub open spec fn observed(o: ObservationView) -> Result<ObservationView, LauncherErrorView> {
    if local_install_plan::is_consistent_observation(o) {
        Ok(o)
    } else {
        Err(
            refusal(
                LocalInstallLauncherErrorKind::InvalidContext,
                "the launcher observation is internally inconsistent"@,
            ),
        )
    }
}

fn observation(
    location: LauncherLocationClass,
    rank: Option<u16>,
    directory: LauncherDirectoryDisposition,
    entry: LauncherEntryDisposition,
) -> (r: Result<LauncherLocationObservation, LocalInstallLauncherError>)
    ensures
        outcome::is_outcome(
            r,
            observed(
                ObservationView {
                    location,
                    in_path: rank is Some,
                    path_rank: rank,
                    directory,
                    entry: entry@,
                },
            ),
        ),
{
    match LauncherLocationObservation::new(location, rank.is_some(), rank, directory, entry) {
        Ok(value) => Ok(value),
        Err(_) => Err(
            error(
                LocalInstallLauncherErrorKind::InvalidContext,
                "the launcher observation is internally inconsistent",
            ),
        ),
    }
}

/// Everything that was read of one approved directory and its launcher entry.
pub struct CandidateReadings {
    pub directory: DirectoryReadings,
    pub entry: EntryReadings,
}

/// What [`observe_candidate`] answers. A directory that is not in PATH has no
/// entry; one that is unsafe has an unknown one.
pub open spec fn candidate_observation(
    context: LauncherContextView,
    approved: CandidateView,
    targets: Seq<TargetView>,
    directory: Result<DirectoryProbe, LauncherErrorView>,
    entry: Result<EntryView, LauncherErrorView>,
) -> Result<ObservationView, LauncherErrorView> {
    match ranked(context.path, approved.path) {
        Err(e) => Err(e),
        Ok(rank) => match directory {
            Err(e) => Err(e),
            Ok(probe) => {
                let state = match probe {
                    DirectoryProbe::Unavailable => LauncherDirectoryDisposition::Unavailable,
                    DirectoryProbe::Unsafe => LauncherDirectoryDisposition::Unsafe,
                    DirectoryProbe::Ready(stat) => directory_state(
                        context,
                        approved.system,
                        stat,
                    ),
                };
                let seen = if rank is None || probe == DirectoryProbe::Unavailable {
                    Ok(EntryView::Absent)
                } else if probe == DirectoryProbe::Unsafe {
                    Ok(EntryView::Unknown)
                } else {
                    entry
                };
                match seen {
                    Err(e) => Err(e),
                    Ok(value) => observed(
                        ObservationView {
                            location: approved.class,
                            in_path: rank is Some,
                            path_rank: rank,
                            directory: state,
                            entry: value,
                        },
                    ),
                }
            },
        },
    }
}

pub open spec fn candidate_outcome(
    context: LauncherContextView,
    approved: CandidateView,
    targets: Seq<TargetView>,
    readings: CandidateReadings,
) -> Result<ObservationView, LauncherErrorView> {
    candidate_observation(
        context,
        approved,
        targets,
        probed(context, approved, readings.directory),
        entry_state(context.owner, targets, readings.entry@),
    )
}

/// Observes one approved directory.
pub fn observe_candidate(
    context: &LocalInstallLauncherContext,
    approved: &Candidate,
    targets: &Vec<LocalInstallLauncherTarget>,
    readings: &CandidateReadings,
) -> (r: Result<LauncherLocationObservation, LocalInstallLauncherError>)
    ensures
        outcome::is_outcome(
            r,
            candidate_outcome(context@, approved@, outcome::seq_view(targets@), *readings),
        ),
{
    let rank = path_rank(context.path.as_str(), approved.path.as_str())?;
    let probe = open_directory(context, approved, &readings.directory)?;
    let directory = match probe {
        DirectoryProbe::Unavailable => LauncherDirectoryDisposition::Unavailable,
        DirectoryProbe::Unsafe => LauncherDirectoryDisposition::Unsafe,
        DirectoryProbe::Ready(stat) => directory_disposition(context, approved.system, &stat),
    };
    if rank.is_none() {
        return observation(approved.class, None, directory, LauncherEntryDisposition::Absent);
    }
    let entry = match probe {
        DirectoryProbe::Unavailable => LauncherEntryDisposition::Absent,
        DirectoryProbe::Unsafe => LauncherEntryDisposition::Unknown,
        DirectoryProbe::Ready(_) => observe_entry(context, targets, &readings.entry)?,
    };
    observation(approved.class, rank, directory, entry)
}

#[derive(Debug, PartialEq, Eq)]
pub struct LocalInstallLauncherObservationReceipt {
    authority: LocalInstallLauncherAuthority,
    platform: LocalInstallPlatform,
    locations: Vec<LauncherLocationObservation>,
}

pub struct LauncherReceiptView {
    pub authority: LocalInstallLauncherAuthority,
    pub platform: LocalInstallPlatform,
    pub locations: Seq<ObservationView>,
}

impl View for LocalInstallLauncherObservationReceipt {
    type V = LauncherReceiptView;

    closed spec fn view(&self) -> LauncherReceiptView {
        LauncherReceiptView {
            authority: self.authority,
            platform: self.platform,
            locations: outcome::seq_view(self.locations@),
        }
    }
}

impl LocalInstallLauncherObservationReceipt {
    pub fn authority(&self) -> (authority: LocalInstallLauncherAuthority)
        ensures
            authority == self@.authority,
    {
        self.authority
    }

    pub fn platform(&self) -> (platform: LocalInstallPlatform)
        ensures
            platform == self@.platform,
    {
        self.platform
    }

    pub fn locations(&self) -> (locations: &[LauncherLocationObservation])
        ensures
            outcome::seq_view(locations@) == self@.locations,
    {
        self.locations.as_slice()
    }
}

/// The observations of the first `n` approved directories, or the first
/// refusal.
pub open spec fn observed_locations(
    context: LauncherContextView,
    targets: Seq<TargetView>,
    readings: Seq<CandidateReadings>,
    n: nat,
) -> Result<Seq<ObservationView>, LauncherErrorView>
    decreases n,
{
    if n == 0 {
        Ok(Seq::empty())
    } else {
        match observed_locations(context, targets, readings, (n - 1) as nat) {
            Err(e) => Err(e),
            Ok(before) => match candidate_outcome(
                context,
                candidate_list(context)[n - 1],
                targets,
                readings[n - 1],
            ) {
                Err(e) => Err(e),
                Ok(o) => Ok(before.push(o)),
            },
        }
    }
}

/// What [`observe_local_install_launchers`] answers.
pub open spec fn observed_launchers(
    context: LauncherContextView,
    targets: Result<Seq<TargetView>, StoreErrorView>,
    readings: Seq<CandidateReadings>,
) -> Result<LauncherReceiptView, LauncherErrorView> {
    match targets {
        Err(e) => Err(store_refusal(e.kind)),
        Ok(verified) => match observed_locations(
            context,
            verified,
            readings,
            candidate_list(context).len(),
        ) {
            Err(e) => Err(e),
            Ok(locations) => Ok(
                LauncherReceiptView {
                    authority: LocalInstallLauncherAuthority::ApprovedCurrentUserLauncherOnly,
                    platform: context.platform,
                    locations,
                },
            ),
        },
    }
}

pub open spec fn targets_view(
    r: Result<Vec<LocalInstallLauncherTarget>, LocalInstallGenerationStoreError>,
) -> Result<Seq<TargetView>, StoreErrorView> {
    match r {
        Ok(targets) => Ok(outcome::seq_view(targets@)),
        Err(e) => Err(e@),
    }
}

/// Observe all fixed approved launcher classes from fresh store and directory evidence.
///
/// # Errors
///
/// Returns a bounded error when the generation store or approved directory evidence cannot be
/// inspected consistently.
pub fn observe_local_install_launchers(
    context: &LocalInstallLauncherContext,
    targets: &Result<Vec<LocalInstallLauncherTarget>, LocalInstallGenerationStoreError>,
    readings: &Vec<CandidateReadings>,
) -> (r: Result<LocalInstallLauncherObservationReceipt, LocalInstallLauncherError>)
    requires
        readings@.len() == candidate_list(context@).len(),
    ensures
        outcome::is_outcome(r, observed_launchers(context@, targets_view(*targets), readings@)),
{
    let verified = match targets {
        Ok(verified) => verified,
        Err(e) => {
            return Err(map_store_error(e));
        },
    };
    let approved = candidates(context);
    let ghost target_views = outcome::seq_view(verified@);
    let mut locations: Vec<LauncherLocationObservation> = Vec::new();
    let mut i: usize = 0;
    assert(outcome::seq_view(locations@) =~= Seq::empty());
    while i < approved.len()
        invariant
            i <= approved@.len(),
            outcome::seq_view(approved@) == candidate_list(context@),
            readings@.len() == approved@.len(),
            target_views == outcome::seq_view(verified@),
            targets_view(*targets) == Ok::<_, StoreErrorView>(target_views),
            observed_locations(context@, target_views, readings@, i as nat) == Ok::<
                _,
                LauncherErrorView,
            >(outcome::seq_view(locations@)),
        decreases approved@.len() - i,
    {
        let ghost before = outcome::seq_view(locations@);
        assert(approved@[i as int]@ == candidate_list(context@)[i as int]);
        match observe_candidate(context, &approved[i], verified, &readings[i]) {
            Ok(location) => {
                locations.push(location);
                assert(outcome::seq_view(locations@) =~= before.push(location@));
            },
            Err(e) => {
                proof {
                    lemma_first_refusal(
                        context@,
                        target_views,
                        readings@,
                        i as nat + 1,
                        candidate_list(context@).len(),
                        e@,
                    );
                }
                return Err(e);
            },
        }
        i += 1;
    }
    Ok(
        LocalInstallLauncherObservationReceipt {
            authority: LocalInstallLauncherAuthority::ApprovedCurrentUserLauncherOnly,
            platform: context.platform,
            locations,
        },
    )
}

proof fn lemma_first_refusal(
    context: LauncherContextView,
    targets: Seq<TargetView>,
    readings: Seq<CandidateReadings>,
    at: nat,
    n: nat,
    e: LauncherErrorView,
)
    requires
        at <= n,
        observed_locations(context, targets, readings, at) == Err::<Seq<ObservationView>, _>(e),
    ensures
        observed_locations(context, targets, readings, n) == Err::<Seq<ObservationView>, _>(e),
    decreases n,
{
    if at < n {
        lemma_first_refusal(context, targets, readings, at, (n - 1) as nat, e);
    }
}

#[derive(Debug, PartialEq, Eq)]
pub struct LocalInstallLauncherPublishReceipt {
    authority: LocalInstallLauncherAuthority,
    disposition: LocalInstallLauncherPublishDisposition,
    location: LauncherLocationClass,
    generation: LocalInstallGenerationIdentity,
    observation: LauncherLocationObservation,
}

pub struct PublishReceiptView {
    pub authority: LocalInstallLauncherAuthority,
    pub disposition: LocalInstallLauncherPublishDisposition,
    pub location: LauncherLocationClass,
    pub generation: IdentityView,
    pub observation: ObservationView,
}

impl View for LocalInstallLauncherPublishReceipt {
    type V = PublishReceiptView;

    closed spec fn view(&self) -> PublishReceiptView {
        PublishReceiptView {
            authority: self.authority,
            disposition: self.disposition,
            location: self.location,
            generation: self.generation@,
            observation: self.observation@,
        }
    }
}

impl LocalInstallLauncherPublishReceipt {
    pub fn authority(&self) -> (authority: LocalInstallLauncherAuthority)
        ensures
            authority == self@.authority,
    {
        self.authority
    }

    pub fn disposition(&self) -> (disposition: LocalInstallLauncherPublishDisposition)
        ensures
            disposition == self@.disposition,
    {
        self.disposition
    }

    pub fn location(&self) -> (location: LauncherLocationClass)
        ensures
            location == self@.location,
    {
        self.location
    }

    pub fn generation(&self) -> (generation: &LocalInstallGenerationIdentity)
        ensures
            generation@ == self@.generation,
    {
        &self.generation
    }

    pub fn observation(&self) -> (observation: &LauncherLocationObservation)
        ensures
            observation@ == self@.observation,
    {
        &self.observation
    }
}

pub struct SwitchView {
    pub target_generation: IdentityView,
    pub location: LauncherLocationClass,
}

/// The model of a planned switch.
pub open spec fn switch_view(plan: LauncherSwitchPlan) -> SwitchView {
    SwitchView { target_generation: plan.target_generation@, location: plan.location }
}

/// Where a publication goes.
pub struct LauncherPublication {
    pub target: usize,
    pub approved: Candidate,
    pub rank: u16,
}

/// What [`begin_publication`] answers: the target has to be among the verified
/// ones, and the location has to be approved and in PATH.
pub open spec fn begun(
    context: LauncherContextView,
    targets: Seq<TargetView>,
    plan: SwitchView,
) -> Result<(TargetView, CandidateView, u16), LauncherErrorView> {
    match target_of(targets, plan.target_generation) {
        None => Err(
            refusal(
                LocalInstallLauncherErrorKind::MissingAcceptedGeneration,
                "the launcher target is not an accepted or retained generation"@,
            ),
        ),
        Some(target) => match candidate(context, plan.location) {
            None => Err(
                refusal(
                    LocalInstallLauncherErrorKind::InvalidContext,
                    "the requested launcher class is unavailable on this platform"@,
                ),
            ),
            Some(approved) => match ranked(context.path, approved.path) {
                Err(e) => Err(e),
                Ok(None) => Err(
                    refusal(
                        LocalInstallLauncherErrorKind::LocationNotInPath,
                        "the requested approved launcher location is not present in PATH"@,
                    ),
                ),
                Ok(Some(rank)) => Ok((target, approved, rank)),
            },
        },
    }
}

/// Finds where a publication goes.
pub fn begin_publication(
    context: &LocalInstallLauncherContext,
    targets: &Vec<LocalInstallLauncherTarget>,
    plan: &LauncherSwitchPlan,
) -> (r: Result<LauncherPublication, LocalInstallLauncherError>)
    ensures
        match r {
            Ok(publication) => publication.target < targets@.len() && begun(
                context@,
                outcome::seq_view(targets@),
                switch_view(*plan),
            ) == Ok::<_, LauncherErrorView>(
                (
                    targets@[publication.target as int]@,
                    publication.approved@,
                    publication.rank,
                ),
            ),
            Err(e) => begun(context@, outcome::seq_view(targets@), switch_view(*plan)) == Err::<
                (TargetView, CandidateView, u16),
                _,
            >(e@),
        },
{
    let target = match find_target(targets, &plan.target_generation) {
        Some(target) => target,
        None => {
            return Err(
                error(
                    LocalInstallLauncherErrorKind::MissingAcceptedGeneration,
                    "the launcher target is not an accepted or retained generation",
                ),
            );
        },
    };
    let approved = match candidate_of(context, plan.location) {
        Some(approved) => approved,
        None => {
            return Err(
                error(
                    LocalInstallLauncherErrorKind::InvalidContext,
                    "the requested launcher class is unavailable on this platform",
                ),
            );
        },
    };
    match path_rank(context.path.as_str(), approved.path.as_str()) {
        Err(e) => Err(e),
        Ok(None) => Err(
            error(
                LocalInstallLauncherErrorKind::LocationNotInPath,
                "the requested approved launcher location is not present in PATH",
            ),
        ),
        Ok(Some(rank)) => Ok(LauncherPublication { target, approved, rank }),
    }
}

/// Why a launcher is not published into a directory, if it is not.
pub open spec fn directory_refusal(
    context: LauncherContextView,
    system: bool,
    probe: Result<DirectoryProbe, LauncherErrorView>,
) -> Option<LauncherErrorView> {
    match probe {
        Err(e) => Some(e),
        Ok(DirectoryProbe::Unavailable) => Some(
            refusal(
                LocalInstallLauncherErrorKind::LocationUnavailable,
                "the launcher directory is unavailable"@,
            ),
        ),
        Ok(DirectoryProbe::Unsafe) => Some(
            refusal(
                LocalInstallLauncherErrorKind::UnsafeDirectory,
                "the launcher directory is unsafe"@,
            ),
        ),
        Ok(DirectoryProbe::Ready(stat)) => match directory_state(context, system, stat) {
            LauncherDirectoryDisposition::ReadyUserOwned => None,
            LauncherDirectoryDisposition::NeedsElevation => Some(
                refusal(
                    LocalInstallLauncherErrorKind::NeedsElevation,
                    "the launcher location requires a separate elevation plan"@,
                ),
            ),
            _ => Some(
                refusal(
                    LocalInstallLauncherErrorKind::UnsafeDirectory,
                    "the launcher directory is unsafe"@,
                ),
            ),
        },
    }
}

/// Refuses a directory that a launcher is not published into.
pub fn require_ready_directory(
    context: &LocalInstallLauncherContext,
    system: bool,
    probe: &Result<DirectoryProbe, LocalInstallLauncherError>,
) -> (r: Result<(), LocalInstallLauncherError>)
    ensures
        outcome::is_check(
            r,
            match directory_refusal(context@, system, probe_view(*probe)) {
                Some(e) => Err(e),
                None => Ok(()),
            },
        ),
{
    match probe {
        Err(e) => Err(e.clone()),
        Ok(DirectoryProbe::Unavailable) => Err(
            error(
                LocalInstallLauncherErrorKind::LocationUnavailable,
                "the launcher directory is unavailable",
            ),
        ),
        Ok(DirectoryProbe::Unsafe) => Err(
            error(
                LocalInstallLauncherErrorKind::UnsafeDirectory,
                "the launcher directory is unsafe",
            ),
        ),
        Ok(DirectoryProbe::Ready(stat)) => match directory_disposition(context, system, stat) {
            LauncherDirectoryDisposition::ReadyUserOwned => Ok(()),
            LauncherDirectoryDisposition::NeedsElevation => Err(
                error(
                    LocalInstallLauncherErrorKind::NeedsElevation,
                    "the launcher location requires a separate elevation plan",
                ),
            ),
            _ => Err(
                error(
                    LocalInstallLauncherErrorKind::UnsafeDirectory,
                    "the launcher directory is unsafe",
                ),
            ),
        },
    }
}

/// Why an entry is left alone whatever is planned, if it is.
pub open spec fn protected_refusal(entry: EntryView) -> Option<LauncherErrorView> {
    match entry {
        EntryView::Foreign => Some(
            refusal(
                LocalInstallLauncherErrorKind::ForeignEntry,
                "a foreign canonical glaeda launcher is protected"@,
            ),
        ),
        EntryView::Unknown => Some(
            refusal(
                LocalInstallLauncherErrorKind::UnknownEntry,
                "an unclassified canonical glaeda launcher is protected"@,
            ),
        ),
        _ => None,
    }
}

/// Refuses an entry that is not the launcher's own.
pub fn reject_protected(entry: &LauncherEntryDisposition) -> (r: Result<
    (),
    LocalInstallLauncherError,
>)
    ensures
        outcome::is_check(
            r,
            match protected_refusal(entry@) {
                Some(e) => Err(e),
                None => Ok(()),
            },
        ),
{
    match entry {
        LauncherEntryDisposition::Foreign => Err(
            error(
                LocalInstallLauncherErrorKind::ForeignEntry,
                "a foreign canonical glaeda launcher is protected",
            ),
        ),
        LauncherEntryDisposition::Unknown => Err(
            error(
                LocalInstallLauncherErrorKind::UnknownEntry,
                "an unclassified canonical glaeda launcher is protected",
            ),
        ),
        LauncherEntryDisposition::Absent | LauncherEntryDisposition::Owned { .. } => Ok(()),
    }
}

fn same_entry(left: &LauncherEntryDisposition, right: &LauncherEntryDisposition) -> (r: bool)
    ensures
        r == (left@ == right@),
{
    match (left, right) {
        (LauncherEntryDisposition::Absent, LauncherEntryDisposition::Absent) => true,
        (LauncherEntryDisposition::Foreign, LauncherEntryDisposition::Foreign) => true,
        (LauncherEntryDisposition::Unknown, LauncherEntryDisposition::Unknown) => true,
        (
            LauncherEntryDisposition::Owned { generation_digest: a },
            LauncherEntryDisposition::Owned { generation_digest: b },
        ) => a.same_as(b),
        _ => false,
    }
}

/// Whether a staged launcher stands in the directory.
#[derive(Debug, Clone, Copy, PartialEq, Eq, Structural)]
pub enum StageReading {
    Absent,
    Present,
    Unreadable,
}

/// What is done to the directory.
#[derive(Debug, Clone, Copy, PartialEq, Eq, Structural)]
pub enum LauncherAction {
    /// The launcher is the planned one: only the directory is synchronized.
    Replay,
    /// The launcher is created where none stands.
    Create,
}

/// What [`decide_locked`] answers. An entry that changed since it was first
/// looked at, a staged launcher, and a launcher of another generation are all
/// left as they are.
pub open spec fn locked_decision(
    before: EntryView,
    locked: EntryView,
    stage: StageReading,
    plan: SwitchView,
) -> Result<LauncherAction, LauncherErrorView> {
    if locked != before {
        Err(
            refusal(
                LocalInstallLauncherErrorKind::Conflict,
                "the launcher changed before publication"@,
            ),
        )
    } else if protected_refusal(locked) is Some {
        Err(protected_refusal(locked)->0)
    } else if stage == StageReading::Present {
        Err(
            refusal(
                LocalInstallLauncherErrorKind::RecoveryRequired,
                "a staged launcher requires explicit operator recovery"@,
            ),
        )
    } else if stage == StageReading::Unreadable {
        Err(
            refusal(
                LocalInstallLauncherErrorKind::RecoveryRequired,
                "the staged launcher could not be classified without mutation"@,
            ),
        )
    } else {
        match locked {
            EntryView::Owned { generation_digest } => if generation_digest
                == plan.target_generation.digest {
                Ok(LauncherAction::Replay)
            } else {
                Err(
                    refusal(
                        LocalInstallLauncherErrorKind::Conflict,
                        "a stale owned launcher requires explicit operator retirement"@,
                    ),
                )
            },
            _ => Ok(LauncherAction::Create),
        }
    }
}

/// Decides what is done while the directory is locked.
pub fn decide_locked(
    before: &LauncherEntryDisposition,
    locked: &LauncherEntryDisposition,
    stage: StageReading,
    plan: &LauncherSwitchPlan,
) -> (r: Result<LauncherAction, LocalInstallLauncherError>)
    ensures
        match r {
            Ok(action) => locked_decision(before@, locked@, stage, switch_view(*plan)) == Ok::<
                _,
                LauncherErrorView,
            >(action),
            Err(e) => locked_decision(before@, locked@, stage, switch_view(*plan)) == Err::<
                LauncherAction,
                _,
            >(e@),
        },
{
    if !same_entry(locked, before) {
        return Err(
            error(
                LocalInstallLauncherErrorKind::Conflict,
                "the launcher changed before publication",
            ),
        );
    }
    reject_protected(locked)?;
    match stage {
        StageReading::Absent => {},
        StageReading::Present => {
            return Err(
                error(
                    LocalInstallLauncherErrorKind::RecoveryRequired,
                    "a staged launcher requires explicit operator recovery",
                ),
            );
        },
        StageReading::Unreadable => {
            return Err(
                error(
                    LocalInstallLauncherErrorKind::RecoveryRequired,
                    "the staged launcher could not be classified without mutation",
                ),
            );
        },
    }
    match locked {
        LauncherEntryDisposition::Owned { generation_digest } => {
            if generation_digest.same_as(&plan.target_generation.digest) {
                Ok(LauncherAction::Replay)
            } else {
                Err(
                    error(
                        LocalInstallLauncherErrorKind::Conflict,
                        "a stale owned launcher requires explicit operator retirement",
                    ),
                )
            }
        },
        _ => Ok(LauncherAction::Create),
    }
}

/// The receipt of a publication.
pub open spec fn publish_receipt(
    plan: SwitchView,
    rank: u16,
    entry: EntryView,
    disposition: LocalInstallLauncherPublishDisposition,
) -> Result<PublishReceiptView, LauncherErrorView> {
    match observed(
        ObservationView {
            location: plan.location,
            in_path: true,
            path_rank: Some(rank),
            directory: LauncherDirectoryDisposition::ReadyUserOwned,
            entry,
        },
    ) {
        Err(e) => Err(e),
        Ok(observation) => Ok(
            PublishReceiptView {
                authority: LocalInstallLauncherAuthority::ApprovedCurrentUserLauncherOnly,
                disposition,
                location: plan.location,
                generation: plan.target_generation,
                observation,
            },
        ),
    }
}

/// Seals a publication.
pub fn receipt(
    plan: &LauncherSwitchPlan,
    rank: u16,
    entry: LauncherEntryDisposition,
    disposition: LocalInstallLauncherPublishDisposition,
) -> (r: Result<LocalInstallLauncherPublishReceipt, LocalInstallLauncherError>)
    ensures
        outcome::is_outcome(r, publish_receipt(switch_view(*plan), rank, entry@, disposition)),
{
    let observation = observation(
        plan.location,
        Some(rank),
        LauncherDirectoryDisposition::ReadyUserOwned,
        entry,
    )?;
    Ok(
        LocalInstallLauncherPublishReceipt {
            authority: LocalInstallLauncherAuthority::ApprovedCurrentUserLauncherOnly,
            disposition,
            location: plan.location,
            generation: plan.target_generation.clone(),
            observation,
        },
    )
}

/// What [`finish_created`] answers: what stands there now has to be the planned
/// launcher.
pub open spec fn created_receipt(
    plan: SwitchView,
    rank: u16,
    entry: EntryView,
) -> Result<PublishReceiptView, LauncherErrorView> {
    if entry == (EntryView::Owned { generation_digest: plan.target_generation.digest }) {
        publish_receipt(plan, rank, entry, LocalInstallLauncherPublishDisposition::Published)
    } else {
        Err(
            refusal(
                LocalInstallLauncherErrorKind::RecoveryRequired,
                "the published launcher does not name the requested generation"@,
            ),
        )
    }
}

/// Seals the publication of a launcher that was created and synchronized.
pub fn finish_created(
    plan: &LauncherSwitchPlan,
    rank: u16,
    entry: LauncherEntryDisposition,
) -> (r: Result<LocalInstallLauncherPublishReceipt, LocalInstallLauncherError>)
    ensures
        outcome::is_outcome(r, created_receipt(switch_view(*plan), rank, entry@)),
{
    let planned = match &entry {
        LauncherEntryDisposition::Owned { generation_digest } => generation_digest.same_as(
            &plan.target_generation.digest,
        ),
        _ => false,
    };
    if !planned {
        return Err(
            error(
                LocalInstallLauncherErrorKind::RecoveryRequired,
                "the published launcher does not name the requested generation",
            ),
        );
    }
    receipt(plan, rank, entry, LocalInstallLauncherPublishDisposition::Published)
}

/// Everything that is learned in the course of one publication. What stands
/// behind a refusal was not learned and does not matter.
pub struct LauncherRun {
    pub targets: Result<Vec<LocalInstallLauncherTarget>, LocalInstallGenerationStoreError>,
    pub directory: DirectoryReadings,
    pub before: EntryReadings,
    pub lock_failure: Option<LauncherIoFailure>,
    pub locked: EntryReadings,
    pub stage: StageReading,
    /// What failed when the launcher was created, if it was to be.
    pub create_failure: Option<LauncherIoFailure>,
    /// Whether synchronizing the directory failed.
    pub synchronize_failed: bool,
    pub published: EntryReadings,
}

/// What [`publish_local_install_launcher`] answers.
pub open spec fn published(
    context: LauncherContextView,
    plan: SwitchView,
    run: LauncherRun,
) -> Result<PublishReceiptView, LauncherErrorView> {
    match targets_view(run.targets) {
        Err(e) => Err(store_refusal(e.kind)),
        Ok(targets) => match begun(context, targets, plan) {
            Err(e) => Err(e),
            Ok(place) => {
                let probe = probed(context, place.1, run.directory);
                match directory_refusal(context, place.1.system, probe) {
                    Some(e) => Err(e),
                    None => published_into(context, plan, targets, place.2, run),
                }
            },
        },
    }
}

/// The part of [`published`] inside a directory that is ready.
pub open spec fn published_into(
    context: LauncherContextView,
    plan: SwitchView,
    targets: Seq<TargetView>,
    rank: u16,
    run: LauncherRun,
) -> Result<PublishReceiptView, LauncherErrorView> {
    match entry_state(context.owner, targets, run.before@) {
        Err(e) => Err(e),
        Ok(before) => match protected_refusal(before) {
            Some(e) => Err(e),
            None => match run.lock_failure {
                Some(failure) => Err(io_refusal(failure)),
                None => match entry_state(context.owner, targets, run.locked@) {
                    Err(e) => Err(e),
                    Ok(locked) => match locked_decision(before, locked, run.stage, plan) {
                        Err(e) => Err(e),
                        Ok(LauncherAction::Replay) => if run.synchronize_failed {
                            Err(io_refusal(LauncherIoFailure::DirectoryNotSynchronized))
                        } else {
                            publish_receipt(
                                plan,
                                rank,
                                locked,
                                LocalInstallLauncherPublishDisposition::Replayed,
                            )
                        },
                        Ok(LauncherAction::Create) => created_into(
                            context,
                            plan,
                            targets,
                            rank,
                            run,
                        ),
                    },
                },
            },
        },
    }
}

/// The part of [`published`] that creates the launcher.
pub open spec fn created_into(
    context: LauncherContextView,
    plan: SwitchView,
    targets: Seq<TargetView>,
    rank: u16,
    run: LauncherRun,
) -> Result<PublishReceiptView, LauncherErrorView> {
    match run.create_failure {
        Some(failure) => Err(io_refusal(failure)),
        None => if run.synchronize_failed {
            Err(io_refusal(LauncherIoFailure::DirectoryNotSynchronized))
        } else {
            match entry_state(context.owner, targets, run.published@) {
                Err(e) => Err(e),
                Ok(entry) => created_receipt(plan, rank, entry),
            }
        },
    }
}

/// Publish or replay one exact planner-selected canonical launcher, on what was learned in the
/// course of it.
///
/// The target must be an accepted or retained verified generation. The selected directory is
/// re-observed under a nonblocking directory lock. An absent launcher is created atomically with
/// no-replace symlink semantics. Existing stages and stale launchers are recovery debt: POSIX has
/// no compare-and-unlink or compare-and-exchange primitive that can prove a pathname still names
/// the previously observed inode against a non-cooperating same-user writer, so a stage is never
/// removed and an existing launcher never replaced.
///
/// # Errors
///
/// Returns a bounded error for stale/missing target evidence, unsafe/elevated locations,
/// foreign/unknown entries, contention, recovery ambiguity or I/O failure.
pub fn publish_local_install_launcher(
    context: &LocalInstallLauncherContext,
    plan: &LauncherSwitchPlan,
    run: &LauncherRun,
) -> (r: Result<LocalInstallLauncherPublishReceipt, LocalInstallLauncherError>)
    ensures
        outcome::is_outcome(r, published(context@, switch_view(*plan), *run)),
{
    let targets = match &run.targets {
        Ok(targets) => targets,
        Err(e) => {
            return Err(map_store_error(e));
        },
    };
    let publication = begin_publication(context, targets, plan)?;
    let probe = open_directory(context, &publication.approved, &run.directory);
    require_ready_directory(context, publication.approved.system, &probe)?;
    let before = observe_entry(context, targets, &run.before)?;
    reject_protected(&before)?;
    if let Some(failure) = run.lock_failure {
        return Err(io_error(failure));
    }
    let locked = observe_entry(context, targets, &run.locked)?;
    match decide_locked(&before, &locked, run.stage, plan)? {
        LauncherAction::Replay => {
            if run.synchronize_failed {
                return Err(io_error(LauncherIoFailure::DirectoryNotSynchronized));
            }
            receipt(
                plan,
                publication.rank,
                locked,
                LocalInstallLauncherPublishDisposition::Replayed,
            )
        },
        LauncherAction::Create => {
            if let Some(failure) = run.create_failure {
                return Err(io_error(failure));
            }
            if run.synchronize_failed {
                return Err(io_error(LauncherIoFailure::DirectoryNotSynchronized));
            }
            let entry = observe_entry(context, targets, &run.published)?;
            finish_created(plan, publication.rank, entry)
        },
    }
}

/// A launcher is created only where none stood: an existing one, whoever put it
/// there, is never replaced, and neither is a staged one removed.
pub proof fn law_existing_launchers_are_never_replaced(
    before: EntryView,
    locked: EntryView,
    stage: StageReading,
    plan: SwitchView,
)
    requires
        locked_decision(before, locked, stage, plan) == Ok::<_, LauncherErrorView>(
            LauncherAction::Create,
        ),
    ensures
        locked is Absent,
        before is Absent,
        stage == StageReading::Absent,
{
}

/// Publishing again what was published is a replay that creates nothing.
pub proof fn law_replay_converges(plan: SwitchView)
    ensures
        ({
            let entry = EntryView::Owned { generation_digest: plan.target_generation.digest };
            locked_decision(entry, entry, StageReading::Absent, plan) == Ok::<
                _,
                LauncherErrorView,
            >(LauncherAction::Replay)
        }),
{
}

/// A receipt is given only for a verified target, an approved location in PATH,
/// and an entry that names exactly the planned generation.
pub proof fn law_published_launcher_is_the_planned_one(
    context: LauncherContextView,
    plan: SwitchView,
    run: LauncherRun,
)
    requires
        published(context, plan, run) is Ok,
    ensures
        ({
            let receipt = published(context, plan, run)->Ok_0;
            &&& receipt.generation == plan.target_generation
            &&& receipt.location == plan.location
            &&& receipt.observation.entry == (EntryView::Owned {
                generation_digest: plan.target_generation.digest,
            })
            &&& receipt.observation.in_path
            &&& receipt.observation.directory == LauncherDirectoryDisposition::ReadyUserOwned
            &&& targets_view(run.targets) is Ok
            &&& target_of(targets_view(run.targets)->Ok_0, plan.target_generation) is Some
            &&& candidate(context, plan.location) is Some
        }),
{
}

/// An entry counts as owned only when it links to a verified target that still
/// resolves.
pub proof fn law_owned_entries_are_verified(
    owner: (u32, u32),
    targets: Seq<TargetView>,
    readings: EntryReadingsView,
)
    requires
        entry_state(owner, targets, readings) matches Ok(entry) && entry is Owned,
    ensures
        readings.stat matches EntryStat::Found(stat) && is_own_link(stat, owner)
            && readings.stat_again == readings.stat,
        readings.link is Some,
        linked_target(targets, readings.link->0) matches Some(target) && entry_state(
            owner,
            targets,
            readings,
        ) == Ok::<_, LauncherErrorView>(
            EntryView::Owned { generation_digest: target.identity.digest },
        ),
        readings.resolved is Ok,
{
}

/// A directory that nobody else can write to is ready for the user exactly when
/// the user owns it, whether it is one of the home or of the system. Elevation
/// is asked for only in a system directory of root that is not the user's;
/// every other directory is unsafe.
pub proof fn law_directories_are_ready_for_their_owner(
    context: LauncherContextView,
    system: bool,
    stat: FileStat,
)
    ensures
        ({
            let state = directory_state(context, system, stat);
            let closed_to_others = stat.mode & 0o022 == 0;
            let own = stat.owner == context.owner.0;
            &&& state == LauncherDirectoryDisposition::ReadyUserOwned <==> closed_to_others && own
            &&& state == LauncherDirectoryDisposition::NeedsElevation <==> closed_to_others && !own
                && system && stat.owner == 0
            &&& state != LauncherDirectoryDisposition::Unavailable
            &&& state == LauncherDirectoryDisposition::ReadyUserOwned <==> directory_state(
                context,
                !system,
                stat,
            ) == LauncherDirectoryDisposition::ReadyUserOwned
        }),
{
}

/// A launcher is published into a directory exactly when it was reached, nobody
/// else can write to it and the user owns it; a system directory of root is
/// refused for want of elevation, and any other as unsafe or unavailable.
pub proof fn law_publication_needs_a_directory_of_the_user(
    context: LauncherContextView,
    system: bool,
    probe: Result<DirectoryProbe, LauncherErrorView>,
)
    ensures
        directory_refusal(context, system, probe) is None <==> match probe {
            Ok(DirectoryProbe::Ready(stat)) => stat.mode & 0o022 == 0 && stat.owner
                == context.owner.0,
            _ => false,
        },
        probe matches Ok(DirectoryProbe::Ready(stat)) ==> (directory_refusal(
            context,
            system,
            probe,
        ) matches Some(e) ==> e.kind == (if stat.mode & 0o022 == 0 && system && stat.owner == 0 {
            LocalInstallLauncherErrorKind::NeedsElevation
        } else {
            LocalInstallLauncherErrorKind::UnsafeDirectory
        })),
        probe == Ok::<DirectoryProbe, LauncherErrorView>(DirectoryProbe::Unavailable)
            ==> directory_refusal(context, system, probe)->0.kind
            == LocalInstallLauncherErrorKind::LocationUnavailable,
        probe == Ok::<DirectoryProbe, LauncherErrorView>(DirectoryProbe::Unsafe)
            ==> directory_refusal(context, system, probe)->0.kind
            == LocalInstallLauncherErrorKind::UnsafeDirectory,
        probe matches Err(e) ==> directory_refusal(context, system, probe) == Some(e),
{
}

/// The approved directories are those of the home and of the system, the latter
/// told apart from the former, and Homebrew's only where macOS is. Every class
/// of the platform is observed, each once.
pub proof fn law_approved_directories_are_fixed(
    context: LauncherContextView,
    class: LauncherLocationClass,
)
    ensures
        candidate(context, class) is None <==> class == LauncherLocationClass::HomebrewBin
            && context.platform == LocalInstallPlatform::Linux,
        candidate(context, class) matches Some(approved) ==> {
            &&& approved.class == class
            &&& approved.system <==> class == LauncherLocationClass::HomebrewBin || class
                == LauncherLocationClass::UsrLocalBin
            &&& match class {
                LauncherLocationClass::HomeLocalBin => approved.path == paths::child(
                    context.home,
                    ".local/bin"@,
                ),
                LauncherLocationClass::HomeBin => approved.path == paths::child(
                    context.home,
                    "bin"@,
                ),
                LauncherLocationClass::HomebrewBin => approved.path == "/opt/homebrew/bin"@,
                LauncherLocationClass::UsrLocalBin => approved.path == "/usr/local/bin"@,
            }
        },
        candidate(context, class) is Some ==> candidate_list(context).contains(
            candidate(context, class)->0,
        ),
        candidate_list(context).len() == (if context.platform == LocalInstallPlatform::Macos {
            4nat
        } else {
            3nat
        }),
{
    let list = candidate_list(context);
    if candidate(context, class) is Some {
        let at: int = match class {
            LauncherLocationClass::HomeLocalBin => 0,
            LauncherLocationClass::HomeBin => 1,
            LauncherLocationClass::HomebrewBin => 2,
            LauncherLocationClass::UsrLocalBin => list.len() - 1,
        };
        assert(list[at] == candidate(context, class)->0);
    }
}

/// A rank is the position of the first entry of PATH that names the directory;
/// there is none exactly when no entry names it.
pub proof fn law_ranks_are_first_positions(path: Seq<char>, directory: Seq<char>, at: int)
    ensures
        ({
            let entries = scan::split_on(path, ':');
            let names = |k: int| 0 <= k < entries.len() && paths::is_same_location(
                entries[k],
                directory,
            );
            &&& ranked(path, directory) == Ok::<Option<u16>, LauncherErrorView>(None)
                <==> forall|k: int| 0 <= k < entries.len() ==> !paths::is_same_location(
                #[trigger] entries[k],
                directory,
            )
            &&& ranked(path, directory) is Ok && ranked(path, directory)->Ok_0 is Some && (ranked(
                path,
                directory,
            )->Ok_0)->0 == at <==> 0 <= at < 65_536 && names(at) && forall|k: int| 0 <= k < at ==> !paths::is_same_location(
                #[trigger] entries[k],
                directory,
            )
            &&& ranked(path, directory) matches Err(e) ==> e.kind
                == LocalInstallLauncherErrorKind::InvalidContext && entries.len() > 65_536
        }),
{
    let entries = scan::split_on(path, ':');
    lemma_first_entry_is(entries, directory);
    if 0 <= at < entries.len() && paths::is_same_location(entries[at], directory) && (forall|
        k: int,
    |
        0 <= k < at ==> !paths::is_same_location(#[trigger] entries[k], directory)) {
        lemma_first_entry(entries, directory, at);
    }
    if forall|k: int|
        0 <= k < entries.len() ==> !paths::is_same_location(#[trigger] entries[k], directory) {
        lemma_first_entry(entries, directory, entries.len() as int);
    }
}

proof fn lemma_first_entry_is(entries: Seq<Seq<char>>, directory: Seq<char>)
    ensures
        match first_entry(entries, directory) {
            Some(at) => at < entries.len() && paths::is_same_location(
                entries[at as int],
                directory,
            ) && forall|k: int|
                0 <= k < at ==> !paths::is_same_location(#[trigger] entries[k], directory),
            None => forall|k: int|
                0 <= k < entries.len() ==> !paths::is_same_location(
                    #[trigger] entries[k],
                    directory,
                ),
        },
    decreases entries.len(),
{
    if entries.len() > 0 && !paths::is_same_location(entries[0], directory) {
        let rest = entries.skip(1);
        lemma_first_entry_is(rest, directory);
        assert forall|k: int| 0 < k < entries.len() implies #[trigger] entries[k] == rest[k
            - 1] by {}
    }
}

/// An entry on the way to a directory that does not end the probe: it was
/// opened and, in the home or anywhere on a system path, it is a directory that
/// nobody but the user, or root on a system path, can write to.
pub open spec fn is_passed(
    context: LauncherContextView,
    approved: CandidateView,
    depth: nat,
    opened: OpenedEntry,
) -> bool {
    match opened {
        OpenedEntry::Refused(_) => false,
        OpenedEntry::Opened(found) => (approved.system || is_within_home(
            context,
            approved.path,
            depth,
        )) ==> {
            &&& found is Some
            &&& found->0.mode & 0o170000 == 0o040000
            &&& found->0.mode & 0o022 == 0
            &&& found->0.owner == context.owner.0 || (approved.system && found->0.owner == 0)
        },
    }
}

/// A directory is reached exactly when every entry on the way to it is passed
/// and it is a directory of the home or of the system. Where the way ends is
/// told apart: what is missing makes it unavailable, a link or a file in the
/// way makes it unsafe, and anything else is an error.
pub proof fn law_directories_are_reached_step_by_step(
    context: LauncherContextView,
    approved: CandidateView,
    readings: DirectoryReadings,
    at: int,
)
    requires
        0 <= at <= readings.opened@.len(),
        forall|k: int|
            0 <= k < at ==> is_passed(
                context,
                approved,
                (k + 1) as nat,
                #[trigger] readings.opened@[k],
            ),
    ensures
        !readings.root_opened ==> probed(context, approved, readings) is Err,
        readings.root_opened && at == readings.opened@.len() ==> match readings.directory {
            Some(stat) => probed(context, approved, readings) == Ok::<
                DirectoryProbe,
                LauncherErrorView,
            >(
                if stat.mode & 0o170000 == 0o040000 && (approved.system || is_within_home(
                    context,
                    approved.path,
                    paths::named_entries(approved.path).len(),
                )) {
                    DirectoryProbe::Ready(stat)
                } else {
                    DirectoryProbe::Unsafe
                },
            ),
            None => probed(context, approved, readings) is Err,
        },
        readings.root_opened && at < readings.opened@.len() ==> match readings.opened@[at] {
            OpenedEntry::Refused(OpenRefusal::Missing) => probed(context, approved, readings)
                == Ok::<DirectoryProbe, LauncherErrorView>(DirectoryProbe::Unavailable),
            OpenedEntry::Refused(OpenRefusal::SymbolicLink)
            | OpenedEntry::Refused(OpenRefusal::NotADirectory) => probed(
                context,
                approved,
                readings,
            ) == Ok::<DirectoryProbe, LauncherErrorView>(DirectoryProbe::Unsafe),
            OpenedEntry::Refused(_) => probed(context, approved, readings) is Err,
            OpenedEntry::Opened(found) => !is_passed(
                context,
                approved,
                (at + 1) as nat,
                readings.opened@[at],
            ) ==> (if found is Some {
                probed(context, approved, readings) == Ok::<DirectoryProbe, LauncherErrorView>(
                    DirectoryProbe::Unsafe,
                )
            } else {
                probed(context, approved, readings) is Err
            }),
        },
{
    lemma_passed_from(context, approved, readings.opened@, readings.directory, at);
}

proof fn lemma_passed_from(
    context: LauncherContextView,
    approved: CandidateView,
    opened: Seq<OpenedEntry>,
    directory: Option<FileStat>,
    at: int,
)
    requires
        0 <= at <= opened.len(),
        forall|k: int|
            0 <= k < at ==> is_passed(context, approved, (k + 1) as nat, #[trigger] opened[k]),
    ensures
        probed_from(context, approved, opened, 0, directory) == probed_from(
            context,
            approved,
            opened,
            at as nat,
            directory,
        ),
    decreases at,
{
    if at > 0 {
        lemma_passed_from(context, approved, opened, directory, at - 1);
        assert(is_passed(context, approved, at as nat, opened[at - 1]));
        assert(step_end(context, approved, at as nat, opened[at - 1]) is None);
    }
}

/// The launcher in a directory is the installer's exactly when it is a
/// single-link symbolic link of the user that names a verified target by its
/// very path, the target still resolves, and the link did not change meanwhile.
/// Nothing there is an absent launcher, and everything else is protected.
pub proof fn law_entries_are_told_apart(
    owner: (u32, u32),
    targets: Seq<TargetView>,
    readings: EntryReadingsView,
)
    ensures
        ({
            let state = entry_state(owner, targets, readings);
            let found = readings.stat->Found_0;
            let own_link = readings.stat is Found && found.mode & 0o170000 == 0o120000
                && found.owner == owner.0 && found.group == owner.1 && found.links == 1;
            let named = exists|k: int|
                0 <= k < targets.len() && Some((#[trigger] targets[k]).path) == readings.link;
            &&& state == Ok::<EntryView, LauncherErrorView>(EntryView::Absent) <==> readings.stat
                == EntryStat::Missing
            &&& state == Ok::<EntryView, LauncherErrorView>(EntryView::Foreign)
                <==> readings.stat is Found && (!own_link || (readings.link is Some && !named))
            &&& state is Err <==> own_link && named && readings.resolved is Err
            &&& state matches Ok(EntryView::Owned { generation_digest }) ==> {
                &&& own_link
                &&& readings.resolved is Ok
                &&& readings.stat_again == readings.stat
                &&& exists|k: int|
                    {
                        &&& 0 <= k < targets.len()
                        &&& Some((#[trigger] targets[k]).path) == readings.link
                        &&& targets[k].identity.digest == generation_digest
                        &&& forall|j: int|
                            0 <= j < k ==> Some((#[trigger] targets[j]).path) != readings.link
                    }
            }
            &&& own_link && named && readings.resolved is Ok && readings.stat_again
                == readings.stat ==> (state matches Ok(entry) && entry is Owned)
        }),
{
    if readings.link is Some {
        lemma_linked_target_is(targets, readings.link->0);
    }
}

proof fn lemma_linked_target_is(targets: Seq<TargetView>, link: Seq<u8>)
    ensures
        match linked_target(targets, link) {
            Some(target) => exists|k: int|
                {
                    &&& 0 <= k < targets.len()
                    &&& (#[trigger] targets[k]).path == link
                    &&& targets[k] == target
                    &&& forall|j: int| 0 <= j < k ==> (#[trigger] targets[j]).path != link
                },
            None => forall|k: int| 0 <= k < targets.len() ==> (#[trigger] targets[k]).path != link,
        },
    decreases targets.len(),
{
    if targets.len() > 0 {
        if targets[0].path == link {
            assert(targets[0] == linked_target(targets, link)->0);
        } else {
            let rest = targets.skip(1);
            lemma_linked_target_is(rest, link);
            assert forall|k: int| 0 < k < targets.len() implies #[trigger] targets[k] == rest[k
                - 1] by {}
            if linked_target(rest, link) is Some {
                let k = choose|k: int|
                    {
                        &&& 0 <= k < rest.len()
                        &&& (#[trigger] rest[k]).path == link
                        &&& rest[k] == linked_target(rest, link)->0
                        &&& forall|j: int| 0 <= j < k ==> (#[trigger] rest[j]).path != link
                    };
                assert(targets[k + 1] == rest[k]);
                assert forall|j: int| 0 <= j < k + 1 implies (#[trigger] targets[j]).path
                    != link by {
                    if j > 0 {
                        assert(targets[j] == rest[j - 1]);
                    }
                }
            }
        }
    }
}

proof fn lemma_target_of_is(targets: Seq<TargetView>, identity: IdentityView)
    ensures
        match target_of(targets, identity) {
            Some(target) => targets.contains(target) && target.identity == identity,
            None => forall|k: int|
                0 <= k < targets.len() ==> (#[trigger] targets[k]).identity != identity,
        },
    decreases targets.len(),
{
    if targets.len() > 0 {
        if targets[0].identity == identity {
            assert(targets.contains(targets[0]));
        } else {
            let rest = targets.skip(1);
            lemma_target_of_is(rest, identity);
            assert forall|k: int| 0 < k < targets.len() implies #[trigger] targets[k] == rest[k
                - 1] by {}
            if target_of(rest, identity) is Some {
                let k = choose|k: int| 0 <= k < rest.len() && rest[k] == target_of(rest, identity)->0;
                assert(targets[k + 1] == rest[k]);
            }
        }
    }
}

/// What is observed of a directory is what its place in PATH, the way to it and
/// its entry say: nothing stands where PATH or the way does not lead, what
/// stands in an unsafe directory is unknown, and a directory is called ready or
/// in need of elevation only by its own metadata.
pub proof fn law_observations_say_what_was_read(
    context: LauncherContextView,
    approved: CandidateView,
    targets: Seq<TargetView>,
    readings: CandidateReadings,
)
    requires
        candidate_outcome(context, approved, targets, readings) is Ok,
    ensures
        ({
            let o = candidate_outcome(context, approved, targets, readings)->Ok_0;
            let probe = probed(context, approved, readings.directory);
            let entry = entry_state(context.owner, targets, readings.entry@);
            &&& o.location == approved.class
            &&& ranked(context.path, approved.path) == Ok::<Option<u16>, LauncherErrorView>(
                o.path_rank,
            )
            &&& o.in_path == (o.path_rank is Some)
            &&& match probe {
                Ok(DirectoryProbe::Ready(stat)) => {
                    &&& o.directory == LauncherDirectoryDisposition::ReadyUserOwned <==> stat.mode
                        & 0o022 == 0 && stat.owner == context.owner.0
                    &&& o.directory == LauncherDirectoryDisposition::NeedsElevation <==> stat.mode
                        & 0o022 == 0 && stat.owner != context.owner.0 && approved.system
                        && stat.owner == 0
                    &&& o.directory != LauncherDirectoryDisposition::Unavailable
                    &&& o.in_path ==> entry == Ok::<EntryView, LauncherErrorView>(o.entry)
                },
                Ok(DirectoryProbe::Unavailable) => o.directory
                    == LauncherDirectoryDisposition::Unavailable && o.entry is Absent,
                Ok(DirectoryProbe::Unsafe) => o.directory == LauncherDirectoryDisposition::Unsafe
                    && (o.in_path ==> o.entry is Unknown),
                Err(_) => false,
            }
            &&& !o.in_path ==> o.entry is Absent
        }),
{
}

/// The observation of a directory fails only where PATH cannot be counted, the
/// way to the directory cannot be inspected, or a launcher in PATH cannot be
/// resolved.
pub proof fn law_observations_fail_only_with_their_readings(
    context: LauncherContextView,
    approved: CandidateView,
    targets: Seq<TargetView>,
    readings: CandidateReadings,
)
    ensures
        ({
            let rank = ranked(context.path, approved.path);
            let probe = probed(context, approved, readings.directory);
            let entry = entry_state(context.owner, targets, readings.entry@);
            candidate_outcome(context, approved, targets, readings) is Err <==> {
                ||| rank is Err
                ||| probe is Err
                ||| rank->Ok_0 is Some && probe->Ok_0 is Ready && entry is Err
            }
        }),
{
}

/// Every approved directory of the platform is observed, in its order, and one
/// that cannot be observed fails the whole.
pub proof fn law_every_approved_directory_is_observed(
    context: LauncherContextView,
    targets: Result<Seq<TargetView>, StoreErrorView>,
    readings: Seq<CandidateReadings>,
)
    requires
        observed_launchers(context, targets, readings) is Ok,
    ensures
        ({
            let receipt = observed_launchers(context, targets, readings)->Ok_0;
            &&& targets is Ok
            &&& receipt.platform == context.platform
            &&& receipt.locations.len() == candidate_list(context).len()
            &&& forall|i: int|
                0 <= i < receipt.locations.len() ==> Ok::<ObservationView, LauncherErrorView>(
                    #[trigger] receipt.locations[i],
                ) == candidate_outcome(
                    context,
                    candidate_list(context)[i],
                    targets->Ok_0,
                    readings[i],
                )
        }),
{
    lemma_observed_locations(
        context,
        targets->Ok_0,
        readings,
        candidate_list(context).len(),
    );
}

proof fn lemma_observed_locations(
    context: LauncherContextView,
    targets: Seq<TargetView>,
    readings: Seq<CandidateReadings>,
    n: nat,
)
    requires
        observed_locations(context, targets, readings, n) is Ok,
    ensures
        observed_locations(context, targets, readings, n)->Ok_0.len() == n,
        forall|i: int|
            0 <= i < n ==> Ok::<ObservationView, LauncherErrorView>(
                #[trigger] observed_locations(context, targets, readings, n)->Ok_0[i],
            ) == candidate_outcome(context, candidate_list(context)[i], targets, readings[i]),
    decreases n,
{
    if n > 0 {
        lemma_observed_locations(context, targets, readings, (n - 1) as nat);
    }
}

/// Under the lock a launcher is created only where none stood and none stands,
/// and left as it is only where the planned one stood and stands. What changed,
/// what is protected, what is staged and what is stale is refused, each in its
/// own way.
pub proof fn law_locked_launchers_decide(
    before: EntryView,
    locked: EntryView,
    stage: StageReading,
    plan: SwitchView,
)
    ensures
        ({
            let decision = locked_decision(before, locked, stage, plan);
            let planned = EntryView::Owned { generation_digest: plan.target_generation.digest };
            &&& decision == Ok::<LauncherAction, LauncherErrorView>(LauncherAction::Create)
                <==> before is Absent && locked is Absent && stage == StageReading::Absent
            &&& decision == Ok::<LauncherAction, LauncherErrorView>(LauncherAction::Replay)
                <==> before == planned && locked == planned && stage == StageReading::Absent
            &&& before != locked ==> decision->Err_0.kind == LocalInstallLauncherErrorKind::Conflict
            &&& before == locked && locked is Foreign ==> decision->Err_0.kind
                == LocalInstallLauncherErrorKind::ForeignEntry
            &&& before == locked && locked is Unknown ==> decision->Err_0.kind
                == LocalInstallLauncherErrorKind::UnknownEntry
            &&& before == locked && (locked is Absent || locked is Owned) && stage
                != StageReading::Absent ==> decision->Err_0.kind
                == LocalInstallLauncherErrorKind::RecoveryRequired
            &&& before == locked && locked is Owned && locked != planned && stage
                == StageReading::Absent ==> decision->Err_0.kind
                == LocalInstallLauncherErrorKind::Conflict
        }),
{
}

/// A publication succeeds exactly when the planned generation is a verified
/// target, the approved directory is in PATH and the user's, and under the lock
/// either the planned launcher stands or none did, was created, and is found to
/// name the planned generation. The receipt says which of the two it was.
pub proof fn law_launchers_are_published_or_replayed(
    context: LauncherContextView,
    plan: SwitchView,
    run: LauncherRun,
)
    ensures
        ({
            let answer = published(context, plan, run);
            let targets = targets_view(run.targets)->Ok_0;
            let approved = candidate(context, plan.location)->0;
            let rank = ranked(context.path, approved.path);
            let planned = EntryView::Owned { generation_digest: plan.target_generation.digest };
            let before = entry_state(context.owner, targets, run.before@);
            let locked = entry_state(context.owner, targets, run.locked@);
            let after = entry_state(context.owner, targets, run.published@);
            let placed = {
                &&& targets_view(run.targets) is Ok
                &&& exists|k: int|
                    0 <= k < targets.len() && (#[trigger] targets[k]).identity
                        == plan.target_generation
                &&& candidate(context, plan.location) is Some
                &&& rank is Ok && rank->Ok_0 is Some
                &&& probed(context, approved, run.directory) matches Ok(DirectoryProbe::Ready(stat))
                    && stat.mode & 0o022 == 0 && stat.owner == context.owner.0
                &&& run.lock_failure is None
                &&& run.stage == StageReading::Absent
                &&& !run.synchronize_failed
                &&& before is Ok && before == locked
            };
            &&& answer is Ok <==> placed && (before->Ok_0 == planned || (before->Ok_0 is Absent
                && run.create_failure is None && after == Ok::<EntryView, LauncherErrorView>(
                planned,
            )))
            &&& answer matches Ok(receipt) ==> {
                &&& receipt.disposition == (if before->Ok_0 is Absent {
                    LocalInstallLauncherPublishDisposition::Published
                } else {
                    LocalInstallLauncherPublishDisposition::Replayed
                })
                &&& receipt.observation.path_rank == rank->Ok_0
                &&& receipt.observation.location == plan.location
            }
        }),
{
    if targets_view(run.targets) is Ok {
        lemma_target_of_is(targets_view(run.targets)->Ok_0, plan.target_generation);
    }
}

/// What the generation store refuses is passed on by its kind: a busy store, a
/// conflict and a need for recovery keep their meaning, and everything else
/// leaves the store unavailable.
pub proof fn law_store_refusals_keep_their_meaning(kind: LocalInstallGenerationStoreErrorKind)
    ensures
        ({
            let passed = store_refusal(kind).kind;
            &&& passed == LocalInstallLauncherErrorKind::Busy <==> kind
                == LocalInstallGenerationStoreErrorKind::Busy
            &&& passed == LocalInstallLauncherErrorKind::Conflict <==> kind
                == LocalInstallGenerationStoreErrorKind::Conflict
            &&& passed == LocalInstallLauncherErrorKind::RecoveryRequired <==> kind
                == LocalInstallGenerationStoreErrorKind::RecoveryRequired
            &&& passed == LocalInstallLauncherErrorKind::Busy || passed
                == LocalInstallLauncherErrorKind::Conflict || passed
                == LocalInstallLauncherErrorKind::RecoveryRequired || passed
                == LocalInstallLauncherErrorKind::GenerationStoreUnavailable
        }),
{
}

/// Of the operations that can fail, only a held lock makes the directory busy,
/// and only a launcher that appeared meanwhile is a conflict.
pub proof fn law_failed_operations_are_told_apart(failure: LauncherIoFailure)
    ensures
        ({
            let kind = io_refusal(failure).kind;
            &&& kind == LocalInstallLauncherErrorKind::Busy <==> failure
                == LauncherIoFailure::LockHeld
            &&& kind == LocalInstallLauncherErrorKind::Conflict <==> failure
                == LauncherIoFailure::LauncherExists
            &&& kind == LocalInstallLauncherErrorKind::UnsupportedPlatform <==> failure
                == LauncherIoFailure::UnsupportedPlatform
            &&& kind == LocalInstallLauncherErrorKind::InvalidContext <==> failure
                == LauncherIoFailure::HomeUnavailable
            &&& kind == LocalInstallLauncherErrorKind::Io || kind
                == LocalInstallLauncherErrorKind::Busy || kind
                == LocalInstallLauncherErrorKind::Conflict || kind
                == LocalInstallLauncherErrorKind::UnsupportedPlatform || kind
                == LocalInstallLauncherErrorKind::InvalidContext
        }),
{
}

/// The directories of the home that a launcher can stand in begin where the
/// home directory ends: what stands above it is not judged, and the home
/// directory and everything below it is.
pub proof fn law_the_home_is_judged_from_its_top(
    context: LauncherContextView,
    name: Seq<char>,
    depth: nat,
)
    ensures
        ({
            let directory = paths::child(context.home, name);
            let top = paths::named_entries(context.home).len();
            is_within_home(context, directory, depth) <==> top <= depth <= top
                + paths::named_entries(name).len()
        }),
{
    let directory = paths::child(context.home, name);
    let home = paths::named_entries(context.home);
    paths::law_children_stand_below_their_directory(context.home, name);
    assert(paths::named_entries(directory).take(home.len() as int) =~= home);
}

} // verus!
