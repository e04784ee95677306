//! The Cargo configuration locations that may influence a local self-build,
//! judged from what was read of them.
use vstd::prelude::*;

use crate::outcome;
use crate::paths;
use crate::process;
use crate::scan;

verus! {

pub const LOCAL_INSTALL_CARGO_CONFIG_OBSERVATION_SCHEMA_VERSION: u8 = 1;

#[derive(Debug, Clone, Copy, PartialEq, Eq, Structural)]
pub enum SourceCargoConfigDisposition {
    Absent,
    Toml,
    Legacy,
    Both,
    Unsafe,
    Unknown,
}

#[derive(Debug, Clone, Copy, PartialEq, Eq, Structural)]
pub enum AncestorCargoConfigDisposition {
    Absent,
    Present,
    Unsafe,
    Unknown,
}

#[derive(Debug, Clone, Copy, PartialEq, Eq, Structural)]
pub enum CargoHomeConfigDisposition {
    Missing,
    Absent,
    Present,
    Unsafe,
    Unknown,
}

#[derive(Debug, PartialEq, Eq)]
pub struct LocalInstallCargoConfigObservation {
    pub schema_version: u8,
    pub receipt_type: &'static str,
    pub source_config: SourceCargoConfigDisposition,
    pub ancestor_config: AncestorCargoConfigDisposition,
    pub cargo_home_config: CargoHomeConfigDisposition,
    pub ready: bool,
    pub blocking_codes: Vec<&'static str>,
    pub repair_codes: Vec<&'static str>,
}

pub struct ConfigObservationView {
    pub schema_version: u8,
    pub receipt_type: Seq<char>,
    pub source_config: SourceCargoConfigDisposition,
    pub ancestor_config: AncestorCargoConfigDisposition,
    pub cargo_home_config: CargoHomeConfigDisposition,
    pub ready: bool,
    pub blocking_codes: Seq<Seq<char>>,
    pub repair_codes: Seq<Seq<char>>,
}

impl View for LocalInstallCargoConfigObservation {
    type V = ConfigObservationView;

    open spec fn view(&self) -> ConfigObservationView {
        ConfigObservationView {
            schema_version: self.schema_version,
            receipt_type: self.receipt_type@,
            source_config: self.source_config,
            ancestor_config: self.ancestor_config,
            cargo_home_config: self.cargo_home_config,
            ready: self.ready,
            blocking_codes: outcome::seq_view(self.blocking_codes@),
            repair_codes: outcome::seq_view(self.repair_codes@),
        }
    }
}

#[derive(Debug, Clone, Copy, PartialEq, Eq, Structural)]
pub enum LocalInstallCargoConfigObservationErrorKind {
    UnsafeSourceRoot,
    UnsafeCargoHomePath,
}

#[derive(Debug, PartialEq, Eq)]
pub struct LocalInstallCargoConfigObservationError {
    pub kind: LocalInstallCargoConfigObservationErrorKind,
    pub code: &'static str,
    pub problem: &'static str,
}

pub struct ConfigObservationErrorView {
    pub kind: LocalInstallCargoConfigObservationErrorKind,
    pub code: Seq<char>,
    pub problem: Seq<char>,
}

impl View for LocalInstallCargoConfigObservationError {
    type V = ConfigObservationErrorView;

    open spec fn view(&self) -> ConfigObservationErrorView {
        ConfigObservationErrorView {
            kind: self.kind,
            code: self.code@,
            problem: self.problem@,
        }
    }
}

/// What a path leads to, links not followed.
#[derive(Debug, Clone, Copy, PartialEq, Eq, Structural)]
pub enum EntryReading {
    Directory,
    RegularFile,
    /// A symbolic link or a special file.
    Other,
    Missing,
    Unreadable,
}

/// What was read of one directory and of the two configuration files in it.
#[derive(Debug, Clone, Copy, PartialEq, Eq, Structural)]
pub struct ConfigDirectoryReading {
    pub directory: EntryReading,
    pub modern: EntryReading,
    pub legacy: EntryReading,
}

/// Everything that was read for one observation.
#[derive(Debug, PartialEq, Eq)]
pub struct CargoConfigReadings {
    pub source_root: EntryReading,
    /// The canonical path of the source root, if it could be resolved.
    pub canonical_source_root: Option<String>,
    /// The Cargo directory of the source root.
    pub source: ConfigDirectoryReading,
    /// The Cargo directories above the source root, nearest first.
    pub ancestors: Vec<ConfigDirectoryReading>,
    /// The directories on the way to the Cargo home, outermost first.
    pub cargo_home_components: Vec<EntryReading>,
    /// The Cargo home itself.
    pub cargo_home: ConfigDirectoryReading,
}

pub struct ReadingsView {
    pub source_root: EntryReading,
    pub canonical_source_root: Option<Seq<char>>,
    pub source: ConfigDirectoryReading,
    pub ancestors: Seq<ConfigDirectoryReading>,
    pub cargo_home_components: Seq<EntryReading>,
    pub cargo_home: ConfigDirectoryReading,
}

impl View for CargoConfigReadings {
    type V = ReadingsView;

    open spec fn view(&self) -> ReadingsView {
        ReadingsView {
            source_root: self.source_root,
            canonical_source_root: outcome::option_view(self.canonical_source_root),
            source: self.source,
            ancestors: self.ancestors@,
            cargo_home_components: self.cargo_home_components@,
            cargo_home: self.cargo_home,
        }
    }
}

/// The paths that one observation reads. The Cargo home itself is the last
/// directory on the way to it.
#[derive(Debug, PartialEq, Eq)]
pub struct CargoConfigLocations {
    /// The Cargo directory of the source root.
    pub source: String,
    /// The Cargo directories above the source root, nearest first.
    pub ancestors: Vec<String>,
    /// The directories on the way to the Cargo home, outermost first.
    pub cargo_home_components: Vec<String>,
}

pub struct LocationsView {
    pub source: Seq<char>,
    pub ancestors: Seq<Seq<char>>,
    pub cargo_home_components: Seq<Seq<char>>,
}

impl View for CargoConfigLocations {
    type V = LocationsView;

    open spec fn view(&self) -> LocationsView {
        LocationsView {
            source: self.source@,
            ancestors: outcome::seq_view(self.ancestors@),
            cargo_home_components: outcome::seq_view(self.cargo_home_components@),
        }
    }
}

/// The Cargo directory inside a directory.
pub open spec fn dot_cargo_in(directory: Seq<char>) -> Seq<char> {
    paths::child(directory, ".cargo"@)
}

/// What [`cargo_config_locations`] answers: every directory above the source
/// root up to the file system's root is looked at, and every directory on the
/// way to the Cargo home but the root.
pub open spec fn config_locations(source_root: Seq<char>, cargo_home: Seq<char>) -> LocationsView {
    let source = paths::way_to(source_root);
    let home = paths::way_to(cargo_home);
    LocationsView {
        source: dot_cargo_in(source.last()),
        ancestors: Seq::new(
            (source.len() - 1) as nat,
            |i: int| dot_cargo_in(source[source.len() - 2 - i]),
        ),
        cargo_home_components: home.skip(1),
    }
}

/// The exact paths whose readings decide an observation.
pub fn cargo_config_locations(source_root: &str, cargo_home: &str) -> (locations:
    CargoConfigLocations)
    ensures
        locations@ == config_locations(source_root@, cargo_home@),
{
    let way = paths::way_of(source_root);
    let ghost source = paths::way_to(source_root@);
    let last = way.len() - 1;
    let mut ancestors: Vec<String> = Vec::new();
    let mut left: usize = last;
    while left > 0
        invariant
            left <= last,
            last + 1 == way@.len(),
            outcome::seq_view(way@) == source,
            ancestors@.len() == last - left,
            forall|k: int|
                0 <= k < last - left ==> (#[trigger] ancestors@[k])@ == dot_cargo_in(
                    source[source.len() - 2 - k],
                ),
        decreases left,
    {
        left -= 1;
        assert(source[left as int] == way@[left as int]@);
        ancestors.push(paths::child_of(way[left].as_str(), ".cargo"));
    }
    let mut home = paths::way_of(cargo_home);
    let ghost all = home@;
    home.remove(0);
    assert(home@ =~= all.skip(1));
    assert(outcome::seq_view(home@) =~= paths::way_to(cargo_home@).skip(1));
    assert(outcome::seq_view(ancestors@) =~= config_locations(source_root@, cargo_home@).ancestors);
    assert(source.last() == way@[last as int]@);
    CargoConfigLocations {
        source: paths::child_of(way[last].as_str(), ".cargo"),
        ancestors,
        cargo_home_components: home,
    }
}

#[derive(Debug, Clone, Copy, PartialEq, Eq, Structural)]
pub enum ConfigFileObservation {
    Absent,
    Present,
    Unsafe,
    Unknown,
}

#[derive(Debug, Clone, Copy, PartialEq, Eq, Structural)]
pub enum PairObservation {
    Absent,
    Toml,
    Legacy,
    Both,
    Unsafe,
    Unknown,
}

#[derive(Debug, Clone, Copy, PartialEq, Eq, Structural)]
pub enum PathObservation {
    Missing,
    Ready,
    Unsafe,
    Unknown,
}

pub open spec fn config_file_state(entry: EntryReading) -> ConfigFileObservation {
    match entry {
        EntryReading::RegularFile => ConfigFileObservation::Present,
        EntryReading::Missing => ConfigFileObservation::Absent,
        EntryReading::Unreadable => ConfigFileObservation::Unknown,
        _ => ConfigFileObservation::Unsafe,
    }
}

/// The state of a directory's two configuration files: unsafe decides before
/// unknown.
pub open spec fn config_pair(modern: EntryReading, legacy: EntryReading) -> PairObservation {
    let toml = config_file_state(modern);
    let old = config_file_state(legacy);
    if toml == ConfigFileObservation::Unsafe || old == ConfigFileObservation::Unsafe {
        PairObservation::Unsafe
    } else if toml == ConfigFileObservation::Unknown || old == ConfigFileObservation::Unknown {
        PairObservation::Unknown
    } else if toml == ConfigFileObservation::Present && old == ConfigFileObservation::Present {
        PairObservation::Both
    } else if toml == ConfigFileObservation::Present {
        PairObservation::Toml
    } else if old == ConfigFileObservation::Present {
        PairObservation::Legacy
    } else {
        PairObservation::Absent
    }
}

/// The state of a Cargo directory that need not exist.
pub open spec fn dot_cargo(reading: ConfigDirectoryReading) -> PairObservation {
    match reading.directory {
        EntryReading::Directory => config_pair(reading.modern, reading.legacy),
        EntryReading::Missing => PairObservation::Absent,
        EntryReading::Unreadable => PairObservation::Unknown,
        _ => PairObservation::Unsafe,
    }
}

pub open spec fn source_config_state(
    reading: ConfigDirectoryReading,
) -> SourceCargoConfigDisposition {
    match dot_cargo(reading) {
        PairObservation::Absent => SourceCargoConfigDisposition::Absent,
        PairObservation::Toml => SourceCargoConfigDisposition::Toml,
        PairObservation::Legacy => SourceCargoConfigDisposition::Legacy,
        PairObservation::Both => SourceCargoConfigDisposition::Both,
        PairObservation::Unsafe => SourceCargoConfigDisposition::Unsafe,
        PairObservation::Unknown => SourceCargoConfigDisposition::Unknown,
    }
}

pub open spec fn is_config_present(pair: PairObservation) -> bool {
    pair == PairObservation::Toml || pair == PairObservation::Legacy || pair
        == PairObservation::Both
}

/// The state of all directories above the source root: unsafe anywhere decides
/// before unknown, and unknown before present. Nothing is known unless each of
/// them was read.
pub open spec fn ancestor_config_state(
    directories: nat,
    ancestors: Seq<ConfigDirectoryReading>,
) -> AncestorCargoConfigDisposition {
    if ancestors.len() == 0 || ancestors.len() != directories {
        AncestorCargoConfigDisposition::Unknown
    } else if exists|i: int|
        0 <= i < ancestors.len() && dot_cargo(#[trigger] ancestors[i]) == PairObservation::Unsafe {
        AncestorCargoConfigDisposition::Unsafe
    } else if exists|i: int|
        0 <= i < ancestors.len() && dot_cargo(#[trigger] ancestors[i])
            == PairObservation::Unknown {
        AncestorCargoConfigDisposition::Unknown
    } else if exists|i: int|
        0 <= i < ancestors.len() && is_config_present(dot_cargo(#[trigger] ancestors[i])) {
        AncestorCargoConfigDisposition::Present
    } else {
        AncestorCargoConfigDisposition::Absent
    }
}

/// The first directory on the way that is not there or is no directory decides.
pub open spec fn path_state(components: Seq<EntryReading>) -> PathObservation
    decreases components.len(),
{
    if components.len() == 0 {
        PathObservation::Unsafe
    } else {
        match components[0] {
            EntryReading::Directory => if components.len() == 1 {
                PathObservation::Ready
            } else {
                path_state(components.skip(1))
            },
            EntryReading::Missing => PathObservation::Missing,
            EntryReading::Unreadable => PathObservation::Unknown,
            _ => PathObservation::Unsafe,
        }
    }
}

/// The state of the Cargo home, which is reached only over every directory on
/// the way to it.
pub open spec fn cargo_home_config_state(
    directories: nat,
    readings: ReadingsView,
) -> CargoHomeConfigDisposition {
    match path_state(readings.cargo_home_components) {
        PathObservation::Ready if readings.cargo_home_components.len()
            != directories => CargoHomeConfigDisposition::Unknown,
        PathObservation::Missing => CargoHomeConfigDisposition::Missing,
        PathObservation::Unsafe => CargoHomeConfigDisposition::Unsafe,
        PathObservation::Unknown => CargoHomeConfigDisposition::Unknown,
        PathObservation::Ready => match config_pair(
            readings.cargo_home.modern,
            readings.cargo_home.legacy,
        ) {
            PairObservation::Absent => CargoHomeConfigDisposition::Absent,
            PairObservation::Unsafe => CargoHomeConfigDisposition::Unsafe,
            PairObservation::Unknown => CargoHomeConfigDisposition::Unknown,
            _ => CargoHomeConfigDisposition::Present,
        },
    }
}

/// Two paths that name the same entries one after the other.
pub open spec fn is_same_path(left: Seq<char>, right: Seq<char>) -> bool {
    paths::plain_segments(scan::split_on(left, '/')) == paths::plain_segments(
        scan::split_on(right, '/'),
    )
}

/// The source root is a real directory under its own canonical path.
pub open spec fn is_exact_source_root(source_root: Seq<char>, readings: ReadingsView) -> bool {
    &&& paths::is_descending(source_root)
    &&& readings.source_root == EntryReading::Directory
    &&& readings.canonical_source_root matches Some(canonical) && is_same_path(
        canonical,
        source_root,
    )
}

/// A code where there is one.
pub open spec fn code_list(code: Option<Seq<char>>) -> Seq<Seq<char>> {
    match code {
        Some(value) => seq![value],
        None => Seq::empty(),
    }
}

pub open spec fn source_block(state: SourceCargoConfigDisposition) -> Option<Seq<char>> {
    match state {
        SourceCargoConfigDisposition::Both => Some("source_cargo_config_conflict"@),
        SourceCargoConfigDisposition::Unsafe => Some("source_cargo_config_unsafe"@),
        SourceCargoConfigDisposition::Unknown => Some("source_cargo_config_unknown"@),
        _ => None,
    }
}

pub open spec fn ancestor_block(state: AncestorCargoConfigDisposition) -> Option<Seq<char>> {
    match state {
        AncestorCargoConfigDisposition::Absent => None,
        AncestorCargoConfigDisposition::Present => Some("ancestor_cargo_config_present"@),
        AncestorCargoConfigDisposition::Unsafe => Some("ancestor_cargo_config_unsafe"@),
        AncestorCargoConfigDisposition::Unknown => Some("ancestor_cargo_config_unknown"@),
    }
}

pub open spec fn cargo_home_config_block(state: CargoHomeConfigDisposition) -> Option<Seq<char>> {
    match state {
        CargoHomeConfigDisposition::Present => Some("isolated_cargo_home_config_present"@),
        CargoHomeConfigDisposition::Unsafe => Some("isolated_cargo_home_unsafe"@),
        CargoHomeConfigDisposition::Unknown => Some("isolated_cargo_home_unknown"@),
        _ => None,
    }
}

pub open spec fn cargo_home_config_repair(state: CargoHomeConfigDisposition) -> Option<Seq<char>> {
    if state == CargoHomeConfigDisposition::Missing {
        Some("create_isolated_cargo_home"@)
    } else {
        None
    }
}

/// What [`observe_local_install_cargo_config`] answers.
pub open spec fn observed_config(
    source_root: Seq<char>,
    cargo_home: Seq<char>,
    readings: ReadingsView,
) -> Result<ConfigObservationView, ConfigObservationErrorView> {
    let source_config = source_config_state(readings.source);
    let locations = config_locations(source_root, cargo_home);
    let ancestor_config = ancestor_config_state(locations.ancestors.len(), readings.ancestors);
    let cargo_home_config = cargo_home_config_state(
        locations.cargo_home_components.len(),
        readings,
    );
    let blocking_codes = code_list(source_block(source_config)) + code_list(
        ancestor_block(ancestor_config),
    ) + code_list(cargo_home_config_block(cargo_home_config));
    if !is_exact_source_root(source_root, readings) {
        Err(
            ConfigObservationErrorView {
                kind: LocalInstallCargoConfigObservationErrorKind::UnsafeSourceRoot,
                code: "unsafe_source_root"@,
                problem: "local self-build source root is unsafe or aliased"@,
            },
        )
    } else if !paths::is_descending(cargo_home) {
        Err(
            ConfigObservationErrorView {
                kind: LocalInstallCargoConfigObservationErrorKind::UnsafeCargoHomePath,
                code: "unsafe_cargo_home_path"@,
                problem: "local self-build isolated Cargo-home path is unsafe"@,
            },
        )
    } else {
        Ok(
            ConfigObservationView {
                schema_version: LOCAL_INSTALL_CARGO_CONFIG_OBSERVATION_SCHEMA_VERSION,
                receipt_type: "smolrunner-local-install-cargo-config-observation"@,
                source_config,
                ancestor_config,
                cargo_home_config,
                ready: blocking_codes.len() == 0,
                blocking_codes,
                repair_codes: code_list(cargo_home_config_repair(cargo_home_config)),
            },
        )
    }
}

fn observe_config_file(entry: EntryReading) -> (r: ConfigFileObservation)
    ensures
        r == config_file_state(entry),
{
    match entry {
        EntryReading::RegularFile => ConfigFileObservation::Present,
        EntryReading::Missing => ConfigFileObservation::Absent,
        EntryReading::Unreadable => ConfigFileObservation::Unknown,
        _ => ConfigFileObservation::Unsafe,
    }
}

/// Judges a directory's two configuration files.
pub fn observe_config_pair(modern: EntryReading, legacy: EntryReading) -> (r: PairObservation)
    ensures
        r == config_pair(modern, legacy),
{
    let toml = observe_config_file(modern);
    let old = observe_config_file(legacy);
    if toml == ConfigFileObservation::Unsafe || old == ConfigFileObservation::Unsafe {
        return PairObservation::Unsafe;
    }
    if toml == ConfigFileObservation::Unknown || old == ConfigFileObservation::Unknown {
        return PairObservation::Unknown;
    }
    match (toml == ConfigFileObservation::Present, old == ConfigFileObservation::Present) {
        (false, false) => PairObservation::Absent,
        (true, false) => PairObservation::Toml,
        (false, true) => PairObservation::Legacy,
        (true, true) => PairObservation::Both,
    }
}

/// Judges a Cargo directory that need not exist.
pub fn observe_dot_cargo(reading: ConfigDirectoryReading) -> (r: PairObservation)
    ensures
        r == dot_cargo(reading),
{
    match reading.directory {
        EntryReading::Directory => observe_config_pair(reading.modern, reading.legacy),
        EntryReading::Missing => PairObservation::Absent,
        EntryReading::Unreadable => PairObservation::Unknown,
        _ => PairObservation::Unsafe,
    }
}

fn observe_source_config(reading: ConfigDirectoryReading) -> (r: SourceCargoConfigDisposition)
    ensures
        r == source_config_state(reading),
{
    match observe_dot_cargo(reading) {
        PairObservation::Absent => SourceCargoConfigDisposition::Absent,
        PairObservation::Toml => SourceCargoConfigDisposition::Toml,
        PairObservation::Legacy => SourceCargoConfigDisposition::Legacy,
        PairObservation::Both => SourceCargoConfigDisposition::Both,
        PairObservation::Unsafe => SourceCargoConfigDisposition::Unsafe,
        PairObservation::Unknown => SourceCargoConfigDisposition::Unknown,
    }
}

fn observe_ancestor_config(directories: usize, ancestors: &Vec<ConfigDirectoryReading>) -> (r:
    AncestorCargoConfigDisposition)
    ensures
        r == ancestor_config_state(directories as nat, ancestors@),
{
    if ancestors.len() == 0 || ancestors.len() != directories {
        return AncestorCargoConfigDisposition::Unknown;
    }
    let mut saw_present = false;
    let mut saw_unknown = false;
    let mut i: usize = 0;
    while i < ancestors.len()
        invariant
            i <= ancestors@.len(),
            0 < ancestors@.len(),
            ancestors@.len() == directories,
            forall|k: int|
                0 <= k < i ==> dot_cargo(#[trigger] ancestors@[k]) != PairObservation::Unsafe,
            saw_unknown <==> exists|k: int|
                0 <= k < i && dot_cargo(#[trigger] ancestors@[k]) == PairObservation::Unknown,
            saw_present <==> exists|k: int|
                0 <= k < i && is_config_present(dot_cargo(#[trigger] ancestors@[k])),
        decreases ancestors@.len() - i,
    {
        let reading = ancestors[i];
        assert(reading == ancestors@[i as int]);
        match observe_dot_cargo(reading) {
            PairObservation::Unsafe => {
                return AncestorCargoConfigDisposition::Unsafe;
            },
            PairObservation::Unknown => {
                saw_unknown = true;
            },
            PairObservation::Toml | PairObservation::Legacy | PairObservation::Both => {
                saw_present = true;
            },
            PairObservation::Absent => {},
        }
        i += 1;
    }
    if saw_unknown {
        AncestorCargoConfigDisposition::Unknown
    } else if saw_present {
        AncestorCargoConfigDisposition::Present
    } else {
        AncestorCargoConfigDisposition::Absent
    }
}

fn observe_path_components(components: &Vec<EntryReading>) -> (r: PathObservation)
    ensures
        r == path_state(components@),
{
    let mut i: usize = 0;
    assert(components@.skip(0) =~= components@);
    while i < components.len()
        invariant
            i <= components@.len(),
            path_state(components@) == path_state(components@.skip(i as int)),
        decreases components@.len() - i,
    {
        assert(components@.skip(i as int).skip(1) =~= components@.skip(i as int + 1));
        match components[i] {
            EntryReading::Directory => {
                if i + 1 == components.len() {
                    return PathObservation::Ready;
                }
            },
            EntryReading::Missing => {
                return PathObservation::Missing;
            },
            EntryReading::Unreadable => {
                return PathObservation::Unknown;
            },
            _ => {
                return PathObservation::Unsafe;
            },
        }
        i += 1;
    }
    PathObservation::Unsafe
}

fn observe_cargo_home_config(directories: usize, readings: &CargoConfigReadings) -> (r:
    CargoHomeConfigDisposition)
    ensures
        r == cargo_home_config_state(directories as nat, readings@),
{
    match observe_path_components(&readings.cargo_home_components) {
        PathObservation::Ready if readings.cargo_home_components.len()
            != directories => CargoHomeConfigDisposition::Unknown,
        PathObservation::Missing => CargoHomeConfigDisposition::Missing,
        PathObservation::Unsafe => CargoHomeConfigDisposition::Unsafe,
        PathObservation::Unknown => CargoHomeConfigDisposition::Unknown,
        PathObservation::Ready => match observe_config_pair(
            readings.cargo_home.modern,
            readings.cargo_home.legacy,
        ) {
            PairObservation::Absent => CargoHomeConfigDisposition::Absent,
            PairObservation::Unsafe => CargoHomeConfigDisposition::Unsafe,
            PairObservation::Unknown => CargoHomeConfigDisposition::Unknown,
            _ => CargoHomeConfigDisposition::Present,
        },
    }
}

fn same_path(left: &str, right: &str) -> (r: bool)
    ensures
        r == is_same_path(left@, right@),
{
    process::same_texts(&paths::normal_components(left), &paths::normal_components(right))
}

fn exact_source_root(source_root: &str, readings: &CargoConfigReadings) -> (r: bool)
    ensures
        r == is_exact_source_root(source_root@, readings@),
{
    let canonical = match &readings.canonical_source_root {
        Some(canonical) => same_path(canonical.as_str(), source_root),
        None => false,
    };
    paths::descending(source_root) && readings.source_root == EntryReading::Directory && canonical
}

/// Judges the exact Cargo configuration locations that may influence a local self-build.
///
/// The source root must already be the caller's exact canonical worktree root. A symlink never
/// establishes that configuration is absent, and only path-private classifications are returned.
///
/// # Errors
///
/// Returns a bounded error when the source root is not an existing canonical real directory or the
/// isolated Cargo-home path is lexically unsafe.
pub fn observe_local_install_cargo_config(
    source_root: &str,
    cargo_home: &str,
    readings: &CargoConfigReadings,
) -> (r: Result<LocalInstallCargoConfigObservation, LocalInstallCargoConfigObservationError>)
    ensures
        outcome::is_outcome(r, observed_config(source_root@, cargo_home@, readings@)),
{
    if !exact_source_root(source_root, readings) {
        return Err(
            LocalInstallCargoConfigObservationError {
                kind: LocalInstallCargoConfigObservationErrorKind::UnsafeSourceRoot,
                code: "unsafe_source_root",
                problem: "local self-build source root is unsafe or aliased",
            },
        );
    }
    if !paths::descending(cargo_home) {
        return Err(
            LocalInstallCargoConfigObservationError {
                kind: LocalInstallCargoConfigObservationErrorKind::UnsafeCargoHomePath,
                code: "unsafe_cargo_home_path",
                problem: "local self-build isolated Cargo-home path is unsafe",
            },
        );
    }
    let source_config = observe_source_config(readings.source);
    let locations = cargo_config_locations(source_root, cargo_home);
    let ancestor_config = observe_ancestor_config(locations.ancestors.len(), &readings.ancestors);
    let cargo_home_config = observe_cargo_home_config(
        locations.cargo_home_components.len(),
        readings,
    );
    let mut blocking_codes: Vec<&'static str> = Vec::new();
    let mut repair_codes: Vec<&'static str> = Vec::new();
    match source_config {
        SourceCargoConfigDisposition::Absent
        | SourceCargoConfigDisposition::Toml
        | SourceCargoConfigDisposition::Legacy => {},
        SourceCargoConfigDisposition::Both => {
            blocking_codes.push("source_cargo_config_conflict");
        },
        SourceCargoConfigDisposition::Unsafe => {
            blocking_codes.push("source_cargo_config_unsafe");
        },
        SourceCargoConfigDisposition::Unknown => {
            blocking_codes.push("source_cargo_config_unknown");
        },
    }
    assert(outcome::seq_view(blocking_codes@) =~= code_list(source_block(source_config)));
    let ghost first = outcome::seq_view(blocking_codes@);
    match ancestor_config {
        AncestorCargoConfigDisposition::Absent => {},
        AncestorCargoConfigDisposition::Present => {
            blocking_codes.push("ancestor_cargo_config_present");
        },
        AncestorCargoConfigDisposition::Unsafe => {
            blocking_codes.push("ancestor_cargo_config_unsafe");
        },
        AncestorCargoConfigDisposition::Unknown => {
            blocking_codes.push("ancestor_cargo_config_unknown");
        },
    }
    assert(outcome::seq_view(blocking_codes@) =~= first + code_list(
        ancestor_block(ancestor_config),
    ));
    let ghost second = outcome::seq_view(blocking_codes@);
    match cargo_home_config {
        CargoHomeConfigDisposition::Missing => {
            repair_codes.push("create_isolated_cargo_home");
        },
        CargoHomeConfigDisposition::Absent => {},
        CargoHomeConfigDisposition::Present => {
            blocking_codes.push("isolated_cargo_home_config_present");
        },
        CargoHomeConfigDisposition::Unsafe => {
            blocking_codes.push("isolated_cargo_home_unsafe");
        },
        CargoHomeConfigDisposition::Unknown => {
            blocking_codes.push("isolated_cargo_home_unknown");
        },
    }
    assert(outcome::seq_view(blocking_codes@) =~= second + code_list(
        cargo_home_config_block(cargo_home_config),
    ));
    assert(outcome::seq_view(repair_codes@) =~= code_list(
        cargo_home_config_repair(cargo_home_config),
    ));
    Ok(
        LocalInstallCargoConfigObservation {
            schema_version: LOCAL_INSTALL_CARGO_CONFIG_OBSERVATION_SCHEMA_VERSION,
            receipt_type: "smolrunner-local-install-cargo-config-observation",
            source_config,
            ancestor_config,
            cargo_home_config,
            ready: blocking_codes.len() == 0,
            blocking_codes,
            repair_codes,
        },
    )
}

/// An observation is ready only if the Cargo directory of every directory above
/// the source root was read, and held no configuration.
pub proof fn law_ready_looked_at_every_ancestor(
    source_root: Seq<char>,
    cargo_home: Seq<char>,
    readings: ReadingsView,
)
    requires
        observed_config(source_root, cargo_home, readings) matches Ok(observed) && observed.ready,
    ensures
        readings.ancestors.len() == config_locations(source_root, cargo_home).ancestors.len(),
        readings.ancestors.len() == paths::named_entries(source_root).len(),
        forall|i: int|
            0 <= i < readings.ancestors.len() ==> dot_cargo(#[trigger] readings.ancestors[i])
                == PairObservation::Absent,
{
    law_foreign_configuration_blocks(source_root, cargo_home, readings);
}

/// No configuration above the source root or in the Cargo home is ever ready,
/// and anything unsafe or unknown blocks; configuration of the source root
/// itself is allowed as long as it is one file.
pub proof fn law_foreign_configuration_blocks(
    source_root: Seq<char>,
    cargo_home: Seq<char>,
    readings: ReadingsView,
)
    requires
        observed_config(source_root, cargo_home, readings) is Ok,
    ensures
        ({
            let observed = observed_config(source_root, cargo_home, readings)->Ok_0;
            observed.ready <==> {
                &&& observed.source_config != SourceCargoConfigDisposition::Both
                &&& observed.source_config != SourceCargoConfigDisposition::Unsafe
                &&& observed.source_config != SourceCargoConfigDisposition::Unknown
                &&& observed.ancestor_config == AncestorCargoConfigDisposition::Absent
                &&& observed.cargo_home_config == CargoHomeConfigDisposition::Absent
                    || observed.cargo_home_config == CargoHomeConfigDisposition::Missing
            }
        }),
{
}

/// Nothing is there, and nothing that could not be told.
pub open spec fn has_no_config(reading: ConfigDirectoryReading) -> bool {
    reading.directory == EntryReading::Missing || (reading.directory == EntryReading::Directory
        && reading.modern == EntryReading::Missing && reading.legacy == EntryReading::Missing)
}

/// One plain configuration file at most is in the directory.
pub open spec fn has_one_config(reading: ConfigDirectoryReading) -> bool {
    has_no_config(reading) || (reading.directory == EntryReading::Directory && (reading.modern
        == EntryReading::Missing && reading.legacy == EntryReading::RegularFile || (reading.modern
        == EntryReading::RegularFile && reading.legacy == EntryReading::Missing)))
}

/// A source is ready to be built exactly when it has one configuration file of
/// its own at most, no directory above it has any, and the isolated Cargo home
/// has none or is not there yet; then the Cargo home that is missing is to be
/// made.
pub proof fn law_sources_are_ready_without_foreign_configuration(
    source_root: Seq<char>,
    cargo_home: Seq<char>,
    readings: ReadingsView,
)
    requires
        observed_config(source_root, cargo_home, readings) is Ok,
    ensures
        ({
            let observed = observed_config(source_root, cargo_home, readings)->Ok_0;
            let components = readings.cargo_home_components;
            let above = paths::named_entries(source_root).len();
            let below = paths::named_entries(cargo_home).len();
            &&& observed.ready <==> {
                &&& has_one_config(readings.source)
                &&& readings.ancestors.len() == above
                &&& forall|i: int|
                    0 <= i < readings.ancestors.len() ==> has_no_config(
                        #[trigger] readings.ancestors[i],
                    )
                &&& path_state(components) == PathObservation::Missing || (path_state(components)
                    == PathObservation::Ready && components.len() == below
                    && readings.cargo_home.modern == EntryReading::Missing
                    && readings.cargo_home.legacy == EntryReading::Missing)
            }
            &&& observed.ready <==> observed.blocking_codes.len() == 0
            &&& observed.repair_codes.len() > 0 <==> path_state(components)
                == PathObservation::Missing
            &&& observed.schema_version == 1
        }),
{
    let observed = observed_config(source_root, cargo_home, readings)->Ok_0;
    let ancestors = readings.ancestors;
    assert forall|i: int| 0 <= i < ancestors.len() implies (has_no_config(#[trigger] ancestors[i])
        <==> dot_cargo(ancestors[i]) == PairObservation::Absent) by {}
    assert(paths::way_to(source_root).len() == paths::named_entries(source_root).len() + 1);
    assert(paths::way_to(cargo_home).len() == paths::named_entries(cargo_home).len() + 1);
    if observed.ancestor_config == AncestorCargoConfigDisposition::Absent {
        assert forall|i: int| 0 <= i < ancestors.len() implies has_no_config(
            #[trigger] ancestors[i],
        ) by {
            let pair = dot_cargo(ancestors[i]);
            assert(pair != PairObservation::Unsafe && pair != PairObservation::Unknown
                && !is_config_present(pair));
        }
    }
    if forall|i: int| 0 <= i < ancestors.len() ==> has_no_config(#[trigger] ancestors[i]) {
        assert forall|i: int| 0 <= i < ancestors.len() implies dot_cargo(#[trigger] ancestors[i])
            == PairObservation::Absent by {
            assert(has_no_config(ancestors[i]));
        }
    }
}

/// The way to the Cargo home is ready when every entry on it is a directory;
/// otherwise the first that is not tells what is wrong.
pub proof fn law_the_way_to_the_cargo_home_is_walked(components: Seq<EntryReading>, at: int)
    requires
        0 <= at <= components.len(),
        components.len() > 0,
        forall|k: int| 0 <= k < at ==> #[trigger] components[k] == EntryReading::Directory,
    ensures
        at == components.len() ==> path_state(components) == PathObservation::Ready,
        at < components.len() ==> match components[at] {
            EntryReading::Directory => true,
            EntryReading::Missing => path_state(components) == PathObservation::Missing,
            EntryReading::Unreadable => path_state(components) == PathObservation::Unknown,
            _ => path_state(components) == PathObservation::Unsafe,
        },
    decreases components.len(),
{
    if at > 0 && components.len() > 1 {
        let rest = components.skip(1);
        assert(components[0] == EntryReading::Directory);
        assert forall|k: int| 0 <= k < at - 1 implies #[trigger] rest[k]
            == EntryReading::Directory by {
            assert(components[k + 1] == EntryReading::Directory);
        }
        law_the_way_to_the_cargo_home_is_walked(rest, at - 1);
        if at < components.len() {
            assert(rest[at - 1] == components[at]);
        }
    } else if at > 0 {
        assert(components[0] == EntryReading::Directory);
    }
}

/// An observation is made exactly of a source root that is a directory, is
/// reached by its own path, and stands below the root of the filesystem, and of
/// such a Cargo home.
pub proof fn law_observations_are_of_exact_roots(
    source_root: Seq<char>,
    cargo_home: Seq<char>,
    readings: ReadingsView,
)
    ensures
        observed_config(source_root, cargo_home, readings) is Ok <==> {
            &&& paths::is_upright(source_root) && paths::named_entries(source_root).len() > 0
            &&& readings.source_root == EntryReading::Directory
            &&& readings.canonical_source_root is Some
            &&& paths::named_entries(readings.canonical_source_root->0) == paths::named_entries(
                source_root,
            )
            &&& paths::is_upright(cargo_home) && paths::named_entries(cargo_home).len() > 0
        },
{
}

/// Configuration is looked for in the directory of Cargo under the source root,
/// under every directory above it up to the root of the filesystem, nearest
/// first, and on every step of the way to the Cargo home.
pub proof fn law_configuration_is_looked_for_all_the_way_up(
    source_root: Seq<char>,
    cargo_home: Seq<char>,
    i: int,
)
    ensures
        ({
            let locations = config_locations(source_root, cargo_home);
            let source = paths::way_to(source_root);
            let home = paths::way_to(cargo_home);
            let n = paths::named_entries(source_root).len();
            &&& locations.source == paths::child(source[n as int], ".cargo"@)
            &&& locations.ancestors.len() == n
            &&& 0 <= i < n ==> locations.ancestors[i] == paths::child(source[n - 1 - i], ".cargo"@)
            &&& n > 0 ==> locations.ancestors.last() == paths::child("/"@, ".cargo"@)
            &&& locations.cargo_home_components.len() == paths::named_entries(cargo_home).len()
            &&& 0 <= i < locations.cargo_home_components.len()
                ==> locations.cargo_home_components[i] == home[i + 1]
        }),
{
    assert(paths::named_entries(source_root).take(0) =~= Seq::empty());
}

/// A directory of Cargo that is missing holds no configuration; one that is
/// there is told by its two files, either of which may be the only one.
pub proof fn law_configuration_files_are_told_apart(reading: ConfigDirectoryReading)
    ensures
        ({
            let state = source_config_state(reading);
            let modern = reading.modern == EntryReading::RegularFile;
            let legacy = reading.legacy == EntryReading::RegularFile;
            let there = reading.directory == EntryReading::Directory;
            let no_modern = reading.modern == EntryReading::Missing;
            let no_legacy = reading.legacy == EntryReading::Missing;
            &&& state == SourceCargoConfigDisposition::Toml <==> there && modern && no_legacy
            &&& state == SourceCargoConfigDisposition::Legacy <==> there && legacy && no_modern
            &&& state == SourceCargoConfigDisposition::Both <==> there && modern && legacy
            &&& state == SourceCargoConfigDisposition::Absent <==> reading.directory
                == EntryReading::Missing || (there && no_modern && no_legacy)
            &&& state == SourceCargoConfigDisposition::Unsafe <==> reading.directory
                == EntryReading::RegularFile || reading.directory == EntryReading::Other || (there
                && (reading.modern == EntryReading::Directory || reading.modern
                == EntryReading::Other || reading.legacy == EntryReading::Directory
                || reading.legacy == EntryReading::Other))
        }),
{
}

} // verus!
