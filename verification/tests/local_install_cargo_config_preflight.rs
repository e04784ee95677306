//! Preflight of the isolated Cargo configuration.
use std::cell::{Cell, RefCell};
use std::collections::BTreeMap;

use glaeda::file_evidence::{FileStat, OpenRefusal, OpenedEntry};
use glaeda::local_install_cargo_config_preflight::{
    inspect_config_file, inspect_config_parent, inspect_directory_step, inspect_open_directory,
    observe_with, CargoConfigFilesystem, ConfigObservation, DirectoryExpectation,
    DirectoryObservation, LocalInstallBuildRootDisposition, LocalInstallCargoConfigBlockingCode,
    LocalInstallCargoConfigDisposition, LocalInstallCargoConfigPreflightContext,
    LocalInstallCargoConfigPreflightError, LocalInstallCargoConfigRepairCode,
    LocalInstallCargoHomeConfigDisposition, ObjectIdentity, ReadingTurn, PRIVATE_DIRECTORY_MODE,
};

struct FakeFilesystem {
    directories: RefCell<BTreeMap<String, DirectoryObservation>>,
    files: RefCell<BTreeMap<String, ConfigObservation>>,
    queries: RefCell<Vec<String>>,
    mutation_after_queries: Cell<Option<usize>>,
    query_count: Cell<usize>,
}

impl FakeFilesystem {
    fn new() -> Self {
        Self {
            directories: RefCell::new(BTreeMap::new()),
            files: RefCell::new(BTreeMap::new()),
            queries: RefCell::new(vec![]),
            mutation_after_queries: Cell::new(None),
            query_count: Cell::new(0),
        }
    }

    fn directory(self, path: &str, state: DirectoryObservation) -> Self {
        self.directories.borrow_mut().insert(path.into(), state);
        self
    }

    fn file(self, path: &str, state: ConfigObservation) -> Self {
        self.files.borrow_mut().insert(path.into(), state);
        self
    }

    fn mutate_after_queries(self, count: usize) -> Self {
        self.mutation_after_queries.set(Some(count));
        self
    }

    fn record(&self, path: &str) {
        self.queries.borrow_mut().push(path.to_owned());
        let count = self.query_count.get() + 1;
        self.query_count.set(count);
        if self.mutation_after_queries.get() == Some(count) {
            self.files.borrow_mut().insert(
                "/var/lib/smolrunner-build/.cargo/config.toml".into(),
                present(99),
            );
        }
    }
}

impl CargoConfigFilesystem for FakeFilesystem {
    fn directory(
        &self,
        _turn: ReadingTurn,
        path: &str,
        _expectation: DirectoryExpectation,
        _context: &LocalInstallCargoConfigPreflightContext,
    ) -> DirectoryObservation {
        self.record(path);
        self.directories
            .borrow()
            .get(path)
            .copied()
            .unwrap_or_else(|| ready_directory(path))
    }

    fn config_file(
        &self,
        _turn: ReadingTurn,
        path: &str,
        _context: &LocalInstallCargoConfigPreflightContext,
    ) -> ConfigObservation {
        self.record(path);
        self.files
            .borrow()
            .get(path)
            .copied()
            .unwrap_or(ConfigObservation::Missing)
    }
}

fn context() -> LocalInstallCargoConfigPreflightContext {
    LocalInstallCargoConfigPreflightContext::new("/var/lib/smolrunner-build", 501, 20)
        .unwrap()
}

fn identity(seed: u64) -> ObjectIdentity {
    ObjectIdentity {
        device: 1,
        inode: seed,
        uid: 501,
        gid: 20,
        mode: PRIVATE_DIRECTORY_MODE,
        links: 1,
    }
}

fn ready_directory(path: &str) -> DirectoryObservation {
    let seed = path
        .as_bytes()
        .iter()
        .fold(17_u64, |value, byte| value.wrapping_mul(31) + u64::from(*byte));
    DirectoryObservation::Ready(identity(seed))
}

fn present(seed: u64) -> ConfigObservation {
    ConfigObservation::Present(identity(seed))
}

#[test]
fn empty_private_layout_is_ready_and_path_private() {
    let filesystem = FakeFilesystem::new();
    let receipt = observe_with(&context(), &filesystem);
    assert!(receipt.ready);
    assert_eq!(receipt.build_root, LocalInstallBuildRootDisposition::Ready);
    assert_eq!(
        receipt.lineage_config,
        LocalInstallCargoConfigDisposition::Absent
    );
    assert_eq!(
        receipt.cargo_home_config,
        LocalInstallCargoHomeConfigDisposition::Absent
    );
    assert!(receipt.blocking_codes.is_empty());
    assert!(receipt.repair_codes.is_empty());

    let public = format!("{receipt:?}");
    assert!(!public.contains("/var/lib"));
    assert!(!public.contains("501"));
    assert_eq!(receipt.schema_version, 1);
}

#[test]
fn missing_build_root_and_cargo_home_are_typed_repairs() {
    let filesystem = FakeFilesystem::new()
        .directory("/var/lib/smolrunner-build", DirectoryObservation::Missing)
        .directory(
            "/var/lib/smolrunner-build/cargo-home",
            DirectoryObservation::Missing,
        );
    let receipt = observe_with(&context(), &filesystem);
    assert!(!receipt.ready);
    assert_eq!(receipt.build_root, LocalInstallBuildRootDisposition::Missing);
    assert_eq!(
        receipt.repair_codes,
        vec![LocalInstallCargoConfigRepairCode::CreateIsolatedBuildRoot]
    );
}

#[test]
fn modern_or_legacy_config_anywhere_in_lineage_blocks() {
    for name in ["config.toml", "config"] {
        let filesystem = FakeFilesystem::new().file(
            &format!("/var/lib/smolrunner-build/work/.cargo/{name}"),
            present(44),
        );
        let receipt = observe_with(&context(), &filesystem);
        assert_eq!(
            receipt.lineage_config,
            LocalInstallCargoConfigDisposition::Present
        );
        assert!(
            receipt
                .blocking_codes
                .contains(&LocalInstallCargoConfigBlockingCode::LineageConfigPresent)
        );
    }

    let filesystem = FakeFilesystem::new().file("/.cargo/config.toml", present(45));
    let receipt = observe_with(&context(), &filesystem);
    assert_eq!(
        receipt.lineage_config,
        LocalInstallCargoConfigDisposition::Present
    );
}

#[test]
fn unsafe_lookup_objects_win_over_present_evidence() {
    let filesystem = FakeFilesystem::new()
        .directory(
            "/var/lib/smolrunner-build/.cargo",
            DirectoryObservation::Unsafe,
        )
        .file("/var/.cargo/config", present(50));
    let receipt = observe_with(&context(), &filesystem);
    assert_eq!(
        receipt.lineage_config,
        LocalInstallCargoConfigDisposition::Unsafe
    );
}

#[test]
fn cargo_home_missing_present_and_unsafe_are_distinct() {
    let missing = FakeFilesystem::new().directory(
        "/var/lib/smolrunner-build/cargo-home",
        DirectoryObservation::Missing,
    );
    let missing_receipt = observe_with(&context(), &missing);
    assert_eq!(
        missing_receipt.cargo_home_config,
        LocalInstallCargoHomeConfigDisposition::Missing
    );
    assert_eq!(
        missing_receipt.repair_codes,
        vec![LocalInstallCargoConfigRepairCode::CreateIsolatedCargoHome]
    );

    let present_fs = FakeFilesystem::new().file(
        "/var/lib/smolrunner-build/cargo-home/config.toml",
        present(60),
    );
    assert_eq!(
        observe_with(&context(), &present_fs).cargo_home_config,
        LocalInstallCargoHomeConfigDisposition::Present
    );

    let unsafe_fs = FakeFilesystem::new().directory(
        "/var/lib/smolrunner-build/cargo-home",
        DirectoryObservation::Unsafe,
    );
    assert_eq!(
        observe_with(&context(), &unsafe_fs).cargo_home_config,
        LocalInstallCargoHomeConfigDisposition::Unsafe
    );
}

#[test]
fn unsafe_existing_layout_child_blocks_build_root_readiness() {
    for child in ["work", "home", "target"] {
        let filesystem = FakeFilesystem::new().directory(
            &format!("/var/lib/smolrunner-build/{child}"),
            DirectoryObservation::Unsafe,
        );
        let receipt = observe_with(&context(), &filesystem);
        assert_eq!(receipt.build_root, LocalInstallBuildRootDisposition::Unsafe);
        assert!(!receipt.ready);
    }
}

#[test]
fn unrelated_source_and_personal_cargo_paths_are_never_queried() {
    let filesystem = FakeFilesystem::new()
        .file("/secret-source/.cargo/config.toml", present(70))
        .file("/home/operator/.cargo/config", present(71));
    let receipt = observe_with(&context(), &filesystem);
    assert!(receipt.ready);
    let queries = filesystem.queries.borrow();
    assert!(queries.iter().all(|path| !path.starts_with("/secret-source")));
    assert!(queries.iter().all(|path| !path.starts_with("/home/operator")));
}

#[test]
fn changed_private_snapshot_fails_closed_without_private_evidence() {
    let filesystem = FakeFilesystem::new().mutate_after_queries(30);
    let receipt = observe_with(&context(), &filesystem);
    assert!(!receipt.ready);
    assert_eq!(
        receipt.blocking_codes,
        vec![LocalInstallCargoConfigBlockingCode::ObservationChanged]
    );
    assert_eq!(receipt.build_root, LocalInstallBuildRootDisposition::Unknown);
}

#[test]
fn context_rejects_root_relative_and_root_identity() {
    assert_eq!(
        LocalInstallCargoConfigPreflightContext::new("/", 501, 20).err()
            .expect("refused context"),
        LocalInstallCargoConfigPreflightError::InvalidBuildRoot
    );
    assert_eq!(
        LocalInstallCargoConfigPreflightContext::new("relative", 501, 20).err()
            .expect("refused context"),
        LocalInstallCargoConfigPreflightError::InvalidBuildRoot
    );
    assert_eq!(
        LocalInstallCargoConfigPreflightContext::new("/var/lib/build", 0, 20).err()
            .expect("refused context"),
        LocalInstallCargoConfigPreflightError::InvalidRunnerIdentity
    );
}

fn stat(mode: u32) -> FileStat {
    FileStat {
        device: 1,
        inode: 2,
        owner: 501,
        group: 20,
        mode,
        links: 1,
        size: 0,
        modified_seconds: 0,
        modified_nanoseconds: 0,
        changed_seconds: 0,
        changed_nanoseconds: 0,
    }
}

#[test]
fn directories_are_judged_by_type_owner_and_mode() {
    let exact = DirectoryExpectation::ExactPrivateRunner;
    let trusted = DirectoryExpectation::TrustedAncestor;
    assert_eq!(
        inspect_open_directory(Some(stat(0o040700)), exact, &context()),
        DirectoryObservation::Ready(ObjectIdentity {
            device: 1,
            inode: 2,
            uid: 501,
            gid: 20,
            mode: 0o700,
            links: 1,
        })
    );
    assert_eq!(
        inspect_open_directory(Some(stat(0o040755)), exact, &context()),
        DirectoryObservation::Unsafe
    );
    assert_eq!(
        inspect_open_directory(Some(stat(0o100700)), trusted, &context()),
        DirectoryObservation::Unsafe
    );
    assert_eq!(
        inspect_open_directory(None, trusted, &context()),
        DirectoryObservation::Unknown
    );
    assert!(matches!(
        inspect_directory_step(OpenedEntry::Opened(Some(stat(0o040755))), false, exact, &context()),
        DirectoryObservation::Ready(_)
    ));
    assert_eq!(
        inspect_directory_step(
            OpenedEntry::Refused(OpenRefusal::Missing),
            true,
            exact,
            &context()
        ),
        DirectoryObservation::Missing
    );
}

#[test]
fn configuration_files_are_judged_by_type_links_and_mode() {
    assert!(matches!(
        inspect_config_file(OpenedEntry::Opened(Some(stat(0o100644))), &context()),
        ConfigObservation::Present(_)
    ));
    let mut linked = stat(0o100644);
    linked.links = 2;
    for refused in [linked, stat(0o100666), stat(0o040755)] {
        assert_eq!(
            inspect_config_file(OpenedEntry::Opened(Some(refused)), &context()),
            ConfigObservation::Unsafe
        );
    }
    assert_eq!(
        inspect_config_file(OpenedEntry::Refused(OpenRefusal::IsADirectory), &context()),
        ConfigObservation::Unsafe
    );
    assert_eq!(
        inspect_config_parent(OpenedEntry::Refused(OpenRefusal::SymbolicLink), &context()),
        Some(ConfigObservation::Unsafe)
    );
    assert_eq!(
        inspect_config_parent(OpenedEntry::Opened(Some(stat(0o040755))), &context()),
        None
    );
}

#[test]
fn build_roots_are_plain_absolute_paths() {
    for refused in [
        "/var/lib/../build",
        "/var/lib/./build",
        "/var//lib",
        "/var/lib/",
        "/var/lib\n/build",
    ] {
        assert_eq!(
            LocalInstallCargoConfigPreflightContext::new(refused, 501, 20)
                .err()
                .expect("refused path"),
            LocalInstallCargoConfigPreflightError::InvalidBuildRoot,
            "{refused:?}"
        );
    }
    assert!(!context().redacted().contains("/var/lib"));
}

/// A filesystem whose answers depend on the reading alone.
struct TurningFilesystem {
    second: ConfigObservation,
    turns: RefCell<Vec<ReadingTurn>>,
}

impl CargoConfigFilesystem for TurningFilesystem {
    fn directory(
        &self,
        turn: ReadingTurn,
        path: &str,
        _expectation: DirectoryExpectation,
        _context: &LocalInstallCargoConfigPreflightContext,
    ) -> DirectoryObservation {
        self.turns.borrow_mut().push(turn);
        ready_directory(path)
    }

    fn config_file(
        &self,
        turn: ReadingTurn,
        _path: &str,
        _context: &LocalInstallCargoConfigPreflightContext,
    ) -> ConfigObservation {
        self.turns.borrow_mut().push(turn);
        match turn {
            ReadingTurn::First => ConfigObservation::Missing,
            ReadingTurn::Second => self.second,
        }
    }
}

#[test]
fn both_readings_are_made_and_compared() {
    let steady = TurningFilesystem {
        second: ConfigObservation::Missing,
        turns: RefCell::new(vec![]),
    };
    assert!(observe_with(&context(), &steady).ready);
    let turns = steady.turns.borrow();
    let half = turns.len() / 2;
    assert!(half > 0);
    assert!(turns[..half].iter().all(|turn| *turn == ReadingTurn::First));
    assert!(turns[half..].iter().all(|turn| *turn == ReadingTurn::Second));

    let changed = TurningFilesystem {
        second: present(7),
        turns: RefCell::new(vec![]),
    };
    let receipt = observe_with(&context(), &changed);
    assert!(!receipt.ready);
    assert_eq!(
        receipt.blocking_codes,
        [LocalInstallCargoConfigBlockingCode::ObservationChanged]
    );
}
