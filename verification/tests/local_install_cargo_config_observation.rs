//! Observation of the Cargo configuration around a source root.
use glaeda::local_install_cargo_config_observation::{
    cargo_config_locations, observe_config_pair, observe_dot_cargo, observe_local_install_cargo_config,
    AncestorCargoConfigDisposition, CargoConfigReadings, CargoHomeConfigDisposition,
    ConfigDirectoryReading, EntryReading, LocalInstallCargoConfigObservation,
    LocalInstallCargoConfigObservationErrorKind, PairObservation, SourceCargoConfigDisposition,
};

const SOURCE: &str = "/srv/root/sandbox/source";
const CARGO_HOME: &str = "/srv/root/isolated/cargo-home";

fn absent() -> ConfigDirectoryReading {
    ConfigDirectoryReading {
        directory: EntryReading::Missing,
        modern: EntryReading::Missing,
        legacy: EntryReading::Missing,
    }
}

fn directory(modern: EntryReading, legacy: EntryReading) -> ConfigDirectoryReading {
    ConfigDirectoryReading {
        directory: EntryReading::Directory,
        modern,
        legacy,
    }
}

fn readings() -> CargoConfigReadings {
    CargoConfigReadings {
        source_root: EntryReading::Directory,
        canonical_source_root: Some(SOURCE.to_owned()),
        source: absent(),
        ancestors: vec![absent(), absent(), absent(), absent()],
        cargo_home_components: vec![
            EntryReading::Directory,
            EntryReading::Directory,
            EntryReading::Missing,
        ],
        cargo_home: absent(),
    }
}

fn ready_home(modern: EntryReading, legacy: EntryReading) -> CargoConfigReadings {
    let mut read = readings();
    read.cargo_home_components = vec![EntryReading::Directory; 4];
    read.cargo_home = directory(modern, legacy);
    read
}

fn observe(read: &CargoConfigReadings) -> LocalInstallCargoConfigObservation {
    observe_local_install_cargo_config(SOURCE, CARGO_HOME, read).expect("observation")
}

#[test]
fn absent_config_and_missing_isolated_home_are_ready() {
    let receipt = observe(&readings());
    assert_eq!(receipt.source_config, SourceCargoConfigDisposition::Absent);
    assert_eq!(
        receipt.ancestor_config,
        AncestorCargoConfigDisposition::Absent
    );
    assert_eq!(
        receipt.cargo_home_config,
        CargoHomeConfigDisposition::Missing
    );
    assert!(receipt.ready);
    assert!(receipt.blocking_codes.is_empty());
    assert_eq!(receipt.repair_codes, ["create_isolated_cargo_home"]);
}

#[test]
fn one_source_bound_config_is_allowed_but_both_are_blocked() {
    let mut read = readings();
    read.source = directory(EntryReading::RegularFile, EntryReading::Missing);
    let modern = observe(&read);
    assert_eq!(modern.source_config, SourceCargoConfigDisposition::Toml);
    assert!(modern.ready);

    read.source = directory(EntryReading::Missing, EntryReading::RegularFile);
    let legacy = observe(&read);
    assert_eq!(legacy.source_config, SourceCargoConfigDisposition::Legacy);
    assert!(legacy.ready);

    read.source = directory(EntryReading::RegularFile, EntryReading::RegularFile);
    let both = observe(&read);
    assert_eq!(both.source_config, SourceCargoConfigDisposition::Both);
    assert!(!both.ready);
    assert_eq!(both.blocking_codes, ["source_cargo_config_conflict"]);
}

#[test]
fn source_cargo_aliases_are_unsafe() {
    let mut read = readings();
    read.source = ConfigDirectoryReading {
        directory: EntryReading::Other,
        ..absent()
    };
    let receipt = observe(&read);
    assert_eq!(receipt.source_config, SourceCargoConfigDisposition::Unsafe);
    assert!(!receipt.ready);

    read.source = directory(EntryReading::Other, EntryReading::Missing);
    let receipt = observe(&read);
    assert_eq!(receipt.source_config, SourceCargoConfigDisposition::Unsafe);
}

#[test]
fn ancestor_config_or_unsafe_dot_cargo_blocks() {
    let mut read = readings();
    read.ancestors[0] = directory(EntryReading::RegularFile, EntryReading::Missing);
    let present = observe(&read);
    assert_eq!(
        present.ancestor_config,
        AncestorCargoConfigDisposition::Present
    );
    assert!(!present.ready);
    assert!(present
        .blocking_codes
        .contains(&"ancestor_cargo_config_present"));

    read.ancestors[0] = ConfigDirectoryReading {
        directory: EntryReading::Other,
        ..absent()
    };
    let unsafe_receipt = observe(&read);
    assert_eq!(
        unsafe_receipt.ancestor_config,
        AncestorCargoConfigDisposition::Unsafe
    );
    assert!(!unsafe_receipt.ready);
}

#[test]
fn isolated_cargo_home_config_and_aliases_block() {
    let empty = observe(&ready_home(EntryReading::Missing, EntryReading::Missing));
    assert_eq!(empty.cargo_home_config, CargoHomeConfigDisposition::Absent);
    assert!(empty.ready);

    let present = observe(&ready_home(
        EntryReading::Missing,
        EntryReading::RegularFile,
    ));
    assert_eq!(
        present.cargo_home_config,
        CargoHomeConfigDisposition::Present
    );
    assert!(!present.ready);

    let mut aliased = readings();
    aliased.cargo_home_components = vec![
        EntryReading::Directory,
        EntryReading::Directory,
        EntryReading::Directory,
        EntryReading::Other,
    ];
    let unsafe_receipt = observe(&aliased);
    assert_eq!(
        unsafe_receipt.cargo_home_config,
        CargoHomeConfigDisposition::Unsafe
    );
    assert!(!unsafe_receipt.ready);
}

#[test]
fn unsafe_source_inputs_are_rejected_without_paths_in_errors() {
    let mut aliased = readings();
    aliased.source_root = EntryReading::Other;
    let mut elsewhere = readings();
    elsewhere.canonical_source_root = Some("/srv/other".to_owned());
    for (source, read) in [
        ("relative/source", readings()),
        (SOURCE, aliased),
        (SOURCE, elsewhere),
    ] {
        let error = observe_local_install_cargo_config(source, CARGO_HOME, &read)
            .expect_err("unsafe source");
        assert_eq!(
            error.kind,
            LocalInstallCargoConfigObservationErrorKind::UnsafeSourceRoot
        );
        assert!(!error.problem.contains("/srv"));
    }
    let error = observe_local_install_cargo_config(SOURCE, "relative", &readings())
        .expect_err("unsafe Cargo home");
    assert_eq!(
        error.kind,
        LocalInstallCargoConfigObservationErrorKind::UnsafeCargoHomePath
    );
}

#[test]
fn public_receipt_is_path_private_and_deterministic() {
    let first = observe(&readings());
    let second = observe(&readings());
    assert_eq!(first, second);
    let json = format!("{first:?}");
    assert!(!json.contains("/srv"));
    assert!(!json.contains("sandbox/source"));
    assert!(!json.contains("isolated/cargo-home"));
}

#[test]
fn unknown_evidence_is_kept_apart() {
    assert_eq!(
        observe_config_pair(EntryReading::Unreadable, EntryReading::RegularFile),
        PairObservation::Unknown
    );
    assert_eq!(
        observe_config_pair(EntryReading::Unreadable, EntryReading::Other),
        PairObservation::Unsafe
    );
    assert_eq!(
        observe_dot_cargo(ConfigDirectoryReading {
            directory: EntryReading::Unreadable,
            ..absent()
        }),
        PairObservation::Unknown
    );
}

#[test]
fn every_directory_above_the_source_is_looked_at() {
    let locations = cargo_config_locations(SOURCE, CARGO_HOME);
    assert_eq!(locations.source, "/srv/root/sandbox/source/.cargo");
    assert_eq!(
        locations.ancestors,
        [
            "/srv/root/sandbox/.cargo",
            "/srv/root/.cargo",
            "/srv/.cargo",
            "/.cargo",
        ]
    );
    assert_eq!(
        locations.cargo_home_components,
        ["/srv", "/srv/root", "/srv/root/isolated", CARGO_HOME]
    );
    let doubled = cargo_config_locations("//srv/./source/", "/home");
    assert_eq!(doubled.source, "/srv/source/.cargo");
    assert_eq!(doubled.ancestors, ["/srv/.cargo", "/.cargo"]);
    assert_eq!(doubled.cargo_home_components, ["/home"]);
}

#[test]
fn directories_that_were_not_read_leave_the_observation_unknown() {
    let mut unread = readings();
    unread.ancestors.pop();
    let receipt = observe(&unread);
    assert_eq!(
        receipt.ancestor_config,
        AncestorCargoConfigDisposition::Unknown
    );
    assert_eq!(receipt.blocking_codes, ["ancestor_cargo_config_unknown"]);

    let mut short = ready_home(EntryReading::Missing, EntryReading::Missing);
    short.cargo_home_components.pop();
    let receipt = observe(&short);
    assert_eq!(
        receipt.cargo_home_config,
        CargoHomeConfigDisposition::Unknown
    );
    assert!(!receipt.ready);
}
