//! Artifact identities, digests and the text helpers beneath them.
use glaeda::artifact::{
    canonical_sha256, ArtifactIdentityError, CommitId, DigestStream, GitTreeId, Sha256Digest,
};
use glaeda::canonical_json::ObjectWriter;
use glaeda::paths;
use glaeda::process::CommandSpec;
use glaeda::scan;
use glaeda::text;

const ABC: &str = "sha256:ba7816bf8f01cfea414140de5dae2223b00361a396177a9cb410ff61f20015ad";

#[test]
fn digests_are_sha256_in_lower_hexadecimal() {
    assert_eq!(
        Sha256Digest::of_bytes(b"").as_str(),
        "sha256:e3b0c44298fc1c149afbf4c8996fb92427ae41e4649b934ca495991b7852b855"
    );
    assert_eq!(Sha256Digest::of_bytes(b"abc").as_str(), ABC);
    let mut stream = DigestStream::new();
    stream.update(b"a");
    stream.update(b"");
    stream.update(b"bc");
    assert!(stream.finish().same_as(&Sha256Digest::parse(ABC).expect("digest")));
}

#[test]
fn identities_are_exactly_lower_hexadecimal() {
    let name = "0123456789abcdef0123456789abcdef01234567";
    assert_eq!(CommitId::parse(name).expect("commit").as_str(), name);
    assert_eq!(GitTreeId::parse(name).expect("tree").as_str(), name);
    assert!(canonical_sha256(ABC));
    for refused in ["", "0123", "0123456789ABCDEF0123456789abcdef01234567"] {
        assert_eq!(
            CommitId::parse(refused).err(),
            Some(ArtifactIdentityError::InvalidCommit)
        );
        assert_eq!(
            GitTreeId::parse(refused).err(),
            Some(ArtifactIdentityError::InvalidTree)
        );
        assert_eq!(
            Sha256Digest::parse(refused).err(),
            Some(ArtifactIdentityError::InvalidDigest)
        );
    }
    assert!(!canonical_sha256(
        "ba7816bf8f01cfea414140de5dae2223b00361a396177a9cb410ff61f20015ad"
    ));
}

#[test]
fn json_objects_are_compact_and_escaped() {
    let mut writer = ObjectWriter::new();
    writer.string("text", "a\"b\\\n\u{1}é");
    writer.number("number", 18446744073709551615);
    writer.null("nothing");
    assert_eq!(
        writer.finish(),
        "{\"text\":\"a\\\"b\\\\\\n\\u0001é\",\"number\":18446744073709551615,\"nothing\":null}"
    );
    assert_eq!(ObjectWriter::new().finish(), "{}");
}

#[test]
fn numbers_are_read_and_written_in_decimal() {
    assert_eq!(text::decimal_text(0), "0");
    assert_eq!(text::decimal_text(1024), "1024");
    assert_eq!(text::hex_of(&[0, 15, 255]), "000fff");
    assert_eq!(text::digits_value(&text::chars_of("0042")), Some(42));
    assert_eq!(text::digits_value(&text::chars_of("")), None);
    assert_eq!(text::digits_value(&text::chars_of("4 2")), None);
    assert_eq!(
        text::digits_value(&text::chars_of("18446744073709551616")),
        None
    );
    assert_eq!(text::parse_number(&text::chars_of("+7"), 10), Some(7));
    assert_eq!(text::parse_number(&text::chars_of("11"), 10), None);
}

#[test]
fn texts_are_ordered_as_their_bytes_are() {
    assert!(text::is_before("a", "b"));
    assert!(text::is_before("a", "aa"));
    assert!(text::is_before("z", "é"));
    assert!(text::is_before("\u{ffff}", "\u{10000}"));
    assert!(!text::is_before("a", "a"));
}

#[test]
fn texts_are_cut_into_pieces() {
    let chars = text::chars_of(" one\ttwo ");
    let (first, rest) = scan::take_field(&chars).expect("first");
    assert!(scan::is_text(first, "one"));
    let (second, rest) = scan::take_field(rest).expect("second");
    assert!(scan::is_text(second, "two"));
    assert!(scan::take_field(rest).is_none());
    assert_eq!(scan::trim(&chars), text::chars_of("one\ttwo"));
    assert_eq!(scan::split(&text::chars_of("a,,b"), ',').len(), 3);
    assert_eq!(
        scan::lines_of(&text::chars_of("a\n \r\nb\n")),
        vec![text::chars_of("a"), text::chars_of("b")]
    );
    assert!(scan::contains(&text::chars_of("offline"), "line"));
    assert!(!scan::contains(&text::chars_of("offline"), "lines"));
    assert_eq!(scan::find_only(&text::chars_of("a=b"), "="), Some(1));
    assert_eq!(scan::find_only(&text::chars_of("a=b=c"), "="), None);
}

#[test]
fn paths_are_taken_apart_as_text() {
    assert_eq!(paths::parent_of("/srv/build/work"), "/srv/build");
    assert_eq!(paths::child_of("/srv", "build"), "/srv/build");
    assert_eq!(paths::child_of("/", "srv"), "/srv");
    assert_eq!(
        paths::ancestors_of("/srv/build"),
        vec!["/srv/build", "/srv", "/"]
    );
    assert_eq!(paths::normal_components("//srv/./build/"), vec!["srv", "build"]);
    assert!(paths::canonical_absolute(&text::chars_of("/srv/build")));
    assert!(!paths::canonical_absolute(&text::chars_of("/srv/../build")));
    assert!(paths::same_location("/srv//build", "/srv/build/"));
}

#[test]
fn later_variables_replace_earlier_ones() {
    let command = CommandSpec::new("/bin/tool")
        .argument("one")
        .environment("B", "1")
        .environment("A", "2")
        .environment("B", "3");
    assert_eq!(command.displayed_argv(), vec!["/bin/tool", "one"]);
    let variables: Vec<(&str, &str)> = command
        .environment
        .iter()
        .map(|variable| (variable.name.as_str(), variable.value.as_str()))
        .collect();
    assert_eq!(variables, vec![("A", "2"), ("B", "3")]);
}
