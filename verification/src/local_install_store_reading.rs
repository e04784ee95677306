//! Reading the documents of the generation store back from their own bytes.
//!
//! A reader takes the members that it knows by their keys and leaves everything
//! else to whoever compares the bytes with the canonical encoding of what was
//! read. Of a document that the store wrote it finds exactly what was written.
use vstd::prelude::*;

use crate::canonical_json;
use crate::canonical_json::{Json, ObjectReader};
use crate::local_install_generation_store;
use crate::local_install_generation_store::RequestView;
use crate::local_install_plan;
use crate::local_install_plan::{
    GenerationView, IdentityView, LocalInstallIdentityGeneration, SourceView,
};
use crate::local_install_store_documents;
use crate::local_install_store_documents::{
    ArtifactWire, CurrentDocument, CurrentView, GenerationDocument, GenerationWire, IdentityWire,
    OperationView, OperationWire, SourceWire,
};
use crate::outcome;
use crate::text;

verus! {

/// The object that bytes spell as canonical text.
fn read_object(bytes: &[u8]) -> (r: Option<ObjectReader>)
    ensures
        forall|members: Seq<(Seq<char>, Json)>|
            bytes@ == vstd::utf8::encode_utf8(#[trigger] canonical_json::rendered(
                Json::Object(members),
            )) && canonical_json::has_distinct_keys(members) ==> r is Some && r->0.holds_all(
                members,
            ),
{
    proof {
        assert forall|members: Seq<(Seq<char>, Json)>|
            bytes@ == vstd::utf8::encode_utf8(#[trigger] canonical_json::rendered(
                Json::Object(members),
            )) implies vstd::utf8::valid_utf8(bytes@) && vstd::utf8::decode_utf8(bytes@)
            == canonical_json::rendered(Json::Object(members)) by {
            let text = canonical_json::rendered(Json::Object(members));
            vstd::utf8::encode_utf8_valid_utf8(text);
            vstd::utf8::encode_utf8_decode_utf8(text);
        }
    }
    let document = text::utf8_text(bytes)?;
    ObjectReader::read(document.as_str())
}

/// A number that fits in eight bits.
fn read_small(reader: &ObjectReader, key: &str) -> (r: Option<u8>)
    ensures
        forall|value: u8|
            #[trigger] reader.holds(key@, Json::Number(value as nat)) ==> r == Some(value),
{
    let number = reader.number(key)?;
    assert forall|value: u8| #[trigger] reader.holds(key@, Json::Number(value as nat)) implies number
        == value by {
        assert(reader.holds(key@, Json::Number(value as u64 as nat)));
    }
    if number <= u8::MAX as u64 {
        Some(number as u8)
    } else {
        None
    }
}

proof fn lemma_identity_keys(identity: IdentityView)
    ensures
        canonical_json::has_distinct_keys(local_install_plan::identity_json(identity)->Object_0),
{
    reveal_strlit("number");
    reveal_strlit("digest");
    assert("number"@[0] == 'n' && "digest"@[0] == 'd');
}

fn read_identity(reader: &ObjectReader, key: &str) -> (r: Option<IdentityWire>)
    ensures
        forall|identity: IdentityView|
            reader.holds(key@, #[trigger] local_install_plan::identity_json(identity)) ==> r is Some
                && r->0@ == identity,
{
    let inner = reader.object(key);
    proof {
        assert forall|identity: IdentityView|
            reader.holds(
                key@,
                #[trigger] local_install_plan::identity_json(identity),
            ) implies inner is Some && inner->0.holds(
            "number"@,
            Json::Number(identity.number as nat),
        ) && inner->0.holds("digest"@, Json::Text(identity.digest)) by {
            let members = local_install_plan::identity_json(identity)->Object_0;
            lemma_identity_keys(identity);
            assert(reader.holds(key@, Json::Object(members)));
            assert(inner->0.holds(members[0].0, members[0].1));
            assert(inner->0.holds(members[1].0, members[1].1));
        }
    }
    let inner = inner?;
    let number = inner.number("number")?;
    let digest = inner.string("digest")?;
    Some(IdentityWire { number, digest })
}

/// The members hold this optional identity: it stands under its key, or nothing
/// does.
spec fn holds_identity(
    reader: &ObjectReader,
    key: Seq<char>,
    identity: Option<IdentityView>,
) -> bool {
    match identity {
        Some(value) => reader.holds(key, local_install_plan::identity_json(value)),
        None => canonical_json::lookup(reader@, key) is None,
    }
}

fn read_optional_identity(reader: &ObjectReader, key: &str) -> (r: Option<Option<IdentityWire>>)
    ensures
        forall|identity: Option<IdentityView>| #[trigger]
            holds_identity(reader, key@, identity) ==> r is Some && outcome::option_view(r->0)
                == identity,
{
    if !reader.has(key) {
        return Some(None);
    }
    let identity = read_identity(reader, key)?;
    Some(Some(identity))
}

spec fn operation_members(operation: OperationView) -> Seq<(Seq<char>, Json)> {
    seq![
        ("id"@, Json::Text(operation.id)),
        ("request_digest"@, Json::Text(operation.request_digest)),
    ]
}

spec fn holds_operation(reader: &ObjectReader, operation: Option<OperationView>) -> bool {
    match operation {
        Some(value) => reader.holds("last_operation"@, Json::Object(operation_members(value))),
        None => canonical_json::lookup(reader@, "last_operation"@) is None,
    }
}

fn read_last_operation(reader: &ObjectReader) -> (r: Option<Option<OperationWire>>)
    ensures
        forall|operation: Option<OperationView>| #[trigger]
            holds_operation(reader, operation) ==> r is Some && outcome::option_view(r->0)
                == operation,
{
    if !reader.has("last_operation") {
        return Some(None);
    }
    let inner = reader.object("last_operation");
    proof {
        reveal_strlit("id");
        reveal_strlit("request_digest");
        assert("id"@.len() != "request_digest"@.len());
        assert forall|operation: Option<OperationView>| #[trigger]
            holds_operation(reader, operation) implies operation is Some && inner is Some
            && inner->0.holds("id"@, Json::Text(operation->0.id)) && inner->0.holds(
            "request_digest"@,
            Json::Text(operation->0.request_digest),
        ) by {
            let members = operation_members(operation->0);
            assert(canonical_json::has_distinct_keys(members));
            assert(inner->0.holds(members[0].0, members[0].1));
            assert(inner->0.holds(members[1].0, members[1].1));
        }
    }
    let inner = inner?;
    let id = inner.string("id")?;
    let request_digest = inner.string("request_digest")?;
    Some(Some(OperationWire { id, request_digest }))
}

proof fn lemma_current_keys(current: CurrentView)
    ensures
        canonical_json::has_distinct_keys(
            local_install_store_documents::current_json(current)->Object_0,
        ),
        current.accepted is None ==> canonical_json::lacks_key(
            local_install_store_documents::current_json(current)->Object_0,
            "accepted"@,
        ),
        current.retained is None ==> canonical_json::lacks_key(
            local_install_store_documents::current_json(current)->Object_0,
            "retained"@,
        ),
        current.retiring is None ==> canonical_json::lacks_key(
            local_install_store_documents::current_json(current)->Object_0,
            "retiring"@,
        ),
        current.last_operation is None ==> canonical_json::lacks_key(
            local_install_store_documents::current_json(current)->Object_0,
            "last_operation"@,
        ),
{
    reveal_strlit("store_schema_version");
    reveal_strlit("store_generation");
    reveal_strlit("accepted");
    reveal_strlit("retained");
    reveal_strlit("retiring");
    reveal_strlit("last_operation");
    assert("store_schema_version"@.len() == 20 && "store_generation"@.len() == 16);
    assert("accepted"@.len() == 8 && "retained"@.len() == 8 && "retiring"@.len() == 8);
    assert("last_operation"@.len() == 14);
    assert("accepted"@[0] == 'a' && "retained"@[0] == 'r' && "retiring"@[0] == 'r');
    assert("retained"@[4] == 'i' && "retiring"@[4] == 'r');
    let header = local_install_store_documents::store_header(current.store_schema_version);
    let accepted = local_install_generation_store::optional_identity(
        "accepted"@,
        current.accepted,
    );
    let retained = local_install_generation_store::optional_identity(
        "retained"@,
        current.retained,
    );
    let retiring = local_install_generation_store::optional_identity(
        "retiring"@,
        current.retiring,
    );
    let operation = local_install_store_documents::operation_member(current.last_operation);
    canonical_json::lemma_distinct_sum(header, accepted);
    canonical_json::lemma_distinct_sum(header + accepted, retained);
    canonical_json::lemma_distinct_sum(header + accepted + retained, retiring);
    canonical_json::lemma_distinct_sum(header + accepted + retained + retiring, operation);
}

spec fn holds_current(reader: &ObjectReader, current: CurrentView) -> bool {
    &&& reader.holds(
        "store_schema_version"@,
        Json::Number(current.store_schema_version as nat),
    )
    &&& holds_identity(reader, "accepted"@, current.accepted)
    &&& holds_identity(reader, "retained"@, current.retained)
    &&& holds_identity(reader, "retiring"@, current.retiring)
    &&& holds_operation(reader, current.last_operation)
}

proof fn lemma_holds_current(reader: &ObjectReader, current: CurrentView)
    requires
        reader.holds_all(local_install_store_documents::current_json(current)->Object_0),
    ensures
        holds_current(reader, current),
{
    let members = local_install_store_documents::current_json(current)->Object_0;
    let accepted = local_install_generation_store::optional_identity(
        "accepted"@,
        current.accepted,
    );
    let retained = local_install_generation_store::optional_identity(
        "retained"@,
        current.retained,
    );
    let retiring = local_install_generation_store::optional_identity(
        "retiring"@,
        current.retiring,
    );
    let operation = local_install_store_documents::operation_member(current.last_operation);
    lemma_current_keys(current);
    assert(reader.holds(members[0].0, members[0].1));
    if current.accepted is Some {
        assert(members[2] == accepted[0]);
        assert(reader.holds(members[2].0, members[2].1));
    }
    if current.retained is Some {
        let at = 2 + accepted.len();
        assert(members[at as int] == retained[0]);
        assert(reader.holds(members[at as int].0, members[at as int].1));
    }
    if current.retiring is Some {
        let at = 2 + accepted.len() + retained.len();
        assert(members[at as int] == retiring[0]);
        assert(reader.holds(members[at as int].0, members[at as int].1));
    }
    if current.last_operation is Some {
        let at = 2 + accepted.len() + retained.len() + retiring.len();
        assert(members[at as int] == operation[0]);
        assert(reader.holds(members[at as int].0, members[at as int].1));
        assert(operation[0].1 == Json::Object(operation_members(current.last_operation->0)));
    }
}

/// What bytes hold of a current-generation document: of canonical bytes the
/// document that they encode.
pub(crate) fn read_current(bytes: &[u8]) -> (r: Option<CurrentDocument>)
    ensures
        forall|current: CurrentView|
            bytes@ == #[trigger] local_install_store_documents::current_bytes(current) ==> r is Some
                && r->0@ == current,
{
    let reader = read_object(bytes);
    proof {
        assert forall|current: CurrentView|
            bytes@ == #[trigger] local_install_store_documents::current_bytes(
                current,
            ) implies reader is Some && holds_current(&reader->0, current) by {
            let members = local_install_store_documents::current_json(current)->Object_0;
            lemma_current_keys(current);
            assert(local_install_store_documents::current_json(current) == Json::Object(members));
            lemma_holds_current(&reader->0, current);
        }
    }
    let reader = reader?;
    let store_schema_version = read_small(&reader, "store_schema_version")?;
    let accepted = read_optional_identity(&reader, "accepted")?;
    let retained = read_optional_identity(&reader, "retained")?;
    let retiring = read_optional_identity(&reader, "retiring")?;
    let last_operation = read_last_operation(&reader)?;
    Some(
        CurrentDocument { store_schema_version, accepted, retained, retiring, last_operation },
    )
}

fn read_generation_name(word: &str) -> (r: Option<LocalInstallIdentityGeneration>)
    ensures
        forall|generation: LocalInstallIdentityGeneration|
            word@ == #[trigger] generation.name() ==> r == Some(generation),
{
    proof {
        reveal_strlit("smolrunner_v1");
        reveal_strlit("glaeda_v2");
        assert("smolrunner_v1"@.len() != "glaeda_v2"@.len());
    }
    if text::same_text(word, "smolrunner_v1") {
        Some(LocalInstallIdentityGeneration::SmolrunnerV1)
    } else if text::same_text(word, "glaeda_v2") {
        Some(LocalInstallIdentityGeneration::GlaedaV2)
    } else {
        None
    }
}

proof fn lemma_source_keys(source: SourceView)
    ensures
        canonical_json::has_distinct_keys(
            local_install_generation_store::source_json(source)->Object_0,
        ),
{
    reveal_strlit("identity_generation");
    reveal_strlit("commit");
    reveal_strlit("tree");
    reveal_strlit("cargo_lock_digest");
    reveal_strlit("toolchain");
    reveal_strlit("digest");
    assert("identity_generation"@.len() == 19 && "commit"@.len() == 6 && "tree"@.len() == 4);
    assert("cargo_lock_digest"@.len() == 17 && "toolchain"@.len() == 9 && "digest"@.len() == 6);
    assert("commit"@[0] == 'c' && "digest"@[0] == 'd');
}

spec fn holds_source(reader: &ObjectReader, source: SourceView) -> bool {
    &&& reader.holds("identity_generation"@, Json::Text(source.identity_generation.name()))
    &&& reader.holds("commit"@, Json::Text(source.commit))
    &&& reader.holds("tree"@, Json::Text(source.tree))
    &&& reader.holds("cargo_lock_digest"@, Json::Text(source.cargo_lock_digest))
    &&& reader.holds("toolchain"@, Json::Text(source.toolchain))
    &&& reader.holds("digest"@, Json::Text(source.digest))
}

proof fn lemma_holds_source(reader: &ObjectReader, source: SourceView)
    requires
        reader.holds_all(local_install_generation_store::source_json(source)->Object_0),
    ensures
        holds_source(reader, source),
{
    let members = local_install_generation_store::source_json(source)->Object_0;
    assert(reader.holds(members[0].0, members[0].1) && reader.holds(members[1].0, members[1].1));
    assert(reader.holds(members[2].0, members[2].1) && reader.holds(members[3].0, members[3].1));
    assert(reader.holds(members[4].0, members[4].1) && reader.holds(members[5].0, members[5].1));
}

fn read_source(reader: &ObjectReader, key: &str) -> (r: Option<SourceWire>)
    ensures
        forall|source: SourceView|
            reader.holds(key@, #[trigger] local_install_generation_store::source_json(source))
                ==> r is Some && r->0@ == source,
{
    let inner = reader.object(key);
    proof {
        assert forall|source: SourceView|
            reader.holds(
                key@,
                #[trigger] local_install_generation_store::source_json(source),
            ) implies inner is Some && holds_source(&inner->0, source) by {
            let members = local_install_generation_store::source_json(source)->Object_0;
            lemma_source_keys(source);
            assert(reader.holds(key@, Json::Object(members)));
            lemma_holds_source(&inner->0, source);
        }
    }
    let inner = inner?;
    let identity_generation = read_generation_name(inner.string("identity_generation")?.as_str())?;
    let commit = inner.string("commit")?;
    let tree = inner.string("tree")?;
    let cargo_lock_digest = inner.string("cargo_lock_digest")?;
    let toolchain = inner.string("toolchain")?;
    let digest = inner.string("digest")?;
    Some(SourceWire { identity_generation, commit, tree, cargo_lock_digest, toolchain, digest })
}

spec fn generation_tail(generation: GenerationView) -> Seq<(Seq<char>, Json)> {
    seq![
        ("source"@, local_install_generation_store::source_json(generation.source)),
        ("binary_digest"@, Json::Text(generation.binary_digest)),
        ("binary_version"@, Json::Text(generation.binary_version)),
    ]
}

proof fn lemma_generation_keys(generation: GenerationView)
    ensures
        canonical_json::has_distinct_keys(
            local_install_generation_store::generation_json(generation)->Object_0,
        ),
        generation.predecessor is None ==> canonical_json::lacks_key(
            local_install_generation_store::generation_json(generation)->Object_0,
            "predecessor"@,
        ),
{
    reveal_strlit("identity");
    reveal_strlit("predecessor");
    reveal_strlit("source");
    reveal_strlit("binary_digest");
    reveal_strlit("binary_version");
    assert("identity"@.len() == 8 && "predecessor"@.len() == 11 && "source"@.len() == 6);
    assert("binary_digest"@.len() == 13 && "binary_version"@.len() == 14);
    let first = seq![("identity"@, local_install_plan::identity_json(generation.identity))];
    let second = local_install_generation_store::optional_identity(
        "predecessor"@,
        generation.predecessor,
    );
    canonical_json::lemma_distinct_sum(first, second);
    canonical_json::lemma_distinct_sum(first + second, generation_tail(generation));
}

spec fn holds_generation(reader: &ObjectReader, generation: GenerationView) -> bool {
    &&& reader.holds("identity"@, local_install_plan::identity_json(generation.identity))
    &&& holds_identity(reader, "predecessor"@, generation.predecessor)
    &&& reader.holds("source"@, local_install_generation_store::source_json(generation.source))
    &&& reader.holds("binary_digest"@, Json::Text(generation.binary_digest))
    &&& reader.holds("binary_version"@, Json::Text(generation.binary_version))
}

proof fn lemma_holds_generation(reader: &ObjectReader, generation: GenerationView)
    requires
        reader.holds_all(local_install_generation_store::generation_json(generation)->Object_0),
    ensures
        holds_generation(reader, generation),
{
    let members = local_install_generation_store::generation_json(generation)->Object_0;
    let second = local_install_generation_store::optional_identity(
        "predecessor"@,
        generation.predecessor,
    );
    let tail = generation_tail(generation);
    let n = 1 + second.len() as int;
    lemma_generation_keys(generation);
    assert(reader.holds(members[0].0, members[0].1));
    if generation.predecessor is Some {
        assert(members[1] == second[0]);
        assert(reader.holds(members[1].0, members[1].1));
    }
    assert(members[n] == tail[0] && members[n + 1] == tail[1] && members[n + 2] == tail[2]);
    assert(reader.holds(members[n].0, members[n].1));
    assert(reader.holds(members[n + 1].0, members[n + 1].1));
    assert(reader.holds(members[n + 2].0, members[n + 2].1));
}

fn read_generation_wire(reader: &ObjectReader, key: &str) -> (r: Option<GenerationWire>)
    ensures
        forall|generation: GenerationView|
            reader.holds(
                key@,
                #[trigger] local_install_generation_store::generation_json(generation),
            ) ==> r is Some && r->0@ == generation,
{
    let inner = reader.object(key);
    proof {
        assert forall|generation: GenerationView|
            reader.holds(
                key@,
                #[trigger] local_install_generation_store::generation_json(generation),
            ) implies inner is Some && holds_generation(&inner->0, generation) by {
            let members = local_install_generation_store::generation_json(generation)->Object_0;
            lemma_generation_keys(generation);
            assert(reader.holds(key@, Json::Object(members)));
            lemma_holds_generation(&inner->0, generation);
        }
    }
    let inner = inner?;
    let identity = read_identity(&inner, "identity")?;
    let predecessor = read_optional_identity(&inner, "predecessor")?;
    let source = read_source(&inner, "source")?;
    let binary_digest = inner.string("binary_digest")?;
    let binary_version = inner.string("binary_version")?;
    Some(GenerationWire { identity, predecessor, source, binary_digest, binary_version })
}

spec fn holds_artifact(reader: &ObjectReader, bytes: u64) -> bool {
    &&& reader.holds("file_type"@, Json::Text("regular_file"@))
    &&& reader.holds("owner"@, Json::Text("store_owner"@))
    &&& reader.holds("mode"@, Json::Text("0500"@))
    &&& reader.holds("links"@, Json::Number(1u8 as nat))
    &&& reader.holds("bytes"@, Json::Number(bytes as nat))
}

proof fn lemma_artifact_keys(bytes: u64)
    ensures
        canonical_json::has_distinct_keys(
            local_install_store_documents::artifact_json(bytes)->Object_0,
        ),
{
    reveal_strlit("file_type");
    reveal_strlit("owner");
    reveal_strlit("mode");
    reveal_strlit("links");
    reveal_strlit("bytes");
    assert("file_type"@.len() == 9 && "mode"@.len() == 4);
    assert("owner"@.len() == 5 && "links"@.len() == 5 && "bytes"@.len() == 5);
    assert("owner"@[0] == 'o' && "links"@[0] == 'l' && "bytes"@[0] == 'b');
}

proof fn lemma_holds_artifact(reader: &ObjectReader, bytes: u64)
    requires
        reader.holds_all(local_install_store_documents::artifact_json(bytes)->Object_0),
    ensures
        holds_artifact(reader, bytes),
{
    let members = local_install_store_documents::artifact_json(bytes)->Object_0;
    assert(reader.holds(members[0].0, members[0].1) && reader.holds(members[1].0, members[1].1));
    assert(reader.holds(members[2].0, members[2].1) && reader.holds(members[3].0, members[3].1));
    assert(reader.holds(members[4].0, members[4].1));
}

fn read_artifact(reader: &ObjectReader, key: &str) -> (r: Option<ArtifactWire>)
    ensures
        forall|bytes: u64|
            reader.holds(key@, #[trigger] local_install_store_documents::artifact_json(bytes))
                ==> r is Some && r->0@ == local_install_store_documents::store_artifact(bytes),
{
    let inner = reader.object(key);
    proof {
        assert forall|bytes: u64|
            reader.holds(
                key@,
                #[trigger] local_install_store_documents::artifact_json(bytes),
            ) implies inner is Some && holds_artifact(&inner->0, bytes) by {
            let members = local_install_store_documents::artifact_json(bytes)->Object_0;
            lemma_artifact_keys(bytes);
            assert(reader.holds(key@, Json::Object(members)));
            lemma_holds_artifact(&inner->0, bytes);
        }
    }
    let inner = inner?;
    let file_type = inner.string("file_type")?;
    let owner = inner.string("owner")?;
    let mode = inner.string("mode")?;
    let links = read_small(&inner, "links")?;
    let bytes = inner.number("bytes")?;
    Some(ArtifactWire { file_type, owner, mode, links, bytes })
}

spec fn document_tail(request: RequestView, bytes: u64) -> Seq<(Seq<char>, Json)> {
    seq![
        ("operation_id"@, Json::Text(request.operation_id)),
        ("request_digest"@, Json::Text(request.request_digest)),
        ("generation"@, local_install_generation_store::generation_json(request.candidate)),
        ("artifact"@, local_install_store_documents::artifact_json(bytes)),
    ]
}

proof fn lemma_document_keys(request: RequestView, bytes: u64)
    ensures
        canonical_json::has_distinct_keys(
            local_install_store_documents::generation_document_json(request, bytes)->Object_0,
        ),
{
    reveal_strlit("store_schema_version");
    reveal_strlit("store_generation");
    reveal_strlit("operation_id");
    reveal_strlit("request_digest");
    reveal_strlit("generation");
    reveal_strlit("artifact");
    assert("store_schema_version"@.len() == 20 && "store_generation"@.len() == 16);
    assert("operation_id"@.len() == 12 && "request_digest"@.len() == 14);
    assert("generation"@.len() == 10 && "artifact"@.len() == 8);
    canonical_json::lemma_distinct_sum(
        local_install_store_documents::store_header(
            local_install_generation_store::LOCAL_INSTALL_GENERATION_STORE_SCHEMA_VERSION,
        ),
        document_tail(request, bytes),
    );
}

spec fn holds_document(reader: &ObjectReader, request: RequestView, bytes: u64) -> bool {
    &&& reader.holds(
        "store_schema_version"@,
        Json::Number(
            local_install_generation_store::LOCAL_INSTALL_GENERATION_STORE_SCHEMA_VERSION as nat,
        ),
    )
    &&& reader.holds("operation_id"@, Json::Text(request.operation_id))
    &&& reader.holds("request_digest"@, Json::Text(request.request_digest))
    &&& reader.holds(
        "generation"@,
        local_install_generation_store::generation_json(request.candidate),
    )
    &&& reader.holds("artifact"@, local_install_store_documents::artifact_json(bytes))
}

proof fn lemma_holds_document(reader: &ObjectReader, request: RequestView, bytes: u64)
    requires
        reader.holds_all(
            local_install_store_documents::generation_document_json(request, bytes)->Object_0,
        ),
    ensures
        holds_document(reader, request, bytes),
{
    let members = local_install_store_documents::generation_document_json(
        request,
        bytes,
    )->Object_0;
    let tail = document_tail(request, bytes);
    assert(members[2] == tail[0] && members[3] == tail[1]);
    assert(members[4] == tail[2] && members[5] == tail[3]);
    assert(reader.holds(members[0].0, members[0].1));
    assert(reader.holds(members[2].0, members[2].1) && reader.holds(members[3].0, members[3].1));
    assert(reader.holds(members[4].0, members[4].1) && reader.holds(members[5].0, members[5].1));
}

/// What bytes hold of a generation document: of the canonical bytes of a request
/// the document of that request.
pub(crate) fn read_generation(bytes: &[u8]) -> (r: Option<GenerationDocument>)
    ensures
        forall|request: RequestView, size: u64|
            bytes@ == #[trigger] local_install_store_documents::generation_document_bytes(
                request,
                size,
            ) ==> r is Some && r->0@ == local_install_store_documents::document_of(request, size),
{
    let reader = read_object(bytes);
    proof {
        assert forall|request: RequestView, size: u64|
            bytes@ == #[trigger] local_install_store_documents::generation_document_bytes(
                request,
                size,
            ) implies reader is Some && holds_document(&reader->0, request, size) by {
            let members = local_install_store_documents::generation_document_json(
                request,
                size,
            )->Object_0;
            lemma_document_keys(request, size);
            assert(local_install_store_documents::generation_document_json(request, size)
                == Json::Object(members));
            lemma_holds_document(&reader->0, request, size);
        }
    }
    let reader = reader?;
    let store_schema_version = read_small(&reader, "store_schema_version")?;
    let operation_id = reader.string("operation_id")?;
    let request_digest = reader.string("request_digest")?;
    let generation = read_generation_wire(&reader, "generation")?;
    let artifact = read_artifact(&reader, "artifact")?;
    Some(
        GenerationDocument {
            store_schema_version,
            operation_id,
            request_digest,
            generation,
            artifact,
        },
    )
}

} // verus!
