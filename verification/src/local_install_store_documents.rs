//! The documents that the generation store keeps on disk.
//!
//! A document is accepted only in its canonical encoding: whatever a JSON
//! reader made of the bytes, re-encoding it has to give the same bytes back.
use vstd::prelude::*;

use crate::artifact;
use crate::artifact::{CommitId, GitTreeId, Sha256Digest};
use crate::canonical_json;
use crate::canonical_json::{Json, ObjectWriter};
use crate::local_install_generation_store;
use crate::local_install_generation_store::{
    generation_text, store_error, subject_error, StoreErrorView,
    LocalInstallGenerationPublishRequest, LocalInstallGenerationStoreError,
    LocalInstallGenerationStoreErrorKind, LocalInstallStoreLocationClass,
    LocalInstallStoreOperationId, RequestView, LOCAL_INSTALL_GENERATION_STORE_SCHEMA_VERSION,
    MAX_LOCAL_INSTALL_BINARY_BYTES, MAX_LOCAL_INSTALL_CURRENT_DOCUMENT_BYTES,
    MAX_LOCAL_INSTALL_GENERATION_DOCUMENT_BYTES, MAX_LOCAL_INSTALL_STORE_IDENTITY_BYTES,
};
use crate::local_install_plan;
use crate::local_install_plan::{
    copied_identity, GenerationView, IdentityView, InstalledLocalBinaryGeneration,
    LocalInstallGenerationIdentity, LocalInstallIdentityGeneration, LocalInstallSourceIdentity,
    LocalInstallToolchainIdentity, SourceView,
};
use crate::local_install_store_reading::{read_current, read_generation};
use crate::outcome;
use crate::text;

verus! {

/// A generation identity as a document spells it.
#[derive(Debug, PartialEq, Eq)]
pub struct IdentityWire {
    pub number: u64,
    pub digest: String,
}

impl View for IdentityWire {
    type V = IdentityView;

    open spec fn view(&self) -> IdentityView {
        IdentityView { number: self.number, digest: self.digest@ }
    }
}

impl Clone for IdentityWire {
    fn clone(&self) -> (copy: Self)
        ensures
            copy@ == self@,
    {
        IdentityWire { number: self.number, digest: self.digest.clone() }
    }
}

/// The spelling of an optional identity.
pub fn identity_wire(identity: &Option<LocalInstallGenerationIdentity>) -> (wire: Option<
    IdentityWire,
>)
    ensures
        outcome::option_view(wire) == outcome::option_view(*identity),
{
    match identity {
        Some(value) => Some(
            IdentityWire { number: value.number, digest: value.digest.as_str().to_owned() },
        ),
        None => None,
    }
}

/// An operation as a document spells it.
#[derive(Debug, PartialEq, Eq)]
pub struct OperationWire {
    pub id: String,
    pub request_digest: String,
}

pub struct OperationView {
    pub id: Seq<char>,
    pub request_digest: Seq<char>,
}

impl View for OperationWire {
    type V = OperationView;

    open spec fn view(&self) -> OperationView {
        OperationView { id: self.id@, request_digest: self.request_digest@ }
    }
}

impl Clone for OperationWire {
    fn clone(&self) -> (copy: Self)
        ensures
            copy@ == self@,
    {
        OperationWire { id: self.id.clone(), request_digest: self.request_digest.clone() }
    }
}

/// The document that names the accepted generation.
#[derive(Debug, PartialEq, Eq)]
pub struct CurrentDocument {
    pub store_schema_version: u8,
    pub accepted: Option<IdentityWire>,
    pub retained: Option<IdentityWire>,
    pub retiring: Option<IdentityWire>,
    pub last_operation: Option<OperationWire>,
}

pub struct CurrentView {
    pub store_schema_version: u8,
    pub accepted: Option<IdentityView>,
    pub retained: Option<IdentityView>,
    pub retiring: Option<IdentityView>,
    pub last_operation: Option<OperationView>,
}

impl View for CurrentDocument {
    type V = CurrentView;

    open spec fn view(&self) -> CurrentView {
        CurrentView {
            store_schema_version: self.store_schema_version,
            accepted: outcome::option_view(self.accepted),
            retained: outcome::option_view(self.retained),
            retiring: outcome::option_view(self.retiring),
            last_operation: outcome::option_view(self.last_operation),
        }
    }
}

fn copied_wire(wire: &Option<IdentityWire>) -> (copy: Option<IdentityWire>)
    ensures
        outcome::option_view(copy) == outcome::option_view(*wire),
{
    match wire {
        Some(value) => Some(value.clone()),
        None => None,
    }
}

impl Clone for CurrentDocument {
    fn clone(&self) -> (copy: Self)
        ensures
            copy@ == self@,
    {
        CurrentDocument {
            store_schema_version: self.store_schema_version,
            accepted: copied_wire(&self.accepted),
            retained: copied_wire(&self.retained),
            retiring: copied_wire(&self.retiring),
            last_operation: match &self.last_operation {
                Some(value) => Some(value.clone()),
                None => None,
            },
        }
    }
}

pub open spec fn operation_member(operation: Option<OperationView>) -> Seq<(Seq<char>, Json)> {
    match operation {
        Some(value) => seq![
            (
                "last_operation"@,
                Json::Object(
                    seq![
                        ("id"@, Json::Text(value.id)),
                        ("request_digest"@, Json::Text(value.request_digest)),
                    ],
                ),
            ),
        ],
        None => Seq::empty(),
    }
}

pub open spec fn store_header(schema_version: u8) -> Seq<(Seq<char>, Json)> {
    seq![
        ("store_schema_version"@, Json::Number(schema_version as nat)),
        ("store_generation"@, Json::Text("glaeda_current_v1"@)),
    ]
}

pub open spec fn current_json(current: CurrentView) -> Json {
    Json::Object(
        store_header(current.store_schema_version)
            + local_install_generation_store::optional_identity("accepted"@, current.accepted)
            + local_install_generation_store::optional_identity("retained"@, current.retained)
            + local_install_generation_store::optional_identity("retiring"@, current.retiring)
            + operation_member(current.last_operation),
    )
}

pub open spec fn current_bytes(current: CurrentView) -> Seq<u8> {
    vstd::utf8::encode_utf8(canonical_json::rendered(current_json(current)))
}

/// What [`encode_current`] answers.
pub open spec fn encoded_current(current: CurrentView) -> Result<Seq<u8>, StoreErrorView> {
    if current_bytes(current).len() > MAX_LOCAL_INSTALL_CURRENT_DOCUMENT_BYTES {
        Err(
            local_install_generation_store::corrupt(
                "the current-generation document exceeds its byte limit"@,
            ),
        )
    } else {
        Ok(current_bytes(current))
    }
}

proof fn lemma_digest_length(digest: Seq<char>)
    requires
        artifact::is_sha256(digest),
    ensures
        canonical_json::json_text(digest).len() == 73,
{
    reveal_strlit("sha256:");
    assert forall|i: int| 0 <= i < digest.len() implies canonical_json::is_plain_char(
        #[trigger] digest[i],
    ) by {
        if i < 7 {
            assert(digest.take(7)[i] == digest[i]);
        } else {
            assert(digest.skip(7)[i - 7] == digest[i]);
        }
    }
    canonical_json::lemma_plain_length(digest);
}

proof fn lemma_identity_length(identity: IdentityView)
    requires
        artifact::is_sha256(identity.digest),
    ensures
        canonical_json::rendered(local_install_plan::identity_json(identity)).len() <= 115,
{
    let number = Json::Number(identity.number as nat);
    let digest = Json::Text(identity.digest);
    let none = Seq::<(Seq<char>, Json)>::empty();
    reveal_strlit("number");
    reveal_strlit("digest");
    canonical_json::lemma_plain_length("number"@);
    canonical_json::lemma_plain_length("digest"@);
    text::lemma_decimal_length(identity.number as nat);
    lemma_digest_length(identity.digest);
    canonical_json::lemma_members_length_push(none, "number"@, number);
    canonical_json::lemma_members_length_push(none.push(("number"@, number)), "digest"@, digest);
    let members = none.push(("number"@, number)).push(("digest"@, digest));
    assert(seq![("number"@, number), ("digest"@, digest)] =~= members);
    canonical_json::lemma_object_length(members);
}

proof fn lemma_identity_member_length(
    members: Seq<(Seq<char>, Json)>,
    key: Seq<char>,
    identity: Option<IdentityView>,
)
    requires
        canonical_json::is_plain(key),
        key.len() <= 11,
        identity matches Some(value) ==> artifact::is_sha256(value.digest),
    ensures
        canonical_json::members_length(
            members + local_install_generation_store::optional_identity(key, identity),
        ) <= canonical_json::members_length(members) + 130,
{
    let all = members + local_install_generation_store::optional_identity(key, identity);
    match identity {
        Some(value) => {
            let json = local_install_plan::identity_json(value);
            canonical_json::lemma_plain_length(key);
            lemma_identity_length(value);
            assert(all =~= members.push((key, json)));
            canonical_json::lemma_members_length_push(members, key, json);
        },
        None => {
            assert(all =~= members);
        },
    }
}

proof fn lemma_header_length(schema_version: u8)
    ensures
        canonical_json::members_length(store_header(schema_version)) <= 100,
{
    let version = Json::Number(schema_version as nat);
    let generation = Json::Text("glaeda_current_v1"@);
    let none = Seq::<(Seq<char>, Json)>::empty();
    reveal_strlit("store_schema_version");
    reveal_strlit("store_generation");
    reveal_strlit("glaeda_current_v1");
    canonical_json::lemma_plain_length("store_schema_version"@);
    canonical_json::lemma_plain_length("store_generation"@);
    canonical_json::lemma_plain_length("glaeda_current_v1"@);
    text::lemma_decimal_length(schema_version as nat);
    let first = none.push(("store_schema_version"@, version));
    canonical_json::lemma_members_length_push(none, "store_schema_version"@, version);
    canonical_json::lemma_members_length_push(first, "store_generation"@, generation);
    assert(store_header(schema_version) =~= first.push(("store_generation"@, generation)));
}

proof fn lemma_operation_member_length(
    members: Seq<(Seq<char>, Json)>,
    operation: Option<OperationView>,
)
    requires
        operation matches Some(value) ==> artifact::is_sha256(value.id) && artifact::is_sha256(
            value.request_digest,
        ),
    ensures
        canonical_json::members_length(members + operation_member(operation))
            <= canonical_json::members_length(members) + 220,
{
    let all = members + operation_member(operation);
    match operation {
        Some(value) => {
            let id = Json::Text(value.id);
            let digest = Json::Text(value.request_digest);
            let none = Seq::<(Seq<char>, Json)>::empty();
            reveal_strlit("id");
            reveal_strlit("request_digest");
            reveal_strlit("last_operation");
            canonical_json::lemma_plain_length("id"@);
            canonical_json::lemma_plain_length("request_digest"@);
            canonical_json::lemma_plain_length("last_operation"@);
            lemma_digest_length(value.id);
            lemma_digest_length(value.request_digest);
            let first = none.push(("id"@, id));
            let inner = first.push(("request_digest"@, digest));
            canonical_json::lemma_members_length_push(none, "id"@, id);
            canonical_json::lemma_members_length_push(first, "request_digest"@, digest);
            canonical_json::lemma_object_length(inner);
            assert(seq![("id"@, id), ("request_digest"@, digest)] =~= inner);
            assert(all =~= members.push(("last_operation"@, Json::Object(inner))));
            canonical_json::lemma_members_length_push(
                members,
                "last_operation"@,
                Json::Object(inner),
            );
        },
        None => {
            assert(all =~= members);
        },
    }
}

/// A document whose digests and operation are canonical stays within its byte
/// limit, so it can always be written.
pub proof fn law_current_documents_fit(current: CurrentView)
    requires
        current.accepted matches Some(identity) ==> artifact::is_sha256(identity.digest),
        current.retained matches Some(identity) ==> artifact::is_sha256(identity.digest),
        current.retiring matches Some(identity) ==> artifact::is_sha256(identity.digest),
        current.last_operation matches Some(operation) ==> artifact::is_sha256(operation.id)
            && artifact::is_sha256(operation.request_digest),
    ensures
        encoded_current(current) == Ok::<_, StoreErrorView>(current_bytes(current)),
{
    reveal_strlit("accepted");
    reveal_strlit("retained");
    reveal_strlit("retiring");
    let header = store_header(current.store_schema_version);
    let accepted = header + local_install_generation_store::optional_identity(
        "accepted"@,
        current.accepted,
    );
    let retained = accepted + local_install_generation_store::optional_identity(
        "retained"@,
        current.retained,
    );
    let retiring = retained + local_install_generation_store::optional_identity(
        "retiring"@,
        current.retiring,
    );
    lemma_header_length(current.store_schema_version);
    lemma_identity_member_length(header, "accepted"@, current.accepted);
    lemma_identity_member_length(accepted, "retained"@, current.retained);
    lemma_identity_member_length(retained, "retiring"@, current.retiring);
    lemma_operation_member_length(retiring, current.last_operation);
    canonical_json::lemma_object_length(retiring + operation_member(current.last_operation));
    canonical_json::lemma_byte_length(canonical_json::rendered(current_json(current)));
}

fn wire_text(wire: &IdentityWire) -> (object: String)
    ensures
        object@ == canonical_json::rendered(local_install_plan::identity_json(wire@)),
{
    let mut writer = ObjectWriter::new();
    writer.number("number", wire.number);
    writer.string("digest", wire.digest.as_str());
    assert(writer.members() =~= local_install_plan::identity_json(wire@)->Object_0);
    writer.finish()
}

fn write_wire(writer: &mut ObjectWriter, key: &str, wire: &Option<IdentityWire>)
    requires
        old(writer).wf(),
    ensures
        final(writer).wf(),
        final(writer).members() == old(writer).members()
            + local_install_generation_store::optional_identity(key@, outcome::option_view(*wire)),
{
    let ghost before = writer.members();
    if let Some(value) = wire {
        let object = wire_text(value);
        writer.value(key, object.as_str(), Ghost(local_install_plan::identity_json(value@)));
    }
    assert(writer.members() =~= before + local_install_generation_store::optional_identity(
        key@,
        outcome::option_view(*wire),
    ));
}

/// The canonical bytes of a current-generation document.
pub fn encode_current(document: &CurrentDocument) -> (r: Result<
    Vec<u8>,
    LocalInstallGenerationStoreError,
>)
    ensures
        outcome::is_outcome(r, encoded_current(document@)),
{
    let mut writer = ObjectWriter::new();
    writer.number("store_schema_version", document.store_schema_version as u64);
    writer.string("store_generation", "glaeda_current_v1");
    write_wire(&mut writer, "accepted", &document.accepted);
    write_wire(&mut writer, "retained", &document.retained);
    write_wire(&mut writer, "retiring", &document.retiring);
    if let Some(operation) = &document.last_operation {
        let mut inner = ObjectWriter::new();
        inner.string("id", operation.id.as_str());
        inner.string("request_digest", operation.request_digest.as_str());
        let ghost members = seq![
            ("id"@, Json::Text(operation.id@)),
            ("request_digest"@, Json::Text(operation.request_digest@)),
        ];
        assert(inner.members() =~= members);
        let object = inner.finish();
        writer.value("last_operation", object.as_str(), Ghost(Json::Object(members)));
    }
    assert(writer.members() =~= current_json(document@)->Object_0);
    let encoded = writer.finish();
    let bytes = encoded.as_str().as_bytes();
    if bytes.len() > MAX_LOCAL_INSTALL_CURRENT_DOCUMENT_BYTES {
        return Err(
            store_error(
                LocalInstallGenerationStoreErrorKind::CorruptState,
                "the current-generation document exceeds its byte limit",
            ),
        );
    }
    Ok(vstd::slice::slice_to_vec(bytes))
}

/// The document of which these bytes are the canonical encoding, if they are
/// one. No bytes encode two documents.
pub open spec fn written_current(bytes: Seq<u8>) -> Option<CurrentView> {
    if exists|current: CurrentView| is_written_current(bytes, current) {
        Some(choose|current: CurrentView| is_written_current(bytes, current))
    } else {
        None
    }
}

pub open spec fn is_written_current(bytes: Seq<u8>, current: CurrentView) -> bool {
    &&& current.store_schema_version == LOCAL_INSTALL_GENERATION_STORE_SCHEMA_VERSION
    &&& encoded_current(current) == Ok::<Seq<u8>, StoreErrorView>(bytes)
}

/// What [`decode_current_bytes`] answers: canonical bytes are the document that
/// they encode, and any others are refused for what they were parsed to.
pub open spec fn decoded_current(bytes: Seq<u8>, parsed: Option<CurrentView>) -> Result<
    CurrentView,
    StoreErrorView,
> {
    match written_current(bytes) {
        Some(current) => Ok(current),
        None => Err(current_refusal(parsed)),
    }
}

/// Why bytes that are not canonical are refused.
pub open spec fn current_refusal(parsed: Option<CurrentView>) -> StoreErrorView {
    match parsed {
        None => local_install_generation_store::corrupt(
            "the current-generation document is invalid"@,
        ),
        Some(current) => if current.store_schema_version
            != LOCAL_INSTALL_GENERATION_STORE_SCHEMA_VERSION {
            local_install_generation_store::corrupt(
                "the current-generation document uses an unsupported schema"@,
            )
        } else {
            match encoded_current(current) {
                Err(e) => e,
                Ok(_) => local_install_generation_store::corrupt(
                    "the current-generation document is not canonically encoded"@,
                ),
            }
        },
    }
}

/// Accepts a current-generation document only in its canonical bytes, whose
/// fields are read from them; what a JSON reader made of other bytes tells why
/// they are refused.
pub fn decode_current_bytes(bytes: &[u8], parsed: &Option<CurrentDocument>) -> (r: Result<
    CurrentDocument,
    LocalInstallGenerationStoreError,
>)
    ensures
        outcome::is_outcome(r, decoded_current(bytes@, outcome::option_view(*parsed))),
{
    if let Some(document) = read_current(bytes) {
        if document.store_schema_version == LOCAL_INSTALL_GENERATION_STORE_SCHEMA_VERSION {
            if let Ok(canonical) = encode_current(&document) {
                if text::same_bytes(canonical.as_slice(), bytes) {
                    proof {
                        lemma_written_current(bytes@, document@);
                    }
                    return Ok(document);
                }
            }
        }
    }
    assert(written_current(bytes@) is None);
    let document = match parsed {
        Some(document) => document,
        None => {
            return Err(
                store_error(
                    LocalInstallGenerationStoreErrorKind::CorruptState,
                    "the current-generation document is invalid",
                ),
            );
        },
    };
    if document.store_schema_version != LOCAL_INSTALL_GENERATION_STORE_SCHEMA_VERSION {
        return Err(
            store_error(
                LocalInstallGenerationStoreErrorKind::CorruptState,
                "the current-generation document uses an unsupported schema",
            ),
        );
    }
    let _ = encode_current(document)?;
    Err(
        store_error(
            LocalInstallGenerationStoreErrorKind::CorruptState,
            "the current-generation document is not canonically encoded",
        ),
    )
}

pub open spec fn invalid_stored_identity_view() -> StoreErrorView {
    local_install_generation_store::corrupt("the stored local-install identity is invalid"@)
}

fn invalid_stored_identity() -> (e: LocalInstallGenerationStoreError)
    ensures
        e@ == invalid_stored_identity_view(),
{
    store_error(
        LocalInstallGenerationStoreErrorKind::CorruptState,
        "the stored local-install identity is invalid",
    )
}

pub open spec fn stored_digest(value: Seq<char>, subject: Seq<char>) -> Result<
    Seq<char>,
    StoreErrorView,
> {
    if artifact::is_sha256(value) {
        Ok(value)
    } else {
        Err(local_install_generation_store::corrupt(subject + " is invalid"@))
    }
}

fn parse_sha256(value: &str, subject: &str) -> (r: Result<
    Sha256Digest,
    LocalInstallGenerationStoreError,
>)
    ensures
        outcome::is_outcome(r, stored_digest(value@, subject@)),
{
    match Sha256Digest::parse(value) {
        Ok(digest) => Ok(digest),
        Err(_) => Err(
            subject_error(
                LocalInstallGenerationStoreErrorKind::CorruptState,
                subject,
                " is invalid",
            ),
        ),
    }
}

/// What [`parse_identity`] answers.
pub open spec fn stored_identity(wire: IdentityView) -> Result<IdentityView, StoreErrorView> {
    if wire.number == 0 {
        Err(invalid_stored_identity_view())
    } else {
        match stored_digest(wire.digest, "stored generation digest"@) {
            Ok(_) => Ok(wire),
            Err(e) => Err(e),
        }
    }
}

/// A stored identity, checked.
pub fn parse_identity(wire: &IdentityWire) -> (r: Result<
    LocalInstallGenerationIdentity,
    LocalInstallGenerationStoreError,
>)
    ensures
        outcome::is_outcome(r, stored_identity(wire@)),
{
    if wire.number == 0 {
        return Err(invalid_stored_identity());
    }
    let digest = parse_sha256(wire.digest.as_str(), "stored generation digest")?;
    Ok(LocalInstallGenerationIdentity { number: wire.number, digest })
}

pub open spec fn stored_option(wire: Option<IdentityView>) -> Result<
    Option<IdentityView>,
    StoreErrorView,
> {
    match wire {
        None => Ok(None),
        Some(value) => match stored_identity(value) {
            Ok(identity) => Ok(Some(identity)),
            Err(e) => Err(e),
        },
    }
}

/// An optional stored identity, checked.
pub fn parse_optional_identity(wire: &Option<IdentityWire>) -> (r: Result<
    Option<LocalInstallGenerationIdentity>,
    LocalInstallGenerationStoreError,
>)
    ensures
        match (r, stored_option(outcome::option_view(*wire))) {
            (Ok(a), Ok(b)) => outcome::option_view(a) == b,
            (Err(a), Err(b)) => a@ == b,
            _ => false,
        },
{
    match wire {
        None => Ok(None),
        Some(value) => {
            let identity = parse_identity(value)?;
            Ok(Some(identity))
        },
    }
}

/// What [`parse_operation`] answers.
pub open spec fn stored_operation(wire: OperationView) -> Result<OperationView, StoreErrorView> {
    if !artifact::is_sha256(wire.id) {
        Err(invalid_stored_identity_view())
    } else {
        match stored_digest(wire.request_digest, "stored request digest"@) {
            Ok(_) => Ok(wire),
            Err(e) => Err(e),
        }
    }
}

/// An operation and the digest of its request.
#[derive(Debug, PartialEq, Eq)]
pub struct OperationRecord {
    pub id: LocalInstallStoreOperationId,
    pub request_digest: Sha256Digest,
}

impl View for OperationRecord {
    type V = OperationView;

    open spec fn view(&self) -> OperationView {
        OperationView { id: self.id@, request_digest: self.request_digest@ }
    }
}

impl Clone for OperationRecord {
    fn clone(&self) -> (copy: Self)
        ensures
            copy@ == self@,
    {
        OperationRecord { id: self.id.clone(), request_digest: self.request_digest.clone() }
    }
}

impl OperationRecord {
    pub fn same_as(&self, other: &Self) -> (same: bool)
        ensures
            same == (self@ == other@),
    {
        self.id.same_as(&other.id) && self.request_digest.same_as(&other.request_digest)
    }

    /// The spelling of the record.
    pub fn wire(&self) -> (wire: OperationWire)
        ensures
            wire@ == self@,
    {
        OperationWire {
            id: self.id.as_str().to_owned(),
            request_digest: self.request_digest.as_str().to_owned(),
        }
    }
}

/// A stored operation, checked.
pub fn parse_operation(wire: &OperationWire) -> (r: Result<
    OperationRecord,
    LocalInstallGenerationStoreError,
>)
    ensures
        outcome::is_outcome(r, stored_operation(wire@)),
{
    let id = match LocalInstallStoreOperationId::parse(wire.id.as_str()) {
        Ok(id) => id,
        Err(_) => {
            return Err(invalid_stored_identity());
        },
    };
    let request_digest = parse_sha256(wire.request_digest.as_str(), "stored request digest")?;
    Ok(OperationRecord { id, request_digest })
}

/// A source identity as a document spells it.
#[derive(Debug, Clone, PartialEq, Eq)]
pub struct SourceWire {
    pub identity_generation: LocalInstallIdentityGeneration,
    pub commit: String,
    pub tree: String,
    pub cargo_lock_digest: String,
    pub toolchain: String,
    pub digest: String,
}

impl View for SourceWire {
    type V = SourceView;

    open spec fn view(&self) -> SourceView {
        SourceView {
            identity_generation: self.identity_generation,
            commit: self.commit@,
            tree: self.tree@,
            cargo_lock_digest: self.cargo_lock_digest@,
            toolchain: self.toolchain@,
            digest: self.digest@,
        }
    }
}

/// A generation as a document spells it.
#[derive(Debug, Clone, PartialEq, Eq)]
pub struct GenerationWire {
    pub identity: IdentityWire,
    pub predecessor: Option<IdentityWire>,
    pub source: SourceWire,
    pub binary_digest: String,
    pub binary_version: String,
}

impl View for GenerationWire {
    type V = GenerationView;

    open spec fn view(&self) -> GenerationView {
        GenerationView {
            identity: self.identity@,
            predecessor: outcome::option_view(self.predecessor),
            source: self.source@,
            binary_digest: self.binary_digest@,
            binary_version: self.binary_version@,
        }
    }
}

/// A source spelling that is its own source identity.
pub open spec fn stored_source(wire: SourceView) -> Result<SourceView, StoreErrorView> {
    if !artifact::is_lower_hex_text(wire.commit, 40) || !artifact::is_lower_hex_text(wire.tree, 40) {
        Err(invalid_stored_identity_view())
    } else {
        match stored_digest(wire.cargo_lock_digest, "stored Cargo.lock digest"@) {
            Err(e) => Err(e),
            Ok(_) => if !local_install_plan::is_toolchain(wire.toolchain) || wire.digest
                != local_install_plan::source_digest(
                wire.identity_generation,
                wire.commit,
                wire.tree,
                wire.cargo_lock_digest,
                wire.toolchain,
            ) {
                Err(invalid_stored_identity_view())
            } else {
                Ok(wire)
            },
        }
    }
}

fn parse_source(wire: &SourceWire) -> (r: Result<
    LocalInstallSourceIdentity,
    LocalInstallGenerationStoreError,
>)
    ensures
        outcome::is_outcome(r, stored_source(wire@)),
{
    let commit = match CommitId::parse(wire.commit.as_str()) {
        Ok(commit) => commit,
        Err(_) => {
            return Err(invalid_stored_identity());
        },
    };
    let tree = match GitTreeId::parse(wire.tree.as_str()) {
        Ok(tree) => tree,
        Err(_) => {
            return Err(invalid_stored_identity());
        },
    };
    let lock = parse_sha256(wire.cargo_lock_digest.as_str(), "stored Cargo.lock digest")?;
    let toolchain = match LocalInstallToolchainIdentity::parse(wire.toolchain.as_str()) {
        Ok(toolchain) => toolchain,
        Err(_) => {
            return Err(invalid_stored_identity());
        },
    };
    let source = match LocalInstallSourceIdentity::with_identity_generation(
        wire.identity_generation,
        commit,
        tree,
        lock,
        toolchain,
    ) {
        Ok(source) => source,
        Err(_) => {
            return Err(invalid_stored_identity());
        },
    };
    if !text::same_text(source.digest().as_str(), wire.digest.as_str()) {
        return Err(invalid_stored_identity());
    }
    Ok(source)
}

/// What [`parse_generation`] answers.
pub open spec fn stored_generation(wire: GenerationView) -> Result<GenerationView, StoreErrorView> {
    match stored_identity(wire.identity) {
        Err(e) => Err(e),
        Ok(_) => match stored_option(wire.predecessor) {
            Err(e) => Err(e),
            Ok(_) => match stored_source(wire.source) {
                Err(e) => Err(e),
                Ok(_) => match stored_digest(wire.binary_digest, "stored binary digest"@) {
                    Err(e) => Err(e),
                    Ok(_) => Ok(wire),
                },
            },
        },
    }
}

/// A stored generation, checked piece by piece.
pub fn parse_generation(wire: &GenerationWire) -> (r: Result<
    InstalledLocalBinaryGeneration,
    LocalInstallGenerationStoreError,
>)
    ensures
        outcome::is_outcome(r, stored_generation(wire@)),
{
    let identity = parse_identity(&wire.identity)?;
    let predecessor = parse_optional_identity(&wire.predecessor)?;
    let source = parse_source(&wire.source)?;
    let binary_digest = parse_sha256(wire.binary_digest.as_str(), "stored binary digest")?;
    Ok(
        InstalledLocalBinaryGeneration {
            identity,
            predecessor,
            source,
            binary_digest,
            binary_version: wire.binary_version.clone(),
        },
    )
}

/// What the store vouches for of the stored binary.
#[derive(Debug, Clone, PartialEq, Eq)]
pub struct ArtifactWire {
    pub file_type: String,
    pub owner: String,
    pub mode: String,
    pub links: u8,
    pub bytes: u64,
}

pub struct ArtifactView {
    pub file_type: Seq<char>,
    pub owner: Seq<char>,
    pub mode: Seq<char>,
    pub links: u8,
    pub bytes: u64,
}

impl View for ArtifactWire {
    type V = ArtifactView;

    open spec fn view(&self) -> ArtifactView {
        ArtifactView {
            file_type: self.file_type@,
            owner: self.owner@,
            mode: self.mode@,
            links: self.links,
            bytes: self.bytes,
        }
    }
}

/// The evidence of a stored binary of `bytes` bytes.
pub open spec fn store_artifact(bytes: u64) -> ArtifactView {
    ArtifactView {
        file_type: "regular_file"@,
        owner: "store_owner"@,
        mode: "0500"@,
        links: 1,
        bytes,
    }
}

/// The document beside a stored binary.
#[derive(Debug, Clone, PartialEq, Eq)]
pub struct GenerationDocument {
    pub store_schema_version: u8,
    pub operation_id: String,
    pub request_digest: String,
    pub generation: GenerationWire,
    pub artifact: ArtifactWire,
}

pub struct GenerationDocumentView {
    pub store_schema_version: u8,
    pub operation_id: Seq<char>,
    pub request_digest: Seq<char>,
    pub generation: GenerationView,
    pub artifact: ArtifactView,
}

impl View for GenerationDocument {
    type V = GenerationDocumentView;

    open spec fn view(&self) -> GenerationDocumentView {
        GenerationDocumentView {
            store_schema_version: self.store_schema_version,
            operation_id: self.operation_id@,
            request_digest: self.request_digest@,
            generation: self.generation@,
            artifact: self.artifact@,
        }
    }
}

/// What a generation document says of the stored binary.
pub open spec fn artifact_json(bytes: u64) -> Json {
    Json::Object(
        seq![
            ("file_type"@, Json::Text("regular_file"@)),
            ("owner"@, Json::Text("store_owner"@)),
            ("mode"@, Json::Text("0500"@)),
            ("links"@, Json::Number(1)),
            ("bytes"@, Json::Number(bytes as nat)),
        ],
    )
}

pub open spec fn generation_document_json(request: RequestView, bytes: u64) -> Json {
    Json::Object(
        store_header(LOCAL_INSTALL_GENERATION_STORE_SCHEMA_VERSION) + seq![
            ("operation_id"@, Json::Text(request.operation_id)),
            ("request_digest"@, Json::Text(request.request_digest)),
            ("generation"@, local_install_generation_store::generation_json(request.candidate)),
            ("artifact"@, artifact_json(bytes)),
        ],
    )
}

pub open spec fn generation_document_bytes(request: RequestView, bytes: u64) -> Seq<u8> {
    vstd::utf8::encode_utf8(canonical_json::rendered(generation_document_json(request, bytes)))
}

/// What [`encode_generation_document`] answers.
pub open spec fn encoded_generation(request: RequestView, bytes: u64) -> Result<
    Seq<u8>,
    StoreErrorView,
> {
    if generation_document_bytes(request, bytes).len()
        > MAX_LOCAL_INSTALL_GENERATION_DOCUMENT_BYTES {
        Err(
            local_install_generation_store::invalid_request(
                "the generation document exceeds its byte limit"@,
            ),
        )
    } else {
        Ok(generation_document_bytes(request, bytes))
    }
}

/// The parts of a source identity have their canonical forms.
pub open spec fn is_bounded_source(source: SourceView) -> bool {
    &&& source.commit.len() == 40
    &&& source.tree.len() == 40
    &&& artifact::is_sha256(source.cargo_lock_digest)
    &&& local_install_plan::is_toolchain(source.toolchain)
    &&& artifact::is_sha256(source.digest)
}

proof fn lemma_source_length(source: SourceView)
    requires
        is_bounded_source(source),
    ensures
        canonical_json::rendered(local_install_generation_store::source_json(source)).len() <= 1700,
{
    let none = Seq::<(Seq<char>, Json)>::empty();
    let generation = Json::Text(source.identity_generation.name());
    let commit = Json::Text(source.commit);
    let tree = Json::Text(source.tree);
    let lock = Json::Text(source.cargo_lock_digest);
    let toolchain = Json::Text(source.toolchain);
    let digest = Json::Text(source.digest);
    reveal_strlit("smolrunner_v1");
    reveal_strlit("glaeda_v2");
    canonical_json::lemma_literal_length(source.identity_generation.name());
    canonical_json::lemma_literal_length(source.commit);
    canonical_json::lemma_literal_length(source.tree);
    canonical_json::lemma_literal_length(source.toolchain);
    lemma_digest_length(source.cargo_lock_digest);
    lemma_digest_length(source.digest);
    reveal_strlit("identity_generation");
    reveal_strlit("commit");
    reveal_strlit("tree");
    reveal_strlit("cargo_lock_digest");
    reveal_strlit("toolchain");
    reveal_strlit("digest");
    canonical_json::lemma_plain_length("identity_generation"@);
    canonical_json::lemma_plain_length("commit"@);
    canonical_json::lemma_plain_length("tree"@);
    canonical_json::lemma_plain_length("cargo_lock_digest"@);
    canonical_json::lemma_plain_length("toolchain"@);
    canonical_json::lemma_plain_length("digest"@);
    let m0 = none.push(("identity_generation"@, generation));
    let m1 = m0.push(("commit"@, commit));
    let m2 = m1.push(("tree"@, tree));
    let m3 = m2.push(("cargo_lock_digest"@, lock));
    let m4 = m3.push(("toolchain"@, toolchain));
    let m5 = m4.push(("digest"@, digest));
    canonical_json::lemma_members_length_push(none, "identity_generation"@, generation);
    canonical_json::lemma_members_length_push(m0, "commit"@, commit);
    canonical_json::lemma_members_length_push(m1, "tree"@, tree);
    canonical_json::lemma_members_length_push(m2, "cargo_lock_digest"@, lock);
    canonical_json::lemma_members_length_push(m3, "toolchain"@, toolchain);
    canonical_json::lemma_members_length_push(m4, "digest"@, digest);
    assert(local_install_generation_store::source_json(source) == Json::Object(m5)) by {
        assert(local_install_generation_store::source_json(source)->Object_0 =~= m5);
    }
    canonical_json::lemma_object_length(m5);
}

/// The parts of a generation have their canonical forms.
pub open spec fn is_bounded_generation(generation: GenerationView) -> bool {
    &&& artifact::is_sha256(generation.identity.digest)
    &&& generation.predecessor matches Some(identity) ==> artifact::is_sha256(identity.digest)
    &&& is_bounded_source(generation.source)
    &&& artifact::is_sha256(generation.binary_digest)
    &&& local_install_plan::is_binary_version(generation.binary_version)
}

proof fn lemma_generation_length(generation: GenerationView)
    requires
        is_bounded_generation(generation),
    ensures
        canonical_json::rendered(
            local_install_generation_store::generation_json(generation),
        ).len() <= 2900,
{
    let none = Seq::<(Seq<char>, Json)>::empty();
    let identity = local_install_plan::identity_json(generation.identity);
    let source = local_install_generation_store::source_json(generation.source);
    let binary = Json::Text(generation.binary_digest);
    let version = Json::Text(generation.binary_version);
    lemma_identity_length(generation.identity);
    lemma_source_length(generation.source);
    lemma_digest_length(generation.binary_digest);
    canonical_json::lemma_literal_length(generation.binary_version);
    reveal_strlit("identity");
    reveal_strlit("predecessor");
    canonical_json::lemma_plain_length("identity"@);
    let named = none.push(("identity"@, identity));
    canonical_json::lemma_members_length_push(none, "identity"@, identity);
    let linked = named + local_install_generation_store::optional_identity(
        "predecessor"@,
        generation.predecessor,
    );
    lemma_identity_member_length(named, "predecessor"@, generation.predecessor);
    reveal_strlit("source");
    reveal_strlit("binary_digest");
    reveal_strlit("binary_version");
    canonical_json::lemma_plain_length("source"@);
    canonical_json::lemma_plain_length("binary_digest"@);
    canonical_json::lemma_plain_length("binary_version"@);
    let m0 = linked.push(("source"@, source));
    let m1 = m0.push(("binary_digest"@, binary));
    let m2 = m1.push(("binary_version"@, version));
    canonical_json::lemma_members_length_push(linked, "source"@, source);
    canonical_json::lemma_members_length_push(m0, "binary_digest"@, binary);
    canonical_json::lemma_members_length_push(m1, "binary_version"@, version);
    assert(local_install_generation_store::generation_json(generation) == Json::Object(m2)) by {
        assert(local_install_generation_store::generation_json(generation)->Object_0 =~= m2);
    }
    canonical_json::lemma_object_length(m2);
}

proof fn lemma_artifact_length(bytes: u64)
    ensures
        canonical_json::rendered(artifact_json(bytes)).len() <= 150,
{
    let none = Seq::<(Seq<char>, Json)>::empty();
    let file_type = Json::Text("regular_file"@);
    let owner = Json::Text("store_owner"@);
    let mode = Json::Text("0500"@);
    let links = Json::Number(1);
    let size = Json::Number(bytes as nat);
    text::lemma_decimal_length(1);
    text::lemma_decimal_length(bytes as nat);
    reveal_strlit("regular_file");
    reveal_strlit("store_owner");
    reveal_strlit("0500");
    reveal_strlit("file_type");
    reveal_strlit("owner");
    reveal_strlit("mode");
    reveal_strlit("links");
    reveal_strlit("bytes");
    canonical_json::lemma_plain_length("regular_file"@);
    canonical_json::lemma_plain_length("store_owner"@);
    canonical_json::lemma_plain_length("0500"@);
    canonical_json::lemma_plain_length("file_type"@);
    canonical_json::lemma_plain_length("owner"@);
    canonical_json::lemma_plain_length("mode"@);
    canonical_json::lemma_plain_length("links"@);
    canonical_json::lemma_plain_length("bytes"@);
    let m0 = none.push(("file_type"@, file_type));
    let m1 = m0.push(("owner"@, owner));
    let m2 = m1.push(("mode"@, mode));
    let m3 = m2.push(("links"@, links));
    let m4 = m3.push(("bytes"@, size));
    canonical_json::lemma_members_length_push(none, "file_type"@, file_type);
    canonical_json::lemma_members_length_push(m0, "owner"@, owner);
    canonical_json::lemma_members_length_push(m1, "mode"@, mode);
    canonical_json::lemma_members_length_push(m2, "links"@, links);
    canonical_json::lemma_members_length_push(m3, "bytes"@, size);
    assert(artifact_json(bytes) == Json::Object(m4)) by {
        assert(artifact_json(bytes)->Object_0 =~= m4);
    }
    canonical_json::lemma_object_length(m4);
}

/// The document of a request whose parts have their canonical forms stays
/// within its byte limit, so every such request can be staged.
pub proof fn law_generation_documents_fit(request: RequestView, bytes: u64)
    requires
        artifact::is_sha256(request.operation_id),
        artifact::is_sha256(request.request_digest),
        is_bounded_generation(request.candidate),
    ensures
        encoded_generation(request, bytes) == Ok::<_, StoreErrorView>(
            generation_document_bytes(request, bytes),
        ),
{
    let header = store_header(LOCAL_INSTALL_GENERATION_STORE_SCHEMA_VERSION);
    let operation = Json::Text(request.operation_id);
    let digest = Json::Text(request.request_digest);
    let generation = local_install_generation_store::generation_json(request.candidate);
    let stored = artifact_json(bytes);
    lemma_header_length(LOCAL_INSTALL_GENERATION_STORE_SCHEMA_VERSION);
    lemma_digest_length(request.operation_id);
    lemma_digest_length(request.request_digest);
    lemma_generation_length(request.candidate);
    lemma_artifact_length(bytes);
    reveal_strlit("operation_id");
    reveal_strlit("request_digest");
    reveal_strlit("generation");
    reveal_strlit("artifact");
    canonical_json::lemma_plain_length("operation_id"@);
    canonical_json::lemma_plain_length("request_digest"@);
    canonical_json::lemma_plain_length("generation"@);
    canonical_json::lemma_plain_length("artifact"@);
    let m0 = header.push(("operation_id"@, operation));
    let m1 = m0.push(("request_digest"@, digest));
    let m2 = m1.push(("generation"@, generation));
    let m3 = m2.push(("artifact"@, stored));
    canonical_json::lemma_members_length_push(header, "operation_id"@, operation);
    canonical_json::lemma_members_length_push(m0, "request_digest"@, digest);
    canonical_json::lemma_members_length_push(m1, "generation"@, generation);
    canonical_json::lemma_members_length_push(m2, "artifact"@, stored);
    assert(generation_document_json(request, bytes) == Json::Object(m3)) by {
        assert(generation_document_json(request, bytes)->Object_0 =~= m3);
    }
    canonical_json::lemma_object_length(m3);
    canonical_json::lemma_byte_length(canonical_json::rendered(Json::Object(m3)));
}

/// The canonical bytes of the document beside a stored binary.
pub fn encode_generation_document(
    request: &LocalInstallGenerationPublishRequest,
    binary_bytes: u64,
) -> (r: Result<Vec<u8>, LocalInstallGenerationStoreError>)
    ensures
        outcome::is_outcome(r, encoded_generation(request@, binary_bytes)),
{
    let mut artifact = ObjectWriter::new();
    artifact.string("file_type", "regular_file");
    artifact.string("owner", "store_owner");
    artifact.string("mode", "0500");
    artifact.number("links", 1);
    artifact.number("bytes", binary_bytes);
    let ghost artifact_members = artifact.members();
    let artifact_text = artifact.finish();
    let mut writer = ObjectWriter::new();
    writer.number("store_schema_version", LOCAL_INSTALL_GENERATION_STORE_SCHEMA_VERSION as u64);
    writer.string("store_generation", "glaeda_current_v1");
    writer.string("operation_id", request.operation_id().as_str());
    writer.string("request_digest", request.request_digest().as_str());
    let generation = generation_text(request.candidate());
    writer.value(
        "generation",
        generation.as_str(),
        Ghost(local_install_generation_store::generation_json(request@.candidate)),
    );
    writer.value("artifact", artifact_text.as_str(), Ghost(Json::Object(artifact_members)));
    proof {
        let expected = generation_document_json(request@, binary_bytes)->Object_0;
        assert(artifact_members =~= expected[5].1->Object_0);
        assert(writer.members() =~= expected);
    }
    let encoded = writer.finish();
    let bytes = encoded.as_str().as_bytes();
    if bytes.len() > MAX_LOCAL_INSTALL_GENERATION_DOCUMENT_BYTES {
        return Err(
            store_error(
                LocalInstallGenerationStoreErrorKind::InvalidRequest,
                "the generation document exceeds its byte limit",
            ),
        );
    }
    Ok(vstd::slice::slice_to_vec(bytes))
}

/// A generation read back from its document.
#[derive(Debug, PartialEq, Eq)]
pub struct LoadedGeneration {
    pub generation: InstalledLocalBinaryGeneration,
    pub operation: OperationRecord,
    pub document_bytes: Vec<u8>,
    pub artifact_bytes: u64,
}

pub struct LoadedGenerationView {
    pub generation: GenerationView,
    pub operation: OperationView,
    pub document_bytes: Seq<u8>,
    pub artifact_bytes: u64,
}

impl View for LoadedGeneration {
    type V = LoadedGenerationView;

    open spec fn view(&self) -> LoadedGenerationView {
        LoadedGenerationView {
            generation: self.generation@,
            operation: self.operation@,
            document_bytes: self.document_bytes@,
            artifact_bytes: self.artifact_bytes,
        }
    }
}

pub open spec fn is_supported_document(document: GenerationDocumentView) -> bool {
    &&& document.store_schema_version == LOCAL_INSTALL_GENERATION_STORE_SCHEMA_VERSION
    &&& document.artifact == store_artifact(document.artifact.bytes)
    &&& 0 < document.artifact.bytes <= MAX_LOCAL_INSTALL_BINARY_BYTES
}

/// The generation of which these bytes are the document, if they are one. No
/// bytes are the document of two generations.
pub open spec fn written_generation(bytes: Seq<u8>) -> Option<LoadedGenerationView> {
    if exists|document: GenerationDocumentView| accepted_document(bytes, Some(document)) is Ok {
        let document = choose|document: GenerationDocumentView|
            accepted_document(bytes, Some(document)) is Ok;
        Some(accepted_document(bytes, Some(document))->Ok_0)
    } else {
        None
    }
}

/// What [`decode_generation_document`] answers: the bytes of a generation's own
/// document are that generation, and any others are refused for what they were
/// parsed to.
pub open spec fn decoded_generation(
    bytes: Seq<u8>,
    parsed: Option<GenerationDocumentView>,
) -> Result<LoadedGenerationView, StoreErrorView> {
    match written_generation(bytes) {
        Some(loaded) => Ok(loaded),
        None => accepted_document(bytes, parsed),
    }
}

/// What [`accept_document`] answers.
pub open spec fn accepted_document(
    bytes: Seq<u8>,
    parsed: Option<GenerationDocumentView>,
) -> Result<LoadedGenerationView, StoreErrorView> {
    match parsed {
        None => Err(local_install_generation_store::corrupt("the generation document is invalid"@)),
        Some(document) => if !is_supported_document(document) {
            Err(
                local_install_generation_store::corrupt(
                    "the generation document has unsupported or invalid evidence"@,
                ),
            )
        } else if !artifact::is_sha256(document.operation_id) {
            Err(
                local_install_generation_store::corrupt("the stored operation identity is invalid"@),
            )
        } else {
            match stored_digest(document.request_digest, "stored request digest"@) {
                Err(e) => Err(e),
                Ok(_) => match stored_generation(document.generation) {
                    Err(e) => Err(e),
                    Ok(generation) => decoded_candidate(bytes, document, generation),
                },
            }
        },
    }
}

/// The part of decoding that re-derives the generation and its request.
pub open spec fn decoded_candidate(
    bytes: Seq<u8>,
    document: GenerationDocumentView,
    generation: GenerationView,
) -> Result<LoadedGenerationView, StoreErrorView> {
    let request = local_install_generation_store::bound_request(
        document.operation_id,
        generation.predecessor,
        generation,
    );
    if local_install_generation_store::candidate_problem(generation, generation.predecessor)
        is Some {
        Err(
            local_install_generation_store::corrupt(
                "the stored generation does not reproduce from its canonical evidence"@,
            ),
        )
    } else if request.request_digest != document.request_digest {
        Err(
            local_install_generation_store::corrupt(
                "the stored generation request digest does not match its evidence"@,
            ),
        )
    } else {
        match encoded_generation(request, document.artifact.bytes) {
            Err(e) => Err(e),
            Ok(canonical) => if canonical != bytes {
                Err(
                    local_install_generation_store::corrupt(
                        "the generation document is not canonically encoded"@,
                    ),
                )
            } else {
                Ok(
                    LoadedGenerationView {
                        generation,
                        operation: OperationView {
                            id: document.operation_id,
                            request_digest: document.request_digest,
                        },
                        document_bytes: bytes,
                        artifact_bytes: document.artifact.bytes,
                    },
                )
            },
        }
    }
}

fn supported_document(document: &GenerationDocument) -> (r: bool)
    ensures
        r == is_supported_document(document@),
{
    let artifact = &document.artifact;
    document.store_schema_version == LOCAL_INSTALL_GENERATION_STORE_SCHEMA_VERSION
        && text::same_text(artifact.file_type.as_str(), "regular_file") && text::same_text(
        artifact.owner.as_str(),
        "store_owner",
    ) && text::same_text(artifact.mode.as_str(), "0500") && artifact.links == 1 && artifact.bytes
        != 0 && artifact.bytes <= MAX_LOCAL_INSTALL_BINARY_BYTES
}

/// Accepts a generation document only in its canonical bytes, whose fields are
/// read from them; what a JSON reader made of other bytes tells why they are
/// refused.
pub fn decode_generation_document(bytes: &[u8], parsed: &Option<GenerationDocument>) -> (r: Result<
    LoadedGeneration,
    LocalInstallGenerationStoreError,
>)
    ensures
        outcome::is_outcome(r, decoded_generation(bytes@, outcome::option_view(*parsed))),
{
    let read = read_generation(bytes);
    proof {
        assert forall|document: GenerationDocumentView|
            (#[trigger] accepted_document(bytes@, Some(document))) is Ok implies outcome::option_view(
            read,
        ) == Some(document) by {
            lemma_accepted_document(bytes@, document);
        }
    }
    if read.is_some() {
        if let Ok(loaded) = accept_document(bytes, &read) {
            return Ok(loaded);
        }
    }
    assert(written_generation(bytes@) is None);
    accept_document(bytes, parsed)
}

/// An accepted document is that of its own request.
proof fn lemma_accepted_document(bytes: Seq<u8>, document: GenerationDocumentView)
    requires
        accepted_document(bytes, Some(document)) is Ok,
    ensures
        ({
            let request = local_install_generation_store::bound_request(
                document.operation_id,
                document.generation.predecessor,
                document.generation,
            );
            &&& bytes == generation_document_bytes(request, document.artifact.bytes)
            &&& document == document_of(request, document.artifact.bytes)
        }),
{
}

/// Accepts what was made of a generation document only where the generation, its
/// request and the bytes themselves reproduce from it.
fn accept_document(bytes: &[u8], parsed: &Option<GenerationDocument>) -> (r: Result<
    LoadedGeneration,
    LocalInstallGenerationStoreError,
>)
    ensures
        outcome::is_outcome(r, accepted_document(bytes@, outcome::option_view(*parsed))),
{
    let document = match parsed {
        Some(document) => document,
        None => {
            return Err(
                store_error(
                    LocalInstallGenerationStoreErrorKind::CorruptState,
                    "the generation document is invalid",
                ),
            );
        },
    };
    if !supported_document(document) {
        return Err(
            store_error(
                LocalInstallGenerationStoreErrorKind::CorruptState,
                "the generation document has unsupported or invalid evidence",
            ),
        );
    }
    let operation_id = match LocalInstallStoreOperationId::parse(document.operation_id.as_str()) {
        Ok(operation_id) => operation_id,
        Err(_) => {
            return Err(
                store_error(
                    LocalInstallGenerationStoreErrorKind::CorruptState,
                    "the stored operation identity is invalid",
                ),
            );
        },
    };
    let request_digest = parse_sha256(document.request_digest.as_str(), "stored request digest")?;
    let generation = parse_generation(&document.generation)?;
    let predecessor = copied_identity(&generation.predecessor);
    let request = match LocalInstallGenerationPublishRequest::new(
        operation_id.clone(),
        predecessor,
        generation.clone(),
    ) {
        Ok(request) => request,
        Err(_) => {
            return Err(
                store_error(
                    LocalInstallGenerationStoreErrorKind::CorruptState,
                    "the stored generation does not reproduce from its canonical evidence",
                ),
            );
        },
    };
    if !request.request_digest().same_as(&request_digest) {
        return Err(
            store_error(
                LocalInstallGenerationStoreErrorKind::CorruptState,
                "the stored generation request digest does not match its evidence",
            ),
        );
    }
    let canonical = encode_generation_document(&request, document.artifact.bytes)?;
    if !text::same_bytes(canonical.as_slice(), bytes) {
        return Err(
            store_error(
                LocalInstallGenerationStoreErrorKind::CorruptState,
                "the generation document is not canonically encoded",
            ),
        );
    }
    Ok(
        LoadedGeneration {
            generation,
            operation: OperationRecord { id: operation_id, request_digest },
            document_bytes: vstd::slice::slice_to_vec(bytes),
            artifact_bytes: document.artifact.bytes,
        },
    )
}

/// The document that binds a store to its root directory.
#[derive(Debug, Clone, PartialEq, Eq)]
pub struct StoreIdentityDocument {
    pub store_schema_version: u8,
    pub location: LocalInstallStoreLocationClass,
    pub root_device: u64,
    pub root_inode: u64,
}

pub open spec fn store_identity_json(
    location: LocalInstallStoreLocationClass,
    root_device: u64,
    root_inode: u64,
) -> Json {
    Json::Object(
        store_header(LOCAL_INSTALL_GENERATION_STORE_SCHEMA_VERSION) + seq![
            ("location"@, Json::Text(location.name())),
            ("root_device"@, Json::Number(root_device as nat)),
            ("root_inode"@, Json::Number(root_inode as nat)),
        ],
    )
}

/// What [`encode_store_identity`] answers.
pub open spec fn encoded_store_identity(
    location: LocalInstallStoreLocationClass,
    root_device: u64,
    root_inode: u64,
) -> Result<Seq<u8>, StoreErrorView> {
    let bytes = vstd::utf8::encode_utf8(
        canonical_json::rendered(store_identity_json(location, root_device, root_inode)),
    );
    if bytes.len() > MAX_LOCAL_INSTALL_STORE_IDENTITY_BYTES {
        Err(
            local_install_generation_store::refusal(
                LocalInstallGenerationStoreErrorKind::Io,
                "the local-install store identity exceeds its byte limit"@,
            ),
        )
    } else {
        Ok(bytes)
    }
}

proof fn lemma_location_length(location: LocalInstallStoreLocationClass)
    ensures
        canonical_json::json_text(location.name()).len() <= 28,
{
    reveal_strlit("linux_xdg_data_home");
    reveal_strlit("linux_home_default");
    reveal_strlit("macos_application_support");
    canonical_json::lemma_plain_length("linux_xdg_data_home"@);
    canonical_json::lemma_plain_length("linux_home_default"@);
    canonical_json::lemma_plain_length("macos_application_support"@);
}

/// The identity document of a store stays within its byte limit, so every root
/// can be given one.
pub proof fn law_store_identities_fit(
    location: LocalInstallStoreLocationClass,
    root_device: u64,
    root_inode: u64,
)
    ensures
        encoded_store_identity(location, root_device, root_inode) is Ok,
{
    reveal_strlit("location");
    reveal_strlit("root_device");
    reveal_strlit("root_inode");
    canonical_json::lemma_plain_length("location"@);
    canonical_json::lemma_plain_length("root_device"@);
    canonical_json::lemma_plain_length("root_inode"@);
    text::lemma_decimal_length(root_device as nat);
    text::lemma_decimal_length(root_inode as nat);
    lemma_location_length(location);
    let header = store_header(LOCAL_INSTALL_GENERATION_STORE_SCHEMA_VERSION);
    let place = Json::Text(location.name());
    let device = Json::Number(root_device as nat);
    let inode = Json::Number(root_inode as nat);
    lemma_header_length(LOCAL_INSTALL_GENERATION_STORE_SCHEMA_VERSION);
    let first = header.push(("location"@, place));
    let second = first.push(("root_device"@, device));
    let members = second.push(("root_inode"@, inode));
    canonical_json::lemma_members_length_push(header, "location"@, place);
    canonical_json::lemma_members_length_push(first, "root_device"@, device);
    canonical_json::lemma_members_length_push(second, "root_inode"@, inode);
    assert(store_identity_json(location, root_device, root_inode) == Json::Object(members)) by {
        assert(header + seq![("location"@, place), ("root_device"@, device), ("root_inode"@, inode)]
            =~= members);
    }
    canonical_json::lemma_object_length(members);
    canonical_json::lemma_byte_length(canonical_json::rendered(Json::Object(members)));
}

/// The canonical bytes of the store identity of a root directory.
pub fn encode_store_identity(
    location: LocalInstallStoreLocationClass,
    root_device: u64,
    root_inode: u64,
) -> (r: Result<Vec<u8>, LocalInstallGenerationStoreError>)
    ensures
        outcome::is_outcome(r, encoded_store_identity(location, root_device, root_inode)),
{
    let mut writer = ObjectWriter::new();
    writer.number("store_schema_version", LOCAL_INSTALL_GENERATION_STORE_SCHEMA_VERSION as u64);
    writer.string("store_generation", "glaeda_current_v1");
    writer.string("location", location.as_str());
    writer.number("root_device", root_device);
    writer.number("root_inode", root_inode);
    assert(writer.members() =~= store_identity_json(location, root_device, root_inode)->Object_0);
    let encoded = writer.finish();
    let bytes = encoded.as_str().as_bytes();
    if bytes.len() > MAX_LOCAL_INSTALL_STORE_IDENTITY_BYTES {
        return Err(
            store_error(
                LocalInstallGenerationStoreErrorKind::Io,
                "the local-install store identity exceeds its byte limit",
            ),
        );
    }
    Ok(vstd::slice::slice_to_vec(bytes))
}

pub open spec fn is_store_identity_of(
    document: StoreIdentityDocument,
    location: LocalInstallStoreLocationClass,
    root_device: u64,
    root_inode: u64,
) -> bool {
    &&& document.store_schema_version == LOCAL_INSTALL_GENERATION_STORE_SCHEMA_VERSION
    &&& document.location == location
    &&& document.root_device == root_device
    &&& document.root_inode == root_inode
}

/// What [`verify_store_identity_document`] answers.
pub open spec fn verified_store_identity(
    bytes: Seq<u8>,
    parsed: Option<StoreIdentityDocument>,
    location: LocalInstallStoreLocationClass,
    root_device: u64,
    root_inode: u64,
) -> Result<(), StoreErrorView> {
    let mismatch = local_install_generation_store::corrupt(
        "the local-install store identity does not match its root"@,
    );
    match parsed {
        None => Err(
            local_install_generation_store::corrupt("the local-install store identity is invalid"@),
        ),
        Some(document) => if !is_store_identity_of(document, location, root_device, root_inode) {
            Err(mismatch)
        } else {
            match encoded_store_identity(location, root_device, root_inode) {
                Err(e) => Err(e),
                Ok(canonical) => if canonical == bytes {
                    Ok(())
                } else {
                    Err(mismatch)
                },
            }
        },
    }
}

/// Checks that the stored identity is exactly that of the root directory.
pub fn verify_store_identity_document(
    bytes: &[u8],
    parsed: &Option<StoreIdentityDocument>,
    location: LocalInstallStoreLocationClass,
    root_device: u64,
    root_inode: u64,
) -> (r: Result<(), LocalInstallGenerationStoreError>)
    ensures
        match (
            r,
            verified_store_identity(bytes@, *parsed, location, root_device, root_inode),
        ) {
            (Ok(_), Ok(_)) => true,
            (Err(a), Err(b)) => a@ == b,
            _ => false,
        },
{
    let document = match parsed {
        Some(document) => document,
        None => {
            return Err(
                store_error(
                    LocalInstallGenerationStoreErrorKind::CorruptState,
                    "the local-install store identity is invalid",
                ),
            );
        },
    };
    if document.store_schema_version == LOCAL_INSTALL_GENERATION_STORE_SCHEMA_VERSION
        && document.location == location && document.root_device == root_device
        && document.root_inode == root_inode {
        let canonical = encode_store_identity(location, root_device, root_inode)?;
        if text::same_bytes(canonical.as_slice(), bytes) {
            return Ok(());
        }
    }
    Err(
        store_error(
            LocalInstallGenerationStoreErrorKind::CorruptState,
            "the local-install store identity does not match its root",
        ),
    )
}

proof fn lemma_written_current(bytes: Seq<u8>, current: CurrentView)
    requires
        is_written_current(bytes, current),
    ensures
        written_current(bytes) == Some(current),
{
    law_current_documents_are_distinct(written_current(bytes)->0, current);
}

/// A current-generation document that is written is read back unchanged from
/// its bytes, whatever else they were taken for.
pub proof fn law_current_document_round_trip(current: CurrentView, parsed: Option<CurrentView>)
    requires
        current.store_schema_version == 1,
        encoded_current(current) is Ok,
    ensures
        decoded_current(encoded_current(current)->Ok_0, parsed) == Ok::<
            CurrentView,
            StoreErrorView,
        >(current),
{
    lemma_written_current(encoded_current(current)->Ok_0, current);
}

/// A current-generation document is accepted only in its canonical bytes, and
/// what it is accepted as depends on the bytes alone.
pub proof fn law_current_document_is_strict(
    bytes: Seq<u8>,
    first: Option<CurrentView>,
    second: Option<CurrentView>,
)
    requires
        decoded_current(bytes, first) is Ok,
    ensures
        bytes == current_bytes(decoded_current(bytes, first)->Ok_0),
        decoded_current(bytes, second) == decoded_current(bytes, first),
{
}

proof fn lemma_optional_member(
    key: Seq<char>,
    a: Option<IdentityView>,
    x: Seq<(Seq<char>, Json)>,
    b: Option<IdentityView>,
    y: Seq<(Seq<char>, Json)>,
)
    requires
        local_install_generation_store::optional_identity(key, a) + x
            == local_install_generation_store::optional_identity(key, b) + y,
        canonical_json::lacks_key(x, key),
        canonical_json::lacks_key(y, key),
    ensures
        a == b,
        x == y,
{
    let l = local_install_generation_store::optional_identity(key, a) + x;
    let r = local_install_generation_store::optional_identity(key, b) + y;
    match (a, b) {
        (Some(p), Some(q)) => {
            assert(l[0] == (key, local_install_plan::identity_json(p)));
            assert(r[0] == (key, local_install_plan::identity_json(q)));
            lemma_identity_json(p, q);
            assert(x =~= l.skip(1));
            assert(y =~= r.skip(1));
        },
        (None, None) => {
            assert(x =~= l);
            assert(y =~= r);
        },
        (Some(p), None) => {
            assert(l[0].0 == key);
            assert(r[0] == y[0]);
        },
        (None, Some(q)) => {
            assert(r[0].0 == key);
            assert(l[0] == x[0]);
        },
    }
}

proof fn lemma_identity_json(p: IdentityView, q: IdentityView)
    requires
        local_install_plan::identity_json(p) == local_install_plan::identity_json(q),
    ensures
        p == q,
{
    let ps = local_install_plan::identity_json(p)->Object_0;
    let qs = local_install_plan::identity_json(q)->Object_0;
    assert(ps[0].1 == Json::Number(p.number as nat) && qs[0].1 == Json::Number(q.number as nat));
    assert(ps[1].1 == Json::Text(p.digest) && qs[1].1 == Json::Text(q.digest));
}

spec fn after_retiring(c: CurrentView) -> Seq<(Seq<char>, Json)> {
    operation_member(c.last_operation)
}

spec fn after_retained(c: CurrentView) -> Seq<(Seq<char>, Json)> {
    local_install_generation_store::optional_identity("retiring"@, c.retiring) + after_retiring(c)
}

spec fn after_accepted(c: CurrentView) -> Seq<(Seq<char>, Json)> {
    local_install_generation_store::optional_identity("retained"@, c.retained) + after_retained(c)
}

spec fn after_header(c: CurrentView) -> Seq<(Seq<char>, Json)> {
    local_install_generation_store::optional_identity("accepted"@, c.accepted) + after_accepted(c)
}

proof fn lemma_current_members(c: CurrentView)
    ensures
        current_json(c)->Object_0.skip(2) == after_header(c),
        current_json(c)->Object_0[0].1 == Json::Number(c.store_schema_version as nat),
        canonical_json::lacks_key(after_retiring(c), "retiring"@),
        canonical_json::lacks_key(after_retained(c), "retained"@),
        canonical_json::lacks_key(after_accepted(c), "accepted"@),
{
    reveal_strlit("accepted");
    reveal_strlit("retained");
    reveal_strlit("retiring");
    reveal_strlit("last_operation");
    assert("retiring"@[4] == 'r' && "retained"@[4] == 'i');
    assert("retiring"@[0] == 'r' && "accepted"@[0] == 'a' && "retained"@[0] == 'r');
    assert("last_operation"@.len() == 14);
    let header = store_header(c.store_schema_version);
    let accepted = local_install_generation_store::optional_identity("accepted"@, c.accepted);
    let retained = local_install_generation_store::optional_identity("retained"@, c.retained);
    let retiring = local_install_generation_store::optional_identity("retiring"@, c.retiring);
    let operation = operation_member(c.last_operation);
    assert((header + accepted + retained + retiring + operation).skip(2) =~= accepted + (retained + (
    retiring + operation)));
}

proof fn lemma_operation_member(a: Option<OperationView>, b: Option<OperationView>)
    requires
        operation_member(a) == operation_member(b),
    ensures
        a == b,
{
    let l = operation_member(a);
    let r = operation_member(b);
    match (a, b) {
        (Some(p), Some(q)) => {
            let ps = l[0].1->Object_0;
            let qs = r[0].1->Object_0;
            assert(ps[0].1 == Json::Text(p.id) && qs[0].1 == Json::Text(q.id));
            assert(ps[1].1 == Json::Text(p.request_digest) && qs[1].1 == Json::Text(
                q.request_digest,
            ));
        },
        (None, None) => {},
        (Some(p), None) => {
            assert(l.len() == 1 && r.len() == 0);
        },
        (None, Some(q)) => {
            assert(l.len() == 0 && r.len() == 1);
        },
    }
}

/// Different current-generation documents never share their bytes.
pub proof fn law_current_documents_are_distinct(a: CurrentView, b: CurrentView)
    requires
        current_bytes(a) == current_bytes(b),
    ensures
        a == b,
{
    canonical_json::law_canonical_bytes_are_injective(current_json(a), current_json(b));
    lemma_current_members(a);
    lemma_current_members(b);
    lemma_optional_member(
        "accepted"@,
        a.accepted,
        after_accepted(a),
        b.accepted,
        after_accepted(b),
    );
    lemma_optional_member(
        "retained"@,
        a.retained,
        after_retained(a),
        b.retained,
        after_retained(b),
    );
    lemma_optional_member(
        "retiring"@,
        a.retiring,
        after_retiring(a),
        b.retiring,
        after_retiring(b),
    );
    lemma_operation_member(a.last_operation, b.last_operation);
}

/// What the JSON reader makes of the document of a request.
pub open spec fn document_of(request: RequestView, bytes: u64) -> GenerationDocumentView {
    GenerationDocumentView {
        store_schema_version: LOCAL_INSTALL_GENERATION_STORE_SCHEMA_VERSION,
        operation_id: request.operation_id,
        request_digest: request.request_digest,
        generation: request.candidate,
        artifact: store_artifact(bytes),
    }
}

proof fn lemma_generation_json(p: GenerationView, q: GenerationView)
    requires
        local_install_generation_store::generation_json(p)
            == local_install_generation_store::generation_json(q),
    ensures
        p == q,
{
    let ps = local_install_generation_store::generation_json(p)->Object_0;
    let qs = local_install_generation_store::generation_json(q)->Object_0;
    let n = ps.len() as int;
    assert(ps[0].1 == local_install_plan::identity_json(p.identity));
    assert(qs[0].1 == local_install_plan::identity_json(q.identity));
    lemma_identity_json(p.identity, q.identity);
    assert(ps.len() == 4 <==> p.predecessor is None);
    assert(qs.len() == 4 <==> q.predecessor is None);
    if p.predecessor is Some {
        assert(ps[1].1 == local_install_plan::identity_json(p.predecessor->0));
        assert(qs[1].1 == local_install_plan::identity_json(q.predecessor->0));
        lemma_identity_json(p.predecessor->0, q.predecessor->0);
    }
    assert(ps[n - 3].1 == local_install_generation_store::source_json(p.source));
    assert(qs[n - 3].1 == local_install_generation_store::source_json(q.source));
    lemma_source_json(p.source, q.source);
    assert(ps[n - 2].1 == Json::Text(p.binary_digest) && qs[n - 2].1 == Json::Text(
        q.binary_digest,
    ));
    assert(ps[n - 1].1 == Json::Text(p.binary_version) && qs[n - 1].1 == Json::Text(
        q.binary_version,
    ));
}

proof fn lemma_source_json(p: SourceView, q: SourceView)
    requires
        local_install_generation_store::source_json(p)
            == local_install_generation_store::source_json(q),
    ensures
        p == q,
{
    let ps = local_install_generation_store::source_json(p)->Object_0;
    let qs = local_install_generation_store::source_json(q)->Object_0;
    reveal_strlit("smolrunner_v1");
    reveal_strlit("glaeda_v2");
    assert("smolrunner_v1"@.len() != "glaeda_v2"@.len());
    assert(ps[0].1 == qs[0].1 && ps[1].1 == qs[1].1 && ps[2].1 == qs[2].1);
    assert(ps[3].1 == qs[3].1 && ps[4].1 == qs[4].1 && ps[5].1 == qs[5].1);
}

/// Documents of different requests, or of binaries of different sizes, never
/// share their bytes.
pub proof fn law_generation_documents_are_distinct(
    p: RequestView,
    a: u64,
    q: RequestView,
    b: u64,
)
    requires
        generation_document_bytes(p, a) == generation_document_bytes(q, b),
    ensures
        document_of(p, a) == document_of(q, b),
{
    canonical_json::law_canonical_bytes_are_injective(
        generation_document_json(p, a),
        generation_document_json(q, b),
    );
    let ps = generation_document_json(p, a)->Object_0;
    let qs = generation_document_json(q, b)->Object_0;
    assert(ps[2].1 == Json::Text(p.operation_id) && qs[2].1 == Json::Text(q.operation_id));
    assert(ps[3].1 == Json::Text(p.request_digest) && qs[3].1 == Json::Text(q.request_digest));
    assert(ps[4].1 == local_install_generation_store::generation_json(p.candidate));
    assert(qs[4].1 == local_install_generation_store::generation_json(q.candidate));
    lemma_generation_json(p.candidate, q.candidate);
    assert(ps[5].1 == artifact_json(a) && qs[5].1 == artifact_json(b));
    assert(artifact_json(a)->Object_0[4].1 == Json::Number(a as nat));
    assert(artifact_json(b)->Object_0[4].1 == Json::Number(b as nat));
}

proof fn lemma_written_generation(bytes: Seq<u8>, document: GenerationDocumentView)
    requires
        accepted_document(bytes, Some(document)) is Ok,
    ensures
        written_generation(bytes) == Some(accepted_document(bytes, Some(document))->Ok_0),
{
    let other = choose|other: GenerationDocumentView| accepted_document(bytes, Some(other)) is Ok;
    lemma_accepted_document(bytes, document);
    lemma_accepted_document(bytes, other);
    law_generation_documents_are_distinct(
        local_install_generation_store::bound_request(
            document.operation_id,
            document.generation.predecessor,
            document.generation,
        ),
        document.artifact.bytes,
        local_install_generation_store::bound_request(
            other.operation_id,
            other.generation.predecessor,
            other.generation,
        ),
        other.artifact.bytes,
    );
}

/// The generation document of a valid request is read back from its bytes as
/// exactly that generation and operation, whatever else they were taken for.
pub proof fn law_generation_document_round_trip(
    operation: Seq<char>,
    candidate: GenerationView,
    bytes: u64,
    parsed: Option<GenerationDocumentView>,
)
    requires
        artifact::is_sha256(operation),
        stored_generation(candidate) is Ok,
        local_install_generation_store::candidate_problem(candidate, candidate.predecessor) is None,
        artifact::is_sha256(
            local_install_generation_store::request_digest(
                operation,
                candidate.predecessor,
                candidate,
            ),
        ),
        artifact::is_sha256(candidate.source.digest),
        0 < bytes <= 536_870_912,
    ensures
        ({
            let request = local_install_generation_store::bound_request(
                operation,
                candidate.predecessor,
                candidate,
            );
            let encoded = encoded_generation(request, bytes)->Ok_0;
            &&& encoded_generation(request, bytes) is Ok
            &&& decoded_generation(encoded, parsed) == Ok::<
                LoadedGenerationView,
                StoreErrorView,
            >(
                LoadedGenerationView {
                    generation: candidate,
                    operation: OperationView {
                        id: operation,
                        request_digest: request.request_digest,
                    },
                    document_bytes: encoded,
                    artifact_bytes: bytes,
                },
            )
        }),
{
    let request = local_install_generation_store::bound_request(
        operation,
        candidate.predecessor,
        candidate,
    );
    law_generation_documents_fit(request, bytes);
    lemma_written_generation(
        generation_document_bytes(request, bytes),
        document_of(request, bytes),
    );
}

/// A generation document is accepted only where generation and request
/// reproduce from it, in exactly the bytes that encode them.
pub proof fn law_generation_document_is_strict(
    bytes: Seq<u8>,
    parsed: Option<GenerationDocumentView>,
)
    requires
        decoded_generation(bytes, parsed) is Ok,
    ensures
        ({
            let loaded = decoded_generation(bytes, parsed)->Ok_0;
            let request = local_install_generation_store::bound_request(
                loaded.operation.id,
                loaded.generation.predecessor,
                loaded.generation,
            );
            &&& local_install_generation_store::candidate_problem(
                loaded.generation,
                loaded.generation.predecessor,
            ) is None
            &&& loaded.operation.request_digest == request.request_digest
            &&& bytes == generation_document_bytes(request, loaded.artifact_bytes)
            &&& loaded.document_bytes == bytes
            &&& local_install_generation_store::is_nameable(loaded.generation.identity)
            &&& 0 < loaded.artifact_bytes <= 536_870_912
        }),
{
}

/// The documents of a store hold at most as many bytes as their readers take:
/// 4096 of the current one, 16384 of a generation, 1024 of an identity.
pub proof fn law_documents_are_bounded(
    current: CurrentView,
    request: RequestView,
    bytes: u64,
    location: LocalInstallStoreLocationClass,
    root_device: u64,
    root_inode: u64,
)
    ensures
        encoded_current(current) is Ok <==> current_bytes(current).len() <= 4096,
        encoded_current(current) matches Ok(encoded) ==> encoded == current_bytes(current),
        encoded_generation(request, bytes) is Ok <==> generation_document_bytes(
            request,
            bytes,
        ).len() <= 16384,
        encoded_generation(request, bytes) matches Ok(encoded) ==> encoded
            == generation_document_bytes(request, bytes),
        encoded_store_identity(location, root_device, root_inode) matches Ok(encoded)
            ==> encoded.len() <= 1024,
{
}

/// What was stored is taken back exactly when it could have been stored: with
/// positive numbers, well-formed digests and object names, and a source digest
/// that its own evidence gives.
pub proof fn law_stored_evidence_is_well_formed(
    identity: IdentityView,
    operation: OperationView,
    source: SourceView,
    generation: GenerationView,
)
    ensures
        stored_identity(identity) is Ok <==> identity.number >= 1 && artifact::is_sha256(
            identity.digest,
        ),
        stored_identity(identity) matches Ok(value) ==> value == identity,
        stored_operation(operation) is Ok <==> artifact::is_sha256(operation.id)
            && artifact::is_sha256(operation.request_digest),
        stored_operation(operation) matches Ok(value) ==> value == operation,
        stored_source(source) is Ok <==> {
            &&& artifact::is_lower_hex_text(source.commit, 40)
            &&& artifact::is_lower_hex_text(source.tree, 40)
            &&& artifact::is_sha256(source.cargo_lock_digest)
            &&& local_install_plan::is_toolchain(source.toolchain)
            &&& source == local_install_plan::bound_source(
                source.identity_generation,
                source.commit,
                source.tree,
                source.cargo_lock_digest,
                source.toolchain,
            )
        },
        stored_source(source) matches Ok(value) ==> value == source,
        stored_generation(generation) is Ok <==> {
            &&& generation.identity.number >= 1
            &&& artifact::is_sha256(generation.identity.digest)
            &&& generation.predecessor matches Some(predecessor) ==> predecessor.number >= 1
                && artifact::is_sha256(predecessor.digest)
            &&& stored_source(generation.source) is Ok
            &&& artifact::is_sha256(generation.binary_digest)
        },
        stored_generation(generation) matches Ok(value) ==> value == generation,
        stored_generation(generation) matches Err(e) ==> e.kind
            == LocalInstallGenerationStoreErrorKind::CorruptState,
{
}

/// A document tells of a stored binary only as the store keeps it: a regular
/// file of the store's owner, of mode 0500 with one name, of at least a byte
/// and at most half a gibibyte.
pub proof fn law_documents_tell_of_private_binaries(document: GenerationDocumentView)
    ensures
        is_supported_document(document) <==> {
            &&& document.store_schema_version == 1
            &&& document.artifact.file_type == "regular_file"@
            &&& document.artifact.owner == "store_owner"@
            &&& document.artifact.mode == "0500"@
            &&& document.artifact.links == 1
            &&& 1 <= document.artifact.bytes <= 536_870_912
        },
{
}

/// An identity is verified exactly when it was read as one of this location and
/// this directory, and its bytes are the canonical ones.
pub proof fn law_store_identities_are_canonical(
    bytes: Seq<u8>,
    parsed: Option<StoreIdentityDocument>,
    location: LocalInstallStoreLocationClass,
    root_device: u64,
    root_inode: u64,
)
    ensures
        verified_store_identity(bytes, parsed, location, root_device, root_inode) is Ok <==> {
            &&& parsed matches Some(document) && document.store_schema_version == 1
                && document.location == location && document.root_device == root_device
                && document.root_inode == root_inode
            &&& encoded_store_identity(location, root_device, root_inode) == Ok::<
                Seq<u8>,
                StoreErrorView,
            >(bytes)
        },
        verified_store_identity(bytes, parsed, location, root_device, root_inode) matches Err(e)
            ==> e.kind == LocalInstallGenerationStoreErrorKind::CorruptState,
{
    law_store_identities_fit(location, root_device, root_inode);
}

/// Every document of a store says first of which schema and which generation of
/// the store it is; a current document then names what it accepts, retains and
/// retires, and a store identity the place where the store stands.
pub proof fn law_documents_say_where_they_belong(
    current: CurrentView,
    request: RequestView,
    bytes: u64,
    location: LocalInstallStoreLocationClass,
    root_device: u64,
    root_inode: u64,
)
    ensures
        ({
            let c = current_json(current);
            let g = generation_document_json(request, bytes);
            let s = store_identity_json(location, root_device, root_inode);
            let kind = Json::Text("glaeda_current_v1"@);
            let identity = |id: IdentityView| local_install_plan::identity_json(id);
            &&& canonical_json::has_member(
                c,
                0,
                "store_schema_version"@,
                Json::Number(current.store_schema_version as nat),
            )
            &&& canonical_json::has_member(c, 1, "store_generation"@, kind)
            &&& canonical_json::has_member(g, 0, "store_schema_version"@, Json::Number(1))
            &&& canonical_json::has_member(g, 1, "store_generation"@, kind)
            &&& canonical_json::has_member(g, 2, "operation_id"@, Json::Text(request.operation_id))
            &&& canonical_json::has_member(
                g,
                3,
                "request_digest"@,
                Json::Text(request.request_digest),
            )
            &&& canonical_json::has_member(
                g,
                4,
                "generation"@,
                local_install_generation_store::generation_json(request.candidate),
            )
            &&& canonical_json::has_member(g, 5, "artifact"@, artifact_json(bytes))
            &&& canonical_json::has_member(
                artifact_json(bytes),
                2,
                "mode"@,
                Json::Text("0500"@),
            )
            &&& canonical_json::has_member(
                artifact_json(bytes),
                4,
                "bytes"@,
                Json::Number(bytes as nat),
            )
            &&& canonical_json::has_member(s, 0, "store_schema_version"@, Json::Number(1))
            &&& canonical_json::has_member(s, 1, "store_generation"@, kind)
            &&& canonical_json::has_member(s, 2, "location"@, Json::Text(location.name()))
            &&& canonical_json::has_member(
                s,
                3,
                "root_device"@,
                Json::Number(root_device as nat),
            )
            &&& canonical_json::has_member(s, 4, "root_inode"@, Json::Number(root_inode as nat))
            &&& current.accepted matches Some(id) ==> canonical_json::has_member(
                c,
                2,
                "accepted"@,
                identity(id),
            )
            &&& current.accepted is Some ==> (current.retained matches Some(id)
                ==> canonical_json::has_member(c, 3, "retained"@, identity(id)))
            &&& current.accepted is Some && current.retained is Some ==> (
            current.retiring matches Some(id) ==> canonical_json::has_member(
                c,
                4,
                "retiring"@,
                identity(id),
            ))
        }),
{
}

} // verus!
