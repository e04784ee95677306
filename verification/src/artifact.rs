//! Identities of source revisions and artifacts.
use vstd::prelude::*;

use crate::text;

verus! {

#[derive(Debug, Clone, Copy, PartialEq, Eq, Structural)]
pub enum ArtifactIdentityError {
    InvalidCommit,
    InvalidTree,
    InvalidDigest,
}

pub open spec fn is_lower_hex_text(value: Seq<char>, length: nat) -> bool {
    value.len() == length && forall|i: int|
        0 <= i < value.len() ==> text::is_lower_hex(#[trigger] value[i])
}

/// `sha256:` followed by 64 lower-case hexadecimal digits.
pub open spec fn is_sha256(value: Seq<char>) -> bool {
    text::has_prefix(value, "sha256:"@) && is_lower_hex_text(value.skip("sha256:"@.len() as int), 64)
}

/// A `sha2::Sha256` hasher, which collects the bytes that it is given.
#[verifier::external_body]
pub struct Sha256Hasher {
    hasher: sha2::Sha256,
}

/// The bytes that a hasher has been given so far.
pub uninterp spec fn absorbed(hasher: Sha256Hasher) -> Seq<u8>;

/// The SHA-256 of a byte string.
pub uninterp spec fn sha256_of(bytes: Seq<u8>) -> Seq<u8>;

/// Outside function: `sha2::Sha256::new`.
///
/// A new hasher has been given nothing.
#[verifier::external_body]
fn sha256_new() -> (hasher: Sha256Hasher)
    ensures
        absorbed(hasher) == Seq::<u8>::empty(),
{
    Sha256Hasher { hasher: <sha2::Sha256 as sha2::Digest>::new() }
}

/// Outside function: `sha2::Sha256::update`.
///
/// The hasher takes the bytes behind those it was given before.
#[verifier::external_body]
fn sha256_update(hasher: &mut Sha256Hasher, bytes: &[u8])
    ensures
        absorbed(*final(hasher)) == absorbed(*old(hasher)) + bytes@,
{
    sha2::Digest::update(&mut hasher.hasher, bytes)
}

/// Outside function: `sha2::Sha256::finalize`.
///
/// The digest is 32 bytes and depends on the bytes that the hasher was given,
/// not on the pieces in which they came.
#[verifier::external_body]
fn sha256_finalize(hasher: Sha256Hasher) -> (digest: Vec<u8>)
    ensures
        digest@ == sha256_of(absorbed(hasher)),
        digest@.len() == 32,
{
    sha2::Digest::finalize(hasher.hasher).to_vec()
}

/// The canonical spelling of the SHA-256 of a byte string.
pub open spec fn digest_text(bytes: Seq<u8>) -> Seq<char> {
    "sha256:"@ + text::hex_text(sha256_of(bytes))
}

fn lower_hex_text(chars: &[char], length: usize) -> (r: bool)
    ensures
        r == is_lower_hex_text(chars@, length as nat),
{
    if chars.len() != length {
        return false;
    }
    let mut i: usize = 0;
    while i < chars.len()
        invariant
            i <= chars@.len(),
            forall|k: int| 0 <= k < i ==> text::is_lower_hex(#[trigger] chars@[k]),
        decreases chars@.len() - i,
    {
        let c = chars[i];
        if !(('0' <= c && c <= '9') || ('a' <= c && c <= 'f')) {
            assert(!text::is_lower_hex(chars@[i as int]));
            return false;
        }
        i += 1;
    }
    true
}

/// A git commit name: 40 lower-case hexadecimal digits.
#[derive(Debug, PartialEq, Eq, PartialOrd, Ord, Hash)]
pub struct CommitId(String);

impl Clone for CommitId {
    fn clone(&self) -> (copy: Self)
        ensures
            copy@ == self@,
    {
        CommitId(self.0.clone())
    }
}

impl View for CommitId {
    type V = Seq<char>;

    closed spec fn view(&self) -> Seq<char> {
        self.0@
    }
}

impl CommitId {
    pub fn parse(value: &str) -> (r: Result<Self, ArtifactIdentityError>)
        ensures
            match r {
                Ok(id) => is_lower_hex_text(value@, 40) && id@ == value@,
                Err(e) => !is_lower_hex_text(value@, 40) && e == ArtifactIdentityError::InvalidCommit,
            },
    {
        let chars = text::chars_of(value);
        if lower_hex_text(chars.as_slice(), 40) {
            Ok(CommitId(value.to_owned()))
        } else {
            Err(ArtifactIdentityError::InvalidCommit)
        }
    }

    pub fn as_str(&self) -> (value: &str)
        ensures
            value@ == self@,
    {
        self.0.as_str()
    }
}

/// A git tree name: 40 lower-case hexadecimal digits.
#[derive(Debug, PartialEq, Eq, PartialOrd, Ord, Hash)]
pub struct GitTreeId(String);

impl Clone for GitTreeId {
    fn clone(&self) -> (copy: Self)
        ensures
            copy@ == self@,
    {
        GitTreeId(self.0.clone())
    }
}

impl View for GitTreeId {
    type V = Seq<char>;

    closed spec fn view(&self) -> Seq<char> {
        self.0@
    }
}

impl GitTreeId {
    pub fn parse(value: &str) -> (r: Result<Self, ArtifactIdentityError>)
        ensures
            match r {
                Ok(id) => is_lower_hex_text(value@, 40) && id@ == value@,
                Err(e) => !is_lower_hex_text(value@, 40) && e == ArtifactIdentityError::InvalidTree,
            },
    {
        let chars = text::chars_of(value);
        if lower_hex_text(chars.as_slice(), 40) {
            Ok(GitTreeId(value.to_owned()))
        } else {
            Err(ArtifactIdentityError::InvalidTree)
        }
    }

    pub fn as_str(&self) -> (value: &str)
        ensures
            value@ == self@,
    {
        self.0.as_str()
    }
}

/// A SHA-256 digest in its canonical spelling.
#[derive(Debug, PartialEq, Eq, PartialOrd, Ord, Hash)]
pub struct Sha256Digest(String);

impl Clone for Sha256Digest {
    fn clone(&self) -> (copy: Self)
        ensures
            copy@ == self@,
    {
        Sha256Digest(self.0.clone())
    }
}

impl View for Sha256Digest {
    type V = Seq<char>;

    closed spec fn view(&self) -> Seq<char> {
        self.0@
    }
}

/// Whether `value` is a canonical SHA-256 spelling.
pub fn canonical_sha256(value: &str) -> (r: bool)
    ensures
        r == is_sha256(value@),
{
    let chars = text::chars_of(value);
    if !text::starts_with(chars.as_slice(), "sha256:") {
        return false;
    }
    proof {
        reveal_strlit("sha256:");
    }
    assert(chars@.skip(7) =~= chars@.subrange(7, chars@.len() as int));
    lower_hex_text(vstd::slice::slice_subrange(chars.as_slice(), 7, chars.len()), 64)
}

impl Sha256Digest {
    pub fn parse(value: &str) -> (r: Result<Self, ArtifactIdentityError>)
        ensures
            match r {
                Ok(id) => is_sha256(value@) && id@ == value@,
                Err(e) => !is_sha256(value@) && e == ArtifactIdentityError::InvalidDigest,
            },
    {
        if canonical_sha256(value) {
            Ok(Sha256Digest(value.to_owned()))
        } else {
            Err(ArtifactIdentityError::InvalidDigest)
        }
    }

    /// The digest of `bytes`.
    pub fn of_bytes(bytes: &[u8]) -> (digest: Self)
        ensures
            digest@ == digest_text(bytes@),
            is_sha256(digest@),
    {
        let mut stream = DigestStream::new();
        stream.update(bytes);
        assert(stream@ =~= bytes@);
        stream.finish()
    }

    pub fn as_str(&self) -> (value: &str)
        ensures
            value@ == self@,
    {
        self.0.as_str()
    }

    pub fn same_as(&self, other: &Self) -> (same: bool)
        ensures
            same == (self@ == other@),
    {
        self.0 == other.0
    }
}

/// A SHA-256 digest of bytes that arrive piece by piece.
pub struct DigestStream {
    hasher: Sha256Hasher,
}

impl View for DigestStream {
    type V = Seq<u8>;

    /// The bytes that have arrived.
    closed spec fn view(&self) -> Seq<u8> {
        absorbed(self.hasher)
    }
}

impl DigestStream {
    pub fn new() -> (stream: Self)
        ensures
            stream@ == Seq::<u8>::empty(),
    {
        DigestStream { hasher: sha256_new() }
    }

    /// Takes one more piece.
    pub fn update(&mut self, bytes: &[u8])
        ensures
            final(self)@ == old(self)@ + bytes@,
    {
        sha256_update(&mut self.hasher, bytes);
    }

    /// The digest of all bytes that have arrived.
    pub fn finish(self) -> (digest: Sha256Digest)
        ensures
            digest@ == digest_text(self@),
            is_sha256(digest@),
    {
        let ghost bytes = self@;
        let raw = sha256_finalize(self.hasher);
        let hex = text::hex_of(raw.as_slice());
        proof {
            lemma_digest_text(bytes, raw@);
        }
        Sha256Digest(text::joined("sha256:", hex.as_str()))
    }
}

proof fn lemma_digest_text(bytes: Seq<u8>, raw: Seq<u8>)
    requires
        raw == sha256_of(bytes),
        raw.len() == 32,
    ensures
        is_sha256(digest_text(bytes)),
{
    reveal_strlit("sha256:");
    text::lemma_hex_text(raw);
    let value = digest_text(bytes);
    assert(value.take(7) =~= "sha256:"@);
    assert(value.skip(7) =~= text::hex_text(raw));
}

/// A digest is spelled `sha256:` and sixty-four lower-case hexadecimal digits,
/// and a git object by forty of them; nothing longer, shorter or in capitals is
/// one.
pub proof fn law_identities_have_fixed_forms(value: Seq<char>)
    ensures
        is_sha256(value) <==> {
            &&& value.len() == 71
            &&& value.take(7) == seq!['s', 'h', 'a', '2', '5', '6', ':']
            &&& forall|i: int|
                7 <= i < 71 ==> {
                    let c = (#[trigger] value[i]) as int;
                    48 <= c <= 57 || 97 <= c <= 102
                }
        },
        is_lower_hex_text(value, 40) <==> {
            &&& value.len() == 40
            &&& forall|i: int|
                0 <= i < 40 ==> {
                    let c = (#[trigger] value[i]) as int;
                    48 <= c <= 57 || 97 <= c <= 102
                }
        },
{
    reveal_strlit("sha256:");
    assert("sha256:"@ =~= seq!['s', 'h', 'a', '2', '5', '6', ':']);
    if value.len() >= 7 {
        let rest = value.skip(7);
        assert forall|i: int| 7 <= i < value.len() implies #[trigger] value[i] == rest[i - 7] by {}
        assert forall|i: int| 0 <= i < rest.len() implies #[trigger] rest[i] == value[i + 7] by {}
    }
}

} // verus!
