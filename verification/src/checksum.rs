//! SHA-256 checksums of stored files and of short texts.

use sha2::Digest;
use vstd::prelude::*;
use vstd::string::StringSliceAdditionalSpecFns;
use vstd::utf8::encode_utf8;

verus! {

/// What `format!("{:x}", ..)` of the SHA-256 digest of `data` gives.
pub uninterp spec fn sha256_hex_bytes(data: Seq<u8>) -> Seq<char>;

/// A lower-case hexadecimal digit.
pub open spec fn is_lower_hex(c: char) -> bool {
    ('0' <= c && c <= '9') || ('a' <= c && c <= 'f')
}

/// A running SHA-256 checksum of a file read in chunks. It holds a
/// `sha2::Sha256` hasher, hidden from Verus; `digest_fed` names the bytes
/// it has been fed.
#[verifier::external_body]
pub struct FileDigest {
    hasher: sha2::Sha256,
}

/// The bytes a checksum has been fed so far.
pub uninterp spec fn digest_fed(digest: FileDigest) -> Seq<u8>;

impl FileDigest {
    /// The bytes fed so far.
    pub open spec fn fed(&self) -> Seq<u8> {
        digest_fed(*self)
    }

    /// A checksum of nothing yet.
    pub fn new() -> (r: FileDigest)
        ensures
            r.fed() == Seq::<u8>::empty(),
    {
        digest_new()
    }

    /// Feeds the next chunk.
    pub fn update(&mut self, chunk: &[u8])
        ensures
            final(self).fed() == old(self).fed() + chunk@,
    {
        digest_update(self, chunk);
    }

    /// The checksum of all that was fed, in lower-case hexadecimal.
    pub fn finish(self) -> (r: String)
        ensures
            r@ == sha256_hex_bytes(self.fed()),
            r@.len() == 64,
            forall|i: int| 0 <= i < 64 ==> is_lower_hex(#[trigger] r@[i]),
    {
        digest_finish(self)
    }
}

/// Calls `sha2::Sha256::new()`: a hasher that has been fed nothing.
#[verifier::external_body]
fn digest_new() -> (r: FileDigest)
    ensures
        digest_fed(r) == Seq::<u8>::empty(),
{
    FileDigest { hasher: sha2::Sha256::new() }
}

/// Calls `Digest::update` on the hasher: the chunk is appended to what was
/// fed.
#[verifier::external_body]
fn digest_update(digest: &mut FileDigest, chunk: &[u8])
    ensures
        digest_fed(*final(digest)) == digest_fed(*old(digest)) + chunk@,
{
    digest.hasher.update(chunk);
}

/// Calls `Digest::finalize` and writes the digest with `{:x}`, which
/// `generic_array` prints two lower-case hexadecimal digits a byte: 64
/// characters. The digest itself is only named.
#[verifier::external_body]
fn digest_finish(digest: FileDigest) -> (r: String)
    ensures
        r@ == sha256_hex_bytes(digest_fed(digest)),
        r@.len() == 64,
        forall|i: int| 0 <= i < 64 ==> is_lower_hex(#[trigger] r@[i]),
{
    format!("{:x}", digest.hasher.finalize())
}

/// The SHA-256 checksum of a text's UTF-8 bytes, in lower-case hexadecimal.
pub fn sha256_of_text(text: &str) -> (r: String)
    ensures
        r@ == sha256_hex_bytes(encode_utf8(text@)),
        r@.len() == 64,
        forall|i: int| 0 <= i < 64 ==> is_lower_hex(#[trigger] r@[i]),
{
    let mut digest = FileDigest::new();
    digest.update(text.as_bytes());
    assert(Seq::<u8>::empty() + text.spec_bytes() =~= text.spec_bytes());
    digest.finish()
}

/// The checksum of what a Codex run is given: the analysis bundle followed
/// by the refinement prompt's UTF-8 bytes.
pub fn agent_input_checksum(bundle: &[u8], prompt: &str) -> (r: String)
    ensures
        r@ == sha256_hex_bytes(bundle@ + encode_utf8(prompt@)),
        r@.len() == 64,
{
    let mut digest = FileDigest::new();
    digest.update(bundle);
    digest.update(prompt.as_bytes());
    assert(Seq::<u8>::empty() + bundle@ + prompt.spec_bytes() =~= bundle@ + encode_utf8(prompt@));
    digest.finish()
}

} // verus!
