//! Identity and checksum helpers: content hashing for image ids and the
//! crc32-based hashing used for bucket names and sizing presets.

use sha2::Digest;
use std::hash::Hash;
use vstd::prelude::*;

verus! {

/// Digest of the SHA-256 function, 32 bytes for any input.
///
/// The algorithm itself is out of scope; the digest is named so that
/// contracts can state that equal payloads produce equal image ids.
pub uninterp spec fn sha256_of(data: Seq<u8>) -> Seq<u8>;

/// Hash of a string as produced by feeding it through a crc32 hasher
/// via `std::hash::Hash`. A pure function of the characters alone.
pub uninterp spec fn crc_hash_of(s: Seq<char>) -> u32;

/// Plain crc32 checksum of a byte payload.
pub uninterp spec fn crc32_of(data: Seq<u8>) -> u32;

/// Lower-case hex digit for a nibble.
pub open spec fn hex_digit(n: int) -> char {
    if n == 0 { '0' } else if n == 1 { '1' } else if n == 2 { '2' } else if n == 3 { '3' }
    else if n == 4 { '4' } else if n == 5 { '5' } else if n == 6 { '6' } else if n == 7 { '7' }
    else if n == 8 { '8' } else if n == 9 { '9' } else if n == 10 { 'a' } else if n == 11 { 'b' }
    else if n == 12 { 'c' } else if n == 13 { 'd' } else if n == 14 { 'e' } else { 'f' }
}

/// Lower-case hex encoding of a byte sequence: two digits per byte.
pub open spec fn hex_of(data: Seq<u8>) -> Seq<char>
    decreases data.len(),
{
    if data.len() == 0 {
        seq![]
    } else {
        seq![hex_digit((data.first() >> 4) as int), hex_digit((data.first() & 0x0f) as int)]
            + hex_of(data.drop_first())
    }
}

/// The hex-encoded content hash used as an image id.
pub open spec fn image_id_of(data: Seq<u8>) -> Seq<char> {
    hex_of(sha256_of(data))
}

/// Relies on sha2::Sha256: the digest is 32 bytes and depends on the
/// input bytes alone.
#[verifier::external_body]
fn sha256_digest(v: &[u8]) -> (r: Vec<u8>)
    ensures
        r@ == sha256_of(v@),
        r@.len() == 32,
{
    let mut hasher = sha2::Sha256::new();
    hasher.update(v);
    hasher.finalize().to_vec()
}

/// Relies on hex::encode: two lower-case digits per input byte, high
/// nibble first.
#[verifier::external_body]
fn hex_encode(v: &Vec<u8>) -> (r: String)
    ensures
        r@ == hex_of(v@),
{
    hex::encode(v)
}

/// Relies on crc32fast::Hasher and str's `Hash` impl: the result is a
/// pure function of the characters of `v`.
#[verifier::external_body]
pub fn crc_hash(v: &str) -> (r: u32)
    ensures
        r == crc_hash_of(v@),
{
    let mut hasher = crc32fast::Hasher::default();
    v.hash(&mut hasher);
    hasher.finalize()
}

/// Relies on crc32fast::hash: the crc32 checksum of the bytes.
#[verifier::external_body]
pub(crate) fn crc32_checksum(v: &[u8]) -> (r: u32)
    ensures
        r == crc32_of(v@),
{
    crc32fast::hash(v)
}

/// Content-addressed identity of an uploaded payload: the hex-encoded
/// SHA-256 digest of the raw bytes.
pub fn sha256_hash(v: &[u8]) -> (r: String)
    ensures
        r@ == image_id_of(v@),
        r@.len() == 64,
{
    let digest = sha256_digest(v);
    proof {
        lemma_hex_of_len(digest@);
    }
    hex_encode(&digest)
}

/// Hex encoding yields exactly two characters per byte.
pub proof fn lemma_hex_of_len(data: Seq<u8>)
    ensures
        hex_of(data).len() == 2 * data.len(),
    decreases data.len(),
{
    if data.len() > 0 {
        lemma_hex_of_len(data.drop_first());
    }
}

/// Content-addressing is idempotent: uploading the same byte payload
/// twice yields the same image id both times, for every payload.
pub proof fn lemma_image_id_idempotent(d1: Seq<u8>, d2: Seq<u8>)
    requires
        d1 == d2,
    ensures
        image_id_of(d1) == image_id_of(d2),
{
}

/// Hex digits are plain characters: never the separator used by cache keys.
pub proof fn lemma_hex_of_colon_free(data: Seq<u8>)
    ensures
        forall|i: int| 0 <= i < hex_of(data).len() ==> hex_of(data)[i] != ':',
    decreases data.len(),
{
    if data.len() > 0 {
        lemma_hex_of_colon_free(data.drop_first());
        let b = data.first();
        assert(0 <= (b >> 4) < 16 && 0 <= (b & 0x0f) < 16) by (bit_vector);
        assert forall|i: int| 0 <= i < hex_of(data).len() implies hex_of(data)[i] != ':' by {
            if i >= 2 {
                assert(hex_of(data)[i] == hex_of(data.drop_first())[i - 2]);
            }
        }
    }
}

} // verus!
