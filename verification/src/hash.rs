//! Stable 64-bit fingerprint hashing and hex-digest helpers.
use std::collections::hash_map::DefaultHasher;
use std::hash::Hasher;
use vstd::prelude::*;
use vstd::std_specs::hash::DefaultHasherAdditionalSpecFns;

use crate::text::{ascii_chars, ascii_to_string, hex_of, is_hex_byte, lemma_hex_of_digits,
    push_u64_hex};

verus! {

/// The stable 64-bit fingerprint of a byte string: one hasher write
/// followed by finish, with the process-independent default hasher.
pub open spec fn spec_hash64(s: Seq<u8>) -> u64 {
    DefaultHasher::spec_finish(seq![s])
}

/// Hashes a byte string with the default hasher, whose `new` is
/// documented to start from the same state in every process.
pub fn calculate_hash(bytes: &[u8]) -> (r: u64)
    ensures
        r == spec_hash64(bytes@),
{
    let mut h = DefaultHasher::new();
    h.write(bytes);
    proof {
        assert(h@ =~~= seq![bytes@]);
    }
    h.finish()
}

/// The fingerprint of a byte string rendered as lowercase hex, as the
/// artifact paths use it.
pub fn calculate_hash_str(bytes: &[u8]) -> (r: String)
    ensures
        r@ == ascii_chars(hex_of(spec_hash64(bytes@) as nat)),
{
    let h = calculate_hash(bytes);
    let mut v: Vec<u8> = Vec::new();
    push_u64_hex(&mut v, h);
    proof {
        lemma_hex_of_digits(h as nat);
    }
    ascii_to_string(v)
}

/// Name for the SHA-1 hex digest: a pure function of the input bytes.
pub uninterp spec fn sha1_hex_of(data: Seq<u8>) -> Seq<u8>;

/// Relies on `sha1::Sha1` (`update`, then `finalize` rendered `{:x}`):
/// the digest depends on the input bytes alone and prints as 40
/// lowercase hexadecimal digits.
#[verifier::external_body]
fn sha1_hex_bytes(data: &[u8]) -> (r: Vec<u8>)
    ensures
        r@ == sha1_hex_of(data@),
        r@.len() == 40,
        forall|i: int|
            0 <= i < r@.len() ==> is_hex_byte(#[trigger] r@[i]) && r@[i] < 0x80 && !(0x41 <= r@[i]
                <= 0x46),
{
    let mut m = <sha1::Sha1 as sha1::Digest>::new();
    sha1::Digest::update(&mut m, data);
    format!("{:x}", sha1::Digest::finalize(m)).into_bytes()
}

/// SHA-1 digest of `data` as a 40-character lowercase hex string.
pub fn sha1_hex(data: &[u8]) -> (r: String)
    ensures
        r@ == ascii_chars(sha1_hex_of(data@)),
{
    let v = sha1_hex_bytes(data);
    ascii_to_string(v)
}

/// The digest bytes themselves, for signature comparison: 40 lowercase
/// hexadecimal digits.
pub fn sha1_hex_digest(data: &[u8]) -> (r: Vec<u8>)
    ensures
        r@ == sha1_hex_of(data@),
        r@.len() == 40,
        forall|i: int|
            0 <= i < r@.len() ==> is_hex_byte(#[trigger] r@[i]) && r@[i] < 0x80 && !(0x41 <= r@[i]
                <= 0x46),
{
    sha1_hex_bytes(data)
}

/// A lowercase hexadecimal digit, as the service renders digests.
pub open spec fn is_lower_hex_digit(c: char) -> bool {
    ('0' <= c && c <= '9') || ('a' <= c && c <= 'f')
}

/// Whether `s` has the shape of a lowercase hex SHA-256 checksum:
/// exactly 64 lowercase hexadecimal digits.
pub open spec fn spec_is_sha256_checksum(s: Seq<char>) -> bool {
    s.len() == 64 && forall|i: int| 0 <= i < s.len() ==> is_lower_hex_digit(#[trigger] s[i])
}

/// Checks that a string is a well-formed lowercase hex SHA-256 checksum.
pub fn is_sha256_checksum(s: &str) -> (r: bool)
    ensures
        r == spec_is_sha256_checksum(s@),
{
    let len = s.unicode_len();
    if len != 64 {
        return false;
    }
    let mut i: usize = 0;
    while i < 64
        invariant
            i <= 64,
            s@.len() == 64,
            forall|j: int| 0 <= j < i ==> is_lower_hex_digit(#[trigger] s@[j]),
        decreases 64 - i,
    {
        let c = s.get_char(i);
        let ok = ('0' <= c && c <= '9') || ('a' <= c && c <= 'f');
        if !ok {
            return false;
        }
        i = i + 1;
    }
    true
}

} // verus!
