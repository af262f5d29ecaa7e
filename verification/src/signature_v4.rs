//! Presigned-URL codec: time-limited signed references to stored
//! artifacts. A URL is signed with a SHA-1 hex digest over the canonical
//! JSON of its path and metadata, carried in five `X-Amz-*` query
//! parameters, and verified against the request path and the clock.
use vstd::prelude::*;

use crate::hash::{sha1_hex_digest, sha1_hex_of};
use crate::qs::{count_key, decode_pair, lemma_count_lookup_snoc, lemma_count_prefix,
    lemma_split_on_concat, lemma_split_on_whole, lemma_split_pair_concat, lookup, parse_query,
    parse_query_into, split_on, QsPair};
use crate::text::{all_digits, ascii_bytes, ascii_chars, ascii_to_string, bytes_eq,
    bytes_to_string, dec_of, dec_val, hex_digit_lower, hex_digit_lower_exec, key_is,
    lemma_ascii_chars_bytes, lemma_dec_of_val, lemma_digits_unreserved, lemma_pct_encode_ascii,
    lemma_pct_encode_avoids, lemma_pct_plain, lemma_pct_round_trip, parse_u64_dec, pct_encode,
    pct_encode_push, push_ascii, push_u64_dec};
use vstd::utf8::encode_utf8;
use vstd::utf8::valid_utf8;

verus! {

/// How long a freshly signed URL stays valid, in seconds.
pub const SIGNATURE_TTL_SECS: u64 = 3600;

/// JSON string escaping of one byte, exactly as the canonical serializer
/// writes it: quote and backslash get a backslash, the short control
/// escapes are used where they exist, other control bytes become
/// `\u00xx`, and everything else stands as itself.
pub open spec fn json_escape_byte(b: u8) -> Seq<u8> {
    if b == 0x22 {
        seq![0x5cu8, 0x22]
    } else if b == 0x5c {
        seq![0x5cu8, 0x5c]
    } else if b == 0x08 {
        seq![0x5cu8, 0x62]
    } else if b == 0x09 {
        seq![0x5cu8, 0x74]
    } else if b == 0x0a {
        seq![0x5cu8, 0x6e]
    } else if b == 0x0c {
        seq![0x5cu8, 0x66]
    } else if b == 0x0d {
        seq![0x5cu8, 0x72]
    } else if b < 0x20 {
        seq![0x5cu8, 0x75, 0x30, 0x30, hex_digit_lower((b / 16) as nat), hex_digit_lower(
            (b % 16) as nat,
        )]
    } else {
        seq![b]
    }
}

/// JSON string escaping of a byte string.
pub open spec fn json_escape(s: Seq<u8>) -> Seq<u8>
    decreases s.len(),
{
    if s.len() == 0 {
        Seq::empty()
    } else {
        json_escape_byte(s[0]) + json_escape(s.drop_first())
    }
}

/// Escaping a string one byte longer appends that byte's escape.
pub proof fn lemma_json_escape_snoc(s: Seq<u8>, b: u8)
    ensures
        json_escape(s.push(b)) == json_escape(s) + json_escape_byte(b),
    decreases s.len(),
{
    if s.len() == 0 {
        assert(s.push(b)[0] == b);
        assert(s.push(b).drop_first() =~= Seq::<u8>::empty());
        assert(json_escape(Seq::<u8>::empty()) == Seq::<u8>::empty());
        assert(json_escape(s.push(b)) == json_escape_byte(b) + Seq::<u8>::empty());
        assert(json_escape_byte(b) + Seq::<u8>::empty() =~= json_escape_byte(b));
        assert(json_escape(s) + json_escape_byte(b) =~= json_escape_byte(b));
    } else {
        assert(s.push(b).drop_first() =~= s.drop_first().push(b));
        lemma_json_escape_snoc(s.drop_first(), b);
        assert(s.push(b)[0] == s[0]);
        assert(json_escape(s.push(b)) == json_escape_byte(s[0]) + (json_escape(s.drop_first())
            + json_escape_byte(b)));
        assert(json_escape_byte(s[0]) + (json_escape(s.drop_first()) + json_escape_byte(b)) =~= (
        json_escape_byte(s[0]) + json_escape(s.drop_first())) + json_escape_byte(b));
    }
}

/// Appends the JSON escaping of `s` to `out`.
fn json_escape_push(out: &mut Vec<u8>, s: &[u8])
    ensures
        final(out)@ == old(out)@ + json_escape(s@),
{
    let mut i: usize = 0;
    proof {
        assert(s@.take(0) =~= Seq::<u8>::empty());
        assert(out@ =~= old(out)@ + json_escape(s@.take(0)));
    }
    while i < s.len()
        invariant
            i <= s@.len(),
            out@ == old(out)@ + json_escape(s@.take(i as int)),
        decreases s@.len() - i,
    {
        let b = s[i];
        if b == 0x22 {
            out.push(0x5c);
            out.push(0x22);
        } else if b == 0x5c {
            out.push(0x5c);
            out.push(0x5c);
        } else if b == 0x08 {
            out.push(0x5c);
            out.push(0x62);
        } else if b == 0x09 {
            out.push(0x5c);
            out.push(0x74);
        } else if b == 0x0a {
            out.push(0x5c);
            out.push(0x6e);
        } else if b == 0x0c {
            out.push(0x5c);
            out.push(0x66);
        } else if b == 0x0d {
            out.push(0x5c);
            out.push(0x72);
        } else if b < 0x20 {
            out.push(0x5c);
            out.push(0x75);
            out.push(0x30);
            out.push(0x30);
            out.push(hex_digit_lower_exec(b / 16));
            out.push(hex_digit_lower_exec(b % 16));
        } else {
            out.push(b);
        }
        proof {
            lemma_json_escape_snoc(s@.take(i as int), s@[i as int]);
            assert(s@.take(i as int).push(s@[i as int]) =~= s@.take(i as int + 1));
            assert(out@ =~= old(out)@ + json_escape(s@.take(i as int + 1)));
        }
        i = i + 1;
    }
    proof {
        assert(s@.take(i as int) =~= s@);
    }
}

/// The canonical JSON that is signed: the five fields in declaration
/// order, strings escaped, numbers in decimal, no whitespace.
pub open spec fn json_of(path: Seq<u8>, alg: Seq<u8>, cred: Seq<u8>, date: u64, expires: u64) -> Seq<
    u8,
> {
    ascii_bytes("{\"path\":\""@) + json_escape(path) + ascii_bytes("\",\"x_amz_algorithm\":\""@)
        + json_escape(alg) + ascii_bytes("\",\"x_amz_credential\":\""@) + json_escape(cred)
        + ascii_bytes("\",\"x_amz_date\":"@) + dec_of(date as nat) + ascii_bytes(
        ",\"x_amz_expires\":"@,
    ) + dec_of(expires as nat) + ascii_bytes("}"@)
}

/// Builds the canonical JSON bytes for the given field values.
fn build_json(path: &[u8], alg: &[u8], cred: &[u8], date: u64, expires: u64) -> (r: Vec<u8>)
    ensures
        r@ == json_of(path@, alg@, cred@, date, expires),
{
    let mut out: Vec<u8> = Vec::new();
    proof {
        reveal_strlit("{\"path\":\"");
        reveal_strlit("\",\"x_amz_algorithm\":\"");
        reveal_strlit("\",\"x_amz_credential\":\"");
        reveal_strlit("\",\"x_amz_date\":");
        reveal_strlit(",\"x_amz_expires\":");
        reveal_strlit("}");
    }
    push_ascii(&mut out, "{\"path\":\"");
    json_escape_push(&mut out, path);
    push_ascii(&mut out, "\",\"x_amz_algorithm\":\"");
    json_escape_push(&mut out, alg);
    push_ascii(&mut out, "\",\"x_amz_credential\":\"");
    json_escape_push(&mut out, cred);
    push_ascii(&mut out, "\",\"x_amz_date\":");
    push_u64_dec(&mut out, date);
    push_ascii(&mut out, ",\"x_amz_expires\":");
    push_u64_dec(&mut out, expires);
    push_ascii(&mut out, "}");
    proof {
        assert(out@ =~= json_of(path@, alg@, cred@, date, expires));
    }
    out
}

/// A presigned URL: a path and the four signed metadata fields.
pub struct PresignedUrl {
    pub path: String,
    pub x_amz_algorithm: String,
    pub x_amz_credential: String,
    pub x_amz_date: u64,
    pub x_amz_expires: u64,
}

/// The query parameters of a presigned URL, signature included.
pub struct PresignedQs {
    pub x_amz_algorithm: String,
    pub x_amz_credential: String,
    pub x_amz_date: u64,
    pub x_amz_expires: u64,
    pub x_amz_signature: String,
}

/// The signature over the given field texts: the SHA-1 hex digest of
/// their canonical JSON.
pub open spec fn spec_sign_of(
    path: Seq<char>,
    alg: Seq<char>,
    cred: Seq<char>,
    date: u64,
    expires: u64,
) -> Seq<u8> {
    sha1_hex_of(json_of(encode_utf8(path), encode_utf8(alg), encode_utf8(cred), date, expires))
}

/// The signature of a presigned URL: the SHA-1 hex digest of its
/// canonical JSON.
pub open spec fn spec_sign(p: PresignedUrl) -> Seq<u8> {
    spec_sign_of(p.path@, p.x_amz_algorithm@, p.x_amz_credential@, p.x_amz_date, p.x_amz_expires)
}

/// The serialized query string over the given field texts: the five
/// parameters in fixed order, values form-urlencoded.
pub open spec fn spec_qs_of(
    path: Seq<char>,
    alg: Seq<char>,
    cred: Seq<char>,
    date: u64,
    expires: u64,
) -> Seq<u8> {
    ascii_bytes("X-Amz-Algorithm="@) + pct_encode(encode_utf8(alg)) + ascii_bytes(
        "&X-Amz-Credential="@,
    ) + pct_encode(encode_utf8(cred)) + ascii_bytes("&X-Amz-Date="@) + dec_of(date as nat)
        + ascii_bytes("&X-Amz-Expires="@) + dec_of(expires as nat) + ascii_bytes(
        "&X-Amz-Signature="@,
    ) + pct_encode(spec_sign_of(path, alg, cred, date, expires))
}

/// The serialized query string of a presigned URL: the five parameters
/// in fixed order, values form-urlencoded.
pub open spec fn spec_qs(p: PresignedUrl) -> Seq<u8> {
    spec_qs_of(p.path@, p.x_amz_algorithm@, p.x_amz_credential@, p.x_amz_date, p.x_amz_expires)
}

impl PresignedUrl {
    /// Creates a presigned URL for `path`, issued at `now` and valid for
    /// an hour, credentialed with the bucket's access key.
    pub fn new(path: &str, access_key_id: &str, now: u64) -> (r: PresignedUrl)
        ensures
            r.path@ == path@,
            r.x_amz_algorithm@ == "AWS4-HMAC-SHA256"@,
            r.x_amz_credential@ == access_key_id@,
            r.x_amz_date == now,
            r.x_amz_expires == SIGNATURE_TTL_SECS,
    {
        PresignedUrl {
            path: path.to_owned(),
            x_amz_algorithm: "AWS4-HMAC-SHA256".to_owned(),
            x_amz_credential: access_key_id.to_owned(),
            x_amz_date: now,
            x_amz_expires: SIGNATURE_TTL_SECS,
        }
    }

    /// The signature bytes: 40 lowercase hex digits.
    fn sign_bytes(&self) -> (r: Vec<u8>)
        ensures
            r@ == spec_sign(*self),
            r@.len() == 40,
            forall|i: int|
                0 <= i < r@.len() ==> crate::text::is_hex_byte(#[trigger] r@[i]) && r@[i] < 0x80
                    && !(0x41 <= r@[i] <= 0x46),
    {
        let path_b = self.path.as_str().as_bytes_vec();
        let alg_b = self.x_amz_algorithm.as_str().as_bytes_vec();
        let cred_b = self.x_amz_credential.as_str().as_bytes_vec();
        let json = build_json(
            path_b.as_slice(),
            alg_b.as_slice(),
            cred_b.as_slice(),
            self.x_amz_date,
            self.x_amz_expires,
        );
        sha1_hex_digest(json.as_slice())
    }

    /// The signature as a string of exactly 40 lowercase hex digits.
    pub fn sign(&self) -> (r: String)
        ensures
            r@ == ascii_chars(spec_sign(*self)),
            encode_utf8(r@) == spec_sign(*self),
            r@.len() == 40,
            forall|i: int|
                0 <= i < r@.len() ==> crate::hash::is_lower_hex_digit(#[trigger] r@[i]),
    {
        let b = self.sign_bytes();
        proof {
            lemma_ascii_chars_bytes(b@);
            assert(forall|i: int|
                0 <= i < b@.len() ==> crate::hash::is_lower_hex_digit(
                    #[trigger] ascii_chars(b@)[i],
                ));
        }
        ascii_to_string(b)
    }

    /// Serializes the five query parameters, signature included.
    pub fn to_qs(&self) -> (r: String)
        ensures
            r@ == ascii_chars(spec_qs(*self)),
            encode_utf8(r@) == spec_qs(*self),
    {
        let mut out: Vec<u8> = Vec::new();
        proof {
            reveal_strlit("X-Amz-Algorithm=");
            reveal_strlit("&X-Amz-Credential=");
            reveal_strlit("&X-Amz-Date=");
            reveal_strlit("&X-Amz-Expires=");
            reveal_strlit("&X-Amz-Signature=");
        }
        let alg_b = self.x_amz_algorithm.as_str().as_bytes_vec();
        let cred_b = self.x_amz_credential.as_str().as_bytes_vec();
        let sig_b = self.sign_bytes();
        push_ascii(&mut out, "X-Amz-Algorithm=");
        pct_encode_push(&mut out, alg_b.as_slice());
        push_ascii(&mut out, "&X-Amz-Credential=");
        pct_encode_push(&mut out, cred_b.as_slice());
        push_ascii(&mut out, "&X-Amz-Date=");
        push_u64_dec(&mut out, self.x_amz_date);
        push_ascii(&mut out, "&X-Amz-Expires=");
        push_u64_dec(&mut out, self.x_amz_expires);
        push_ascii(&mut out, "&X-Amz-Signature=");
        pct_encode_push(&mut out, sig_b.as_slice());
        proof {
            assert(out@ =~= spec_qs(*self));
            lemma_qs_ascii(*self, sig_b@);
            lemma_ascii_chars_bytes(out@);
        }
        ascii_to_string(out)
    }

    /// The full redirect target: path, `?`, and the query string.
    pub fn to_url(&self) -> (r: String)
        ensures
            r@ == self.path@ + "?"@ + ascii_chars(spec_qs(*self)),
    {
        let mut r = self.path.clone();
        r.append("?");
        let qs = self.to_qs();
        r.append(qs.as_str());
        r
    }
}

/// How a failed verification is classified.
#[derive(Clone, Copy, Debug, PartialEq, Eq, Structural)]
pub enum PresignErrorKind {
    /// The query does not parse as exactly the five signed parameters.
    MalformedQuery,
    /// The clock stands before the issue time.
    NotYetValid,
    /// The validity window has passed.
    Expired,
    /// The signature does not match the path and metadata.
    BadSignature,
}

/// Error returned when a presigned URL fails verification.
#[derive(Clone, Copy, Debug, PartialEq, Eq, Structural)]
pub struct ParsePresignedUrlError {
    pub kind: PresignErrorKind,
}

/// The query keys of a presigned URL.
pub open spec fn key_algorithm() -> Seq<u8> {
    ascii_bytes("X-Amz-Algorithm"@)
}

pub open spec fn key_credential() -> Seq<u8> {
    ascii_bytes("X-Amz-Credential"@)
}

pub open spec fn key_date() -> Seq<u8> {
    ascii_bytes("X-Amz-Date"@)
}

pub open spec fn key_expires() -> Seq<u8> {
    ascii_bytes("X-Amz-Expires"@)
}

pub open spec fn key_signature() -> Seq<u8> {
    ascii_bytes("X-Amz-Signature"@)
}

/// A parsed query is exactly the five signed parameters, each once.
pub open spec fn valid_presigned_pairs(pairs: Seq<(Seq<u8>, Seq<u8>)>) -> bool {
    &&& pairs.len() == 5
    &&& count_key(pairs, key_algorithm()) == 1
    &&& count_key(pairs, key_credential()) == 1
    &&& count_key(pairs, key_date()) == 1
    &&& count_key(pairs, key_expires()) == 1
    &&& count_key(pairs, key_signature()) == 1
}

/// The five query keys are pairwise distinct byte strings.
pub proof fn lemma_keys_distinct()
    ensures
        key_algorithm() != key_credential(),
        key_algorithm() != key_date(),
        key_algorithm() != key_expires(),
        key_algorithm() != key_signature(),
        key_credential() != key_date(),
        key_credential() != key_expires(),
        key_credential() != key_signature(),
        key_date() != key_expires(),
        key_date() != key_signature(),
        key_expires() != key_signature(),
{
    reveal_strlit("X-Amz-Algorithm");
    reveal_strlit("X-Amz-Credential");
    reveal_strlit("X-Amz-Date");
    reveal_strlit("X-Amz-Expires");
    reveal_strlit("X-Amz-Signature");
    assert(key_algorithm().len() == 15);
    assert(key_credential().len() == 16);
    assert(key_date().len() == 10);
    assert(key_expires().len() == 13);
    assert(key_signature().len() == 15);
    assert(key_algorithm()[6] == 0x41);
    assert(key_signature()[6] == 0x53);
}

/// The five counts together never exceed the number of pairs, and they
/// reach it exactly when every key is one of the five.
pub proof fn lemma_count_partition(pairs: Seq<(Seq<u8>, Seq<u8>)>)
    ensures
        count_key(pairs, key_algorithm()) + count_key(pairs, key_credential()) + count_key(
            pairs,
            key_date(),
        ) + count_key(pairs, key_expires()) + count_key(pairs, key_signature()) <= pairs.len(),
        (count_key(pairs, key_algorithm()) + count_key(pairs, key_credential()) + count_key(
            pairs,
            key_date(),
        ) + count_key(pairs, key_expires()) + count_key(pairs, key_signature()) == pairs.len())
            <==> (forall|j: int|
            0 <= j < pairs.len() ==> is_presigned_key(#[trigger] pairs[j].0)),
    decreases pairs.len(),
{
    lemma_keys_distinct();
    if pairs.len() > 0 {
        lemma_count_partition(pairs.drop_first());
        let t = pairs.drop_first();
        assert(forall|j: int| 1 <= j < pairs.len() ==> pairs[j] == #[trigger] t[j - 1]);
        assert(forall|j: int| 0 <= j < t.len() ==> #[trigger] t[j].0 == pairs[j + 1].0);
        assert(forall|j: int| 1 <= j < pairs.len() ==> #[trigger] pairs[j].0 == t[j - 1].0);
        assert((forall|j: int| 0 <= j < pairs.len() ==> is_presigned_key(#[trigger] pairs[j].0))
            <==> (is_presigned_key(pairs[0].0) && (forall|j: int|
            0 <= j < t.len() ==> is_presigned_key(#[trigger] t[j].0))));
        assert(count_key(pairs, key_algorithm()) == (if pairs[0].0 == key_algorithm() {
            1nat
        } else {
            0nat
        }) + count_key(t, key_algorithm()));
        assert(count_key(pairs, key_credential()) == (if pairs[0].0 == key_credential() {
            1nat
        } else {
            0nat
        }) + count_key(t, key_credential()));
        assert(count_key(pairs, key_date()) == (if pairs[0].0 == key_date() {
            1nat
        } else {
            0nat
        }) + count_key(t, key_date()));
        assert(count_key(pairs, key_expires()) == (if pairs[0].0 == key_expires() {
            1nat
        } else {
            0nat
        }) + count_key(t, key_expires()));
        assert(count_key(pairs, key_signature()) == (if pairs[0].0 == key_signature() {
            1nat
        } else {
            0nat
        }) + count_key(t, key_signature()));
    }
}

/// Whether a key is one of the five signed parameters.
pub open spec fn is_presigned_key(k: Seq<u8>) -> bool {
    k == key_algorithm() || k == key_credential() || k == key_date() || k == key_expires() || k
        == key_signature()
}

/// The field values of a well-formed presigned query: algorithm,
/// credential, date, expires, signature. Fails unless the query parses,
/// carries exactly the five keys once each, the two numbers are decimal
/// `u64`s, and the credential is UTF-8.
pub open spec fn spec_parse_presigned(q: Seq<u8>) -> Option<(Seq<u8>, Seq<u8>, u64, u64, Seq<u8>)> {
    match parse_query(q) {
        None => None,
        Some(pairs) => {
            if valid_presigned_pairs(pairs) {
                let alg = lookup(pairs, key_algorithm()).unwrap();
                let cred = lookup(pairs, key_credential()).unwrap();
                let date_b = lookup(pairs, key_date()).unwrap();
                let exp_b = lookup(pairs, key_expires()).unwrap();
                let sig = lookup(pairs, key_signature()).unwrap();
                if date_b.len() > 0 && all_digits(date_b) && dec_val(date_b) <= u64::MAX
                    && exp_b.len() > 0 && all_digits(exp_b) && dec_val(exp_b) <= u64::MAX
                    && valid_utf8(cred) {
                    Some(
                        (alg, cred, dec_val(date_b) as u64, dec_val(exp_b) as u64, sig),
                    )
                } else {
                    None
                }
            } else {
                None
            }
        },
    }
}

/// What verifying a request against path `path_b`, query `q` and clock
/// `now` returns: the credential on success, else the failure kind, the
/// parse checked first, then the validity window, then the signature.
pub open spec fn spec_verify(path_b: Seq<u8>, q: Seq<u8>, now: u64) -> Result<
    Seq<u8>,
    PresignErrorKind,
> {
    match spec_parse_presigned(q) {
        None => Err(PresignErrorKind::MalformedQuery),
        Some((alg, cred, date, expires, sig)) => {
            if now < date {
                Err(PresignErrorKind::NotYetValid)
            } else if date + expires < now {
                Err(PresignErrorKind::Expired)
            } else if sig != sha1_hex_of(json_of(path_b, alg, cred, date, expires)) {
                Err(PresignErrorKind::BadSignature)
            } else {
                Ok(cred)
            }
        },
    }
}

impl PresignedUrl {
    /// Verifies the presigned query `query` against the request path and
    /// the clock `now`, returning the credential it carries. Fails with
    /// the matching kind when the query is malformed, the clock stands
    /// outside `[date, date + expires]`, or the signature does not match.
    #[verifier::loop_isolation(false)]
    pub fn verify_query(path: &str, query: &str, now: u64) -> (r: Result<
        String,
        ParsePresignedUrlError,
    >)
        ensures
            match r {
                Ok(cred) => spec_verify(encode_utf8(path@), encode_utf8(query@), now) == Ok::<
                    Seq<u8>,
                    PresignErrorKind,
                >(encode_utf8(cred@)),
                Err(e) => spec_verify(encode_utf8(path@), encode_utf8(query@), now) == Err::<
                    Seq<u8>,
                    PresignErrorKind,
                >(e.kind),
            },
    {
        let ghost q = encode_utf8(query@);
        let malformed = ParsePresignedUrlError { kind: PresignErrorKind::MalformedQuery };
        let qb = query.as_bytes_vec();
        let mut pairs: Vec<QsPair> = Vec::new();
        let parsed = parse_query_into(qb.as_slice(), 0, &mut pairs);
        proof {
            assert(qb@.skip(0) =~= q);
        }
        if !parsed {
            return Err(malformed);
        }
        let ghost pv = pairs@.map_values(|p: QsPair| p.view_pair());
        proof {
            assert(parse_query(q) == Some(pv));
        }
        proof {
            reveal_strlit("X-Amz-Algorithm");
            reveal_strlit("X-Amz-Credential");
            reveal_strlit("X-Amz-Date");
            reveal_strlit("X-Amz-Expires");
            reveal_strlit("X-Amz-Signature");
        }
        let mut alg_v: Option<Vec<u8>> = None;
        let mut cred_v: Option<Vec<u8>> = None;
        let mut date_v: Option<Vec<u8>> = None;
        let mut exp_v: Option<Vec<u8>> = None;
        let mut sig_v: Option<Vec<u8>> = None;
        let mut i: usize = 0;
        while i < pairs.len()
            invariant
                i <= pairs.len(),
                pv == pairs@.map_values(|p: QsPair| p.view_pair()),
                pv.len() == pairs@.len(),
                parse_query(q) == Some(pv),
                forall|j: int| 0 <= j < i ==> is_presigned_key(#[trigger] pv[j].0),
                match alg_v {
                    Some(v) => lookup(pv.take(i as int), key_algorithm()) == Some(v@),
                    None => lookup(pv.take(i as int), key_algorithm()) is None,
                },
                match cred_v {
                    Some(v) => lookup(pv.take(i as int), key_credential()) == Some(v@),
                    None => lookup(pv.take(i as int), key_credential()) is None,
                },
                match date_v {
                    Some(v) => lookup(pv.take(i as int), key_date()) == Some(v@),
                    None => lookup(pv.take(i as int), key_date()) is None,
                },
                match exp_v {
                    Some(v) => lookup(pv.take(i as int), key_expires()) == Some(v@),
                    None => lookup(pv.take(i as int), key_expires()) is None,
                },
                match sig_v {
                    Some(v) => lookup(pv.take(i as int), key_signature()) == Some(v@),
                    None => lookup(pv.take(i as int), key_signature()) is None,
                },
                count_key(pv.take(i as int), key_algorithm()) == (if alg_v is Some {
                    1nat
                } else {
                    0nat
                }),
                count_key(pv.take(i as int), key_credential()) == (if cred_v is Some {
                    1nat
                } else {
                    0nat
                }),
                count_key(pv.take(i as int), key_date()) == (if date_v is Some {
                    1nat
                } else {
                    0nat
                }),
                count_key(pv.take(i as int), key_expires()) == (if exp_v is Some {
                    1nat
                } else {
                    0nat
                }),
                count_key(pv.take(i as int), key_signature()) == (if sig_v is Some {
                    1nat
                } else {
                    0nat
                }),
            decreases pairs.len() - i,
        {
            proof {
                reveal_strlit("X-Amz-Algorithm");
                reveal_strlit("X-Amz-Credential");
                reveal_strlit("X-Amz-Date");
                reveal_strlit("X-Amz-Expires");
                reveal_strlit("X-Amz-Signature");
                assert(pv[i as int] == pairs@[i as int].view_pair());
                assert(pv.take(i as int + 1) =~~= pv.take(i as int).push(pv[i as int]));
                lemma_count_lookup_snoc(pv.take(i as int), pv[i as int], key_algorithm());
                lemma_count_lookup_snoc(pv.take(i as int), pv[i as int], key_credential());
                lemma_count_lookup_snoc(pv.take(i as int), pv[i as int], key_date());
                lemma_count_lookup_snoc(pv.take(i as int), pv[i as int], key_expires());
                lemma_count_lookup_snoc(pv.take(i as int), pv[i as int], key_signature());
                lemma_keys_distinct();
                assert(pv[i as int].0 == pairs@[i as int].key@);
                assert(pv[i as int].1 == pairs@[i as int].value@);
            }
            let v = vstd::slice::slice_to_vec(pairs[i].value.as_slice());
            if key_is(&pairs[i].key, "X-Amz-Algorithm") {
                if alg_v.is_some() {
                    proof {
                        assert(pv[i as int].0 == key_algorithm());
                        assert(count_key(pv.take(i as int + 1), key_algorithm()) == 2);
                        lemma_count_prefix(pv, key_algorithm(), i as int + 1);
                        assert(!valid_presigned_pairs(pv));
                        assert(spec_parse_presigned(q) is None);
                        assert(spec_verify(encode_utf8(path@), q, now) == Err::<
                            Seq<u8>,
                            PresignErrorKind,
                        >(PresignErrorKind::MalformedQuery));
                        assert(malformed.kind == PresignErrorKind::MalformedQuery);
                        assert(q == encode_utf8(query@));
                    }
                    return Err(malformed);
                }
                alg_v = Some(v);
            } else if key_is(&pairs[i].key, "X-Amz-Credential") {
                if cred_v.is_some() {
                    proof {
                        assert(pv[i as int].0 == key_credential());
                        assert(count_key(pv.take(i as int + 1), key_credential()) == 2);
                        lemma_count_prefix(pv, key_credential(), i as int + 1);
                        assert(!valid_presigned_pairs(pv));
                        assert(spec_parse_presigned(q) is None);
                        assert(spec_verify(encode_utf8(path@), q, now) == Err::<
                            Seq<u8>,
                            PresignErrorKind,
                        >(PresignErrorKind::MalformedQuery));
                        assert(malformed.kind == PresignErrorKind::MalformedQuery);
                        assert(q == encode_utf8(query@));
                    }
                    return Err(malformed);
                }
                cred_v = Some(v);
            } else if key_is(&pairs[i].key, "X-Amz-Date") {
                if date_v.is_some() {
                    proof {
                        assert(pv[i as int].0 == key_date());
                        assert(count_key(pv.take(i as int + 1), key_date()) == 2);
                        lemma_count_prefix(pv, key_date(), i as int + 1);
                        assert(!valid_presigned_pairs(pv));
                        assert(spec_parse_presigned(q) is None);
                        assert(spec_verify(encode_utf8(path@), q, now) == Err::<
                            Seq<u8>,
                            PresignErrorKind,
                        >(PresignErrorKind::MalformedQuery));
                        assert(malformed.kind == PresignErrorKind::MalformedQuery);
                        assert(q == encode_utf8(query@));
                    }
                    return Err(malformed);
                }
                date_v = Some(v);
            } else if key_is(&pairs[i].key, "X-Amz-Expires") {
                if exp_v.is_some() {
                    proof {
                        assert(pv[i as int].0 == key_expires());
                        assert(count_key(pv.take(i as int + 1), key_expires()) == 2);
                        lemma_count_prefix(pv, key_expires(), i as int + 1);
                        assert(!valid_presigned_pairs(pv));
                        assert(spec_parse_presigned(q) is None);
                        assert(spec_verify(encode_utf8(path@), q, now) == Err::<
                            Seq<u8>,
                            PresignErrorKind,
                        >(PresignErrorKind::MalformedQuery));
                        assert(malformed.kind == PresignErrorKind::MalformedQuery);
                        assert(q == encode_utf8(query@));
                    }
                    return Err(malformed);
                }
                exp_v = Some(v);
            } else if key_is(&pairs[i].key, "X-Amz-Signature") {
                if sig_v.is_some() {
                    proof {
                        assert(pv[i as int].0 == key_signature());
                        assert(count_key(pv.take(i as int + 1), key_signature()) == 2);
                        lemma_count_prefix(pv, key_signature(), i as int + 1);
                        assert(!valid_presigned_pairs(pv));
                        assert(spec_parse_presigned(q) is None);
                        assert(spec_verify(encode_utf8(path@), q, now) == Err::<
                            Seq<u8>,
                            PresignErrorKind,
                        >(PresignErrorKind::MalformedQuery));
                        assert(malformed.kind == PresignErrorKind::MalformedQuery);
                        assert(q == encode_utf8(query@));
                    }
                    return Err(malformed);
                }
                sig_v = Some(v);
            } else {
                proof {
                    assert(!is_presigned_key(pv[i as int].0));
                    if valid_presigned_pairs(pv) {
                        lemma_count_partition(pv);
                        assert(is_presigned_key(pv[i as int].0));
                        assert(false);
                    }
                    assert(!valid_presigned_pairs(pv));
                    assert(spec_parse_presigned(q) is None);
                    assert(spec_verify(encode_utf8(path@), q, now) == Err::<
                        Seq<u8>,
                        PresignErrorKind,
                    >(PresignErrorKind::MalformedQuery));
                    assert(malformed.kind == PresignErrorKind::MalformedQuery);
                    assert(q == encode_utf8(query@));
                }
                return Err(malformed);
            }
            i = i + 1;
        }
        proof {
            assert(pv.take(i as int) =~~= pv);
        }
        if alg_v.is_none() || cred_v.is_none() || date_v.is_none() || exp_v.is_none()
            || sig_v.is_none() {
            proof {
                assert(!valid_presigned_pairs(pv));
                assert(spec_parse_presigned(q) is None);
                assert(spec_verify(encode_utf8(path@), q, now) == Err::<
                    Seq<u8>,
                    PresignErrorKind,
                >(PresignErrorKind::MalformedQuery));
                assert(malformed.kind == PresignErrorKind::MalformedQuery);
                assert(q == encode_utf8(query@));
            }
            return Err(malformed);
        }
        let alg_b = alg_v.unwrap();
        let cred_b = cred_v.unwrap();
        let date_b = date_v.unwrap();
        let exp_b = exp_v.unwrap();
        let sig_b = sig_v.unwrap();
        proof {
            lemma_count_partition(pv);
            assert(valid_presigned_pairs(pv));
            assert(lookup(pv, key_algorithm()) == Some(alg_b@));
            assert(lookup(pv, key_credential()) == Some(cred_b@));
            assert(lookup(pv, key_date()) == Some(date_b@));
            assert(lookup(pv, key_expires()) == Some(exp_b@));
            assert(lookup(pv, key_signature()) == Some(sig_b@));
        }
        let date = match parse_u64_dec(date_b.as_slice()) {
            Some(d) => d,
            None => {
                proof {
                    assert(spec_parse_presigned(q) is None);
                    assert(spec_verify(encode_utf8(path@), q, now) == Err::<
                        Seq<u8>,
                        PresignErrorKind,
                    >(PresignErrorKind::MalformedQuery));
                    assert(malformed.kind == PresignErrorKind::MalformedQuery);
                    assert(q == encode_utf8(query@));
                }
                return Err(malformed);
            },
        };
        let expires = match parse_u64_dec(exp_b.as_slice()) {
            Some(e) => e,
            None => {
                proof {
                    assert(spec_parse_presigned(q) is None);
                    assert(spec_verify(encode_utf8(path@), q, now) == Err::<
                        Seq<u8>,
                        PresignErrorKind,
                    >(PresignErrorKind::MalformedQuery));
                    assert(malformed.kind == PresignErrorKind::MalformedQuery);
                    assert(q == encode_utf8(query@));
                }
                return Err(malformed);
            },
        };
        let cred_copy = vstd::slice::slice_to_vec(cred_b.as_slice());
        let cred_s = match crate::text::bytes_to_string(cred_copy) {
            Some(s) => s,
            None => {
                proof {
                    assert(spec_parse_presigned(q) is None);
                    assert(spec_verify(encode_utf8(path@), q, now) == Err::<
                        Seq<u8>,
                        PresignErrorKind,
                    >(PresignErrorKind::MalformedQuery));
                    assert(malformed.kind == PresignErrorKind::MalformedQuery);
                    assert(q == encode_utf8(query@));
                }
                return Err(malformed);
            },
        };
        proof {
            assert(spec_parse_presigned(q) == Some((alg_b@, cred_b@, date, expires, sig_b@)));
        }
        if now < date {
            return Err(ParsePresignedUrlError { kind: PresignErrorKind::NotYetValid });
        }
        match date.checked_add(expires) {
            Some(sum) => {
                if sum < now {
                    return Err(ParsePresignedUrlError { kind: PresignErrorKind::Expired });
                }
            },
            None => {},
        }
        let path_b = path.as_bytes_vec();
        let json = build_json(
            path_b.as_slice(),
            alg_b.as_slice(),
            cred_b.as_slice(),
            date,
            expires,
        );
        let computed = sha1_hex_digest(json.as_slice());
        if !bytes_eq(sig_b.as_slice(), computed.as_slice()) {
            return Err(ParsePresignedUrlError { kind: PresignErrorKind::BadSignature });
        }
        Ok(cred_s)
    }
}

/// Every byte of a serialized query string is ASCII, granted the
/// signature bytes are (the digest is hex, so they are).
proof fn lemma_qs_ascii(p: PresignedUrl, sig: Seq<u8>)
    requires
        sig == spec_sign(p),
        forall|i: int| 0 <= i < sig.len() ==> sig[i] < 0x80,
    ensures
        forall|i: int| 0 <= i < spec_qs(p).len() ==> (#[trigger] spec_qs(p)[i]) < 0x80,
{
    reveal_strlit("X-Amz-Algorithm=");
    reveal_strlit("&X-Amz-Credential=");
    reveal_strlit("&X-Amz-Date=");
    reveal_strlit("&X-Amz-Expires=");
    reveal_strlit("&X-Amz-Signature=");
    lemma_pct_encode_ascii(encode_utf8(p.x_amz_algorithm@));
    lemma_pct_encode_ascii(encode_utf8(p.x_amz_credential@));
    lemma_pct_encode_ascii(sig);
    lemma_dec_of_val(p.x_amz_date as nat);
    lemma_dec_of_val(p.x_amz_expires as nat);
}

/// A serialized presigned query parses back to exactly the field values
/// it was built from.
#[verifier::rlimit(100)]
pub proof fn lemma_parse_of_qs(p: PresignedUrl)
    ensures
        spec_parse_presigned(spec_qs(p)) == Some(
            (
                encode_utf8(p.x_amz_algorithm@),
                encode_utf8(p.x_amz_credential@),
                p.x_amz_date,
                p.x_amz_expires,
                spec_sign(p),
            ),
        ),
{
    reveal_strlit("X-Amz-Algorithm=");
    reveal_strlit("&X-Amz-Credential=");
    reveal_strlit("&X-Amz-Date=");
    reveal_strlit("&X-Amz-Expires=");
    reveal_strlit("&X-Amz-Signature=");
    reveal_strlit("X-Amz-Algorithm");
    reveal_strlit("X-Amz-Credential");
    reveal_strlit("X-Amz-Date");
    reveal_strlit("X-Amz-Expires");
    reveal_strlit("X-Amz-Signature");
    lemma_keys_distinct();
    let alg = encode_utf8(p.x_amz_algorithm@);
    let cred = encode_utf8(p.x_amz_credential@);
    let sig = spec_sign(p);
    let d = dec_of(p.x_amz_date as nat);
    let e = dec_of(p.x_amz_expires as nat);
    let k1 = key_algorithm();
    let k2 = key_credential();
    let k3 = key_date();
    let k4 = key_expires();
    let k5 = key_signature();
    let seg1 = k1 + seq![0x3du8] + pct_encode(alg);
    let seg2 = k2 + seq![0x3du8] + pct_encode(cred);
    let seg3 = k3 + seq![0x3du8] + d;
    let seg4 = k4 + seq![0x3du8] + e;
    let seg5 = k5 + seq![0x3du8] + pct_encode(sig);
    let q = spec_qs(p);
    lemma_dec_of_val(p.x_amz_date as nat);
    lemma_dec_of_val(p.x_amz_expires as nat);
    lemma_digits_unreserved(d);
    lemma_digits_unreserved(e);
    lemma_pct_encode_avoids(alg);
    lemma_pct_encode_avoids(cred);
    lemma_pct_encode_avoids(sig);
    lemma_pct_round_trip(alg);
    lemma_pct_round_trip(cred);
    lemma_pct_round_trip(sig);
    lemma_pct_plain(d);
    lemma_pct_plain(e);
    lemma_pct_plain(k1);
    lemma_pct_plain(k2);
    lemma_pct_plain(k3);
    lemma_pct_plain(k4);
    lemma_pct_plain(k5);
    // The query is the five segments joined by `&`.
    let rest4 = seg5;
    let rest3 = seg4 + seq![0x26u8] + rest4;
    let rest2 = seg3 + seq![0x26u8] + rest3;
    let rest1 = seg2 + seq![0x26u8] + rest2;
    assert(q =~= seg1 + seq![0x26u8] + rest1);
    // None of the segments contains a `&`.
    lemma_split_on_concat(seg1, rest1, 0x26);
    assert(rest1 =~= seg2 + seq![0x26u8] + rest2);
    lemma_split_on_concat(seg2, rest2, 0x26);
    assert(rest2 =~= seg3 + seq![0x26u8] + rest3);
    lemma_split_on_concat(seg3, rest3, 0x26);
    assert(rest3 =~= seg4 + seq![0x26u8] + rest4);
    lemma_split_on_concat(seg4, rest4, 0x26);
    lemma_split_on_whole(seg5, 0x26);
    let parts = split_on(q, 0x26);
    assert(parts =~~= seq![seg1, seg2, seg3, seg4, seg5]);
    // Each segment splits at its `=` and decodes to key and value.
    lemma_split_pair_concat(k1, pct_encode(alg));
    lemma_split_pair_concat(k2, pct_encode(cred));
    lemma_split_pair_concat(k3, d);
    lemma_split_pair_concat(k4, e);
    lemma_split_pair_concat(k5, pct_encode(sig));
    assert(decode_pair(seg1) == Some((k1, alg)));
    assert(decode_pair(seg2) == Some((k2, cred)));
    assert(decode_pair(seg3) == Some((k3, d)));
    assert(decode_pair(seg4) == Some((k4, e)));
    assert(decode_pair(seg5) == Some((k5, sig)));
    assert(forall|i: int| 0 <= i < parts.len() ==> decode_pair(#[trigger] parts[i]) is Some);
    let pairs = parse_query(q).unwrap();
    assert(pairs =~~= seq![(k1, alg), (k2, cred), (k3, d), (k4, e), (k5, sig)]);
    lemma_five_pairs(pairs, (k1, alg), (k2, cred), (k3, d), (k4, e), (k5, sig));
    assert(valid_presigned_pairs(pairs));
    assert(lookup(pairs, k1) == Some(alg));
    assert(lookup(pairs, k2) == Some(cred));
    assert(lookup(pairs, k3) == Some(d));
    assert(lookup(pairs, k4) == Some(e));
    assert(lookup(pairs, k5) == Some(sig));
    vstd::utf8::encode_utf8_valid_utf8(p.x_amz_credential@);
    assert(dec_val(d) == p.x_amz_date && dec_val(e) == p.x_amz_expires);
}

/// Counts and lookups over the five-pair sequence of a serialized query.
proof fn lemma_five_pairs(
    pairs: Seq<(Seq<u8>, Seq<u8>)>,
    p1: (Seq<u8>, Seq<u8>),
    p2: (Seq<u8>, Seq<u8>),
    p3: (Seq<u8>, Seq<u8>),
    p4: (Seq<u8>, Seq<u8>),
    p5: (Seq<u8>, Seq<u8>),
)
    requires
        pairs == seq![p1, p2, p3, p4, p5],
        p1.0 == key_algorithm(),
        p2.0 == key_credential(),
        p3.0 == key_date(),
        p4.0 == key_expires(),
        p5.0 == key_signature(),
    ensures
        count_key(pairs, key_algorithm()) == 1,
        count_key(pairs, key_credential()) == 1,
        count_key(pairs, key_date()) == 1,
        count_key(pairs, key_expires()) == 1,
        count_key(pairs, key_signature()) == 1,
        lookup(pairs, key_algorithm()) == Some(p1.1),
        lookup(pairs, key_credential()) == Some(p2.1),
        lookup(pairs, key_date()) == Some(p3.1),
        lookup(pairs, key_expires()) == Some(p4.1),
        lookup(pairs, key_signature()) == Some(p5.1),
{
    lemma_keys_distinct();
    reveal_with_fuel(count_key, 7);
    reveal_with_fuel(lookup, 7);
    let t1 = pairs.drop_first();
    let t2 = t1.drop_first();
    let t3 = t2.drop_first();
    let t4 = t3.drop_first();
    let t5 = t4.drop_first();
    assert(t1 =~~= seq![p2, p3, p4, p5]);
    assert(t2 =~~= seq![p3, p4, p5]);
    assert(t3 =~~= seq![p4, p5]);
    assert(t4 =~~= seq![p5]);
    assert(t5 =~~= Seq::<(Seq<u8>, Seq<u8>)>::empty());
    assert(count_key(t5, key_algorithm()) == 0);
    assert(count_key(t5, key_credential()) == 0);
    assert(count_key(t5, key_date()) == 0);
    assert(count_key(t5, key_expires()) == 0);
    assert(count_key(t5, key_signature()) == 0);
    assert(lookup(t5, key_algorithm()) is None);
    assert(lookup(t5, key_credential()) is None);
    assert(lookup(t5, key_date()) is None);
    assert(lookup(t5, key_expires()) is None);
    assert(lookup(t5, key_signature()) is None);
}

/// Signature round trip: a URL signed for a path verifies at any clock
/// inside its validity window and yields the credential it was signed
/// with.
pub proof fn lemma_signature_round_trip(p: PresignedUrl, now: u64)
    requires
        p.x_amz_date <= now <= p.x_amz_date + p.x_amz_expires,
    ensures
        spec_verify(encode_utf8(p.path@), spec_qs(p), now) == Ok::<Seq<u8>, PresignErrorKind>(
            encode_utf8(p.x_amz_credential@),
        ),
{
    lemma_parse_of_qs(p);
}

/// Signature expiry: the same URL verified at any clock past the end of
/// its validity window returns `Expired`.
pub proof fn lemma_signature_expiry(p: PresignedUrl, now: u64)
    requires
        now >= p.x_amz_date + p.x_amz_expires + 1,
    ensures
        spec_verify(encode_utf8(p.path@), spec_qs(p), now) == Err::<Seq<u8>, PresignErrorKind>(
            PresignErrorKind::Expired,
        ),
{
    lemma_parse_of_qs(p);
}

} // verus!
