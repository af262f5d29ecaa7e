//! Shared parsing of render-request query values: bounded decimal
//! numbers and booleans, as the two render routes read them.
use vstd::prelude::*;

use crate::text::{all_digits, ascii_bytes, dec_val, key_is, parse_u64_dec};

verus! {

/// A decimal value within `[lo, hi]`; anything else is rejected.
pub open spec fn spec_parse_bounded(v: Seq<u8>, lo: u64, hi: u64) -> Option<u64> {
    if v.len() > 0 && all_digits(v) && lo <= dec_val(v) && dec_val(v) <= hi {
        Some(dec_val(v) as u64)
    } else {
        None
    }
}

/// Parses a decimal value and checks it lies within `[lo, hi]`.
pub fn parse_bounded(v: &[u8], lo: u64, hi: u64) -> (r: Option<u64>)
    ensures
        r == spec_parse_bounded(v@, lo, hi),
{
    match parse_u64_dec(v) {
        Some(x) => {
            if lo <= x && x <= hi {
                Some(x)
            } else {
                None
            }
        },
        None => None,
    }
}

/// A boolean query value: exactly `true` or `false`.
pub open spec fn spec_parse_bool(v: Seq<u8>) -> Option<bool> {
    if v == ascii_bytes("true"@) {
        Some(true)
    } else if v == ascii_bytes("false"@) {
        Some(false)
    } else {
        None
    }
}

/// Parses a boolean query value.
pub fn parse_bool_bytes(v: &Vec<u8>) -> (r: Option<bool>)
    ensures
        r == spec_parse_bool(v@),
{
    proof {
        reveal_strlit("true");
        reveal_strlit("false");
        assert(("true").is_ascii());
        assert(("false").is_ascii());
    }
    if key_is(v, "true") {
        Some(true)
    } else if key_is(v, "false") {
        Some(false)
    } else {
        None
    }
}

/// Fixed-width fingerprint encoding of an optional 16-bit number.
pub open spec fn enc_opt_u16(v: Option<u16>) -> Seq<u8> {
    match v {
        Option::None => seq![0u8, 0, 0],
        Option::Some(x) => seq![1u8, (x / 256) as u8, (x % 256) as u8],
    }
}

/// Fixed-width fingerprint encoding of an optional byte.
pub open spec fn enc_opt_u8(v: Option<u8>) -> Seq<u8> {
    match v {
        Option::None => seq![0u8, 0],
        Option::Some(x) => seq![1u8, x],
    }
}

/// Fixed-width fingerprint encoding of an optional boolean.
pub open spec fn enc_opt_bool(v: Option<bool>) -> Seq<u8> {
    match v {
        Option::None => seq![0u8, 0],
        Option::Some(b) => seq![
            1u8,
            if b {
                1u8
            } else {
                0u8
            },
        ],
    }
}

/// Appends the encoding of an optional 16-bit number.
pub fn push_opt_u16(out: &mut Vec<u8>, v: &Option<u16>)
    ensures
        final(out)@ == old(out)@ + enc_opt_u16(*v),
{
    match v {
        Option::None => {
            out.push(0);
            out.push(0);
            out.push(0);
        },
        Option::Some(x) => {
            out.push(1);
            out.push((*x / 256) as u8);
            out.push((*x % 256) as u8);
        },
    }
    proof {
        assert(out@ =~= old(out)@ + enc_opt_u16(*v));
    }
}

/// Appends the encoding of an optional byte.
pub fn push_opt_u8(out: &mut Vec<u8>, v: &Option<u8>)
    ensures
        final(out)@ == old(out)@ + enc_opt_u8(*v),
{
    match v {
        Option::None => {
            out.push(0);
            out.push(0);
        },
        Option::Some(x) => {
            out.push(1);
            out.push(*x);
        },
    }
    proof {
        assert(out@ =~= old(out)@ + enc_opt_u8(*v));
    }
}

/// Appends the encoding of an optional boolean.
pub fn push_opt_bool(out: &mut Vec<u8>, v: &Option<bool>)
    ensures
        final(out)@ == old(out)@ + enc_opt_bool(*v),
{
    match v {
        Option::None => {
            out.push(0);
            out.push(0);
        },
        Option::Some(b) => {
            out.push(1);
            if *b {
                out.push(1);
            } else {
                out.push(0);
            }
        },
    }
    proof {
        assert(out@ =~= old(out)@ + enc_opt_bool(*v));
    }
}

/// The encodings are injective: equal bytes mean equal values.
pub proof fn lemma_enc_inj(a16: Option<u16>, b16: Option<u16>, a8: Option<u8>, b8: Option<u8>, ab: Option<bool>, bb: Option<bool>)
    ensures
        enc_opt_u16(a16) == enc_opt_u16(b16) ==> a16 == b16,
        enc_opt_u8(a8) == enc_opt_u8(b8) ==> a8 == b8,
        enc_opt_bool(ab) == enc_opt_bool(bb) ==> ab == bb,
{
    if enc_opt_u16(a16) == enc_opt_u16(b16) {
        match (a16, b16) {
            (Option::Some(x), Option::Some(y)) => {
                assert(enc_opt_u16(a16)[1] == enc_opt_u16(b16)[1]);
                assert(enc_opt_u16(a16)[2] == enc_opt_u16(b16)[2]);
                assert(x / 256 == y / 256 && x % 256 == y % 256);
                assert(x / 256 * 256 + x % 256 == x) by (nonlinear_arith);
                assert(y / 256 * 256 + y % 256 == y) by (nonlinear_arith);
            },
            (Option::Some(_), Option::None) => {
                assert(enc_opt_u16(a16)[0] == enc_opt_u16(b16)[0]);
            },
            (Option::None, Option::Some(_)) => {
                assert(enc_opt_u16(a16)[0] == enc_opt_u16(b16)[0]);
            },
            (Option::None, Option::None) => {},
        }
    }
    if enc_opt_u8(a8) == enc_opt_u8(b8) {
        match (a8, b8) {
            (Option::Some(_), Option::Some(_)) => {
                assert(enc_opt_u8(a8)[1] == enc_opt_u8(b8)[1]);
            },
            (Option::Some(_), Option::None) => {
                assert(enc_opt_u8(a8)[0] == enc_opt_u8(b8)[0]);
            },
            (Option::None, Option::Some(_)) => {
                assert(enc_opt_u8(a8)[0] == enc_opt_u8(b8)[0]);
            },
            (Option::None, Option::None) => {},
        }
    }
    if enc_opt_bool(ab) == enc_opt_bool(bb) {
        match (ab, bb) {
            (Option::Some(x), Option::Some(y)) => {
                assert(enc_opt_bool(ab)[1] == enc_opt_bool(bb)[1]);
            },
            (Option::Some(_), Option::None) => {
                assert(enc_opt_bool(ab)[0] == enc_opt_bool(bb)[0]);
            },
            (Option::None, Option::Some(_)) => {
                assert(enc_opt_bool(ab)[0] == enc_opt_bool(bb)[0]);
            },
            (Option::None, Option::None) => {},
        }
    }
}

/// Name for the ASCII origin of a URL: parsing and origin serialization
/// are pure functions of the URL text; an unparseable URL has none.
pub uninterp spec fn origin_ascii_of(url: Seq<char>) -> Option<Seq<char>>;

/// Relies on `url::Url::parse`, `Url::origin` and
/// `Origin::ascii_serialization`: the origin is computed from the URL
/// string alone.
#[verifier::external_body]
pub fn url_origin_ascii(u: &str) -> (r: Option<String>)
    ensures
        match r {
            Some(s) => origin_ascii_of(u@) == Some(s@),
            None => origin_ascii_of(u@) is None,
        },
{
    match url::Url::parse(u) {
        Ok(p) => Some(p.origin().ascii_serialization()),
        Err(_) => None,
    }
}

/// The artifact key below the bucket root: origin hash, a slash, and
/// the fingerprint hash, both in lowercase hex.
pub open spec fn spec_key_chars(origin: Seq<char>, fp: Seq<u8>) -> Seq<char> {
    crate::text::ascii_chars(crate::text::hex_of(crate::hash::spec_hash64(vstd::utf8::encode_utf8(origin)) as nat))
        + seq!['/'] + crate::text::ascii_chars(crate::text::hex_of(crate::hash::spec_hash64(fp) as nat))
}

/// Builds the artifact key for an origin and fingerprint bytes.
pub fn build_key(origin: &str, fp: &[u8]) -> (r: String)
    ensures
        r@ == spec_key_chars(origin@, fp@),
{
    let ob = origin.as_bytes_vec();
    let h1 = crate::hash::calculate_hash(ob.as_slice());
    let h2 = crate::hash::calculate_hash(fp);
    let mut v: Vec<u8> = Vec::new();
    crate::text::push_u64_hex(&mut v, h1);
    v.push(0x2f);
    crate::text::push_u64_hex(&mut v, h2);
    proof {
        crate::text::lemma_hex_of_digits(h1 as nat);
        crate::text::lemma_hex_of_digits(h2 as nat);
        assert(v@ =~= crate::text::hex_of(h1 as nat) + seq![0x2fu8] + crate::text::hex_of(
            h2 as nat,
        ));
    }
    let s = crate::text::ascii_to_string(v);
    proof {
        assert(s@ =~= spec_key_chars(origin@, fp@));
    }
    s
}

} // verus!
