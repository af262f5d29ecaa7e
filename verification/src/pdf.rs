//! The PDF route: its typed request, fingerprint, per-bucket defaults,
//! and the parse of its query string.
use vstd::prelude::*;

use crate::qs::{count_key, lemma_count_lookup_snoc, lemma_count_prefix, lemma_lookup_prefix,
    lookup, parse_query, parse_query_into, QsPair};
use crate::request::{build_key, enc_opt_bool, enc_opt_u8, lemma_enc_inj, origin_ascii_of,
    parse_bool_bytes, parse_bounded, push_opt_bool, push_opt_u8, spec_key_chars, spec_parse_bool,
    spec_parse_bounded, url_origin_ascii};
use crate::text::{ascii_bytes, bytes_to_string, key_is};
use vstd::utf8::encode_utf8;
use vstd::utf8::valid_utf8;

verus! {

/// A PDF request as its query string carries it: the target URL, the
/// print scale in tenths, the background switch, and the cache `ttl`.
#[derive(Debug, Clone)]
pub struct PDFRequestQSParams {
    pub url: String,
    pub scale: Option<u8>,
    pub ttl: Option<u64>,
    pub omit_background: Option<bool>,
}

/// Per-bucket default parameters for the PDF route.
#[derive(Debug, Clone)]
pub struct PDFRequestParams {
    pub scale: Option<u8>,
    pub ttl: Option<u64>,
    pub omit_background: Option<bool>,
}

/// The canonical fingerprint bytes of a PDF request: the rendering
/// fields in fixed order and width, the URL text last; `ttl` is absent.
pub open spec fn spec_pdf_fingerprint(r: PDFRequestQSParams) -> Seq<u8> {
    enc_opt_u8(r.scale) + enc_opt_bool(r.omit_background) + encode_utf8(r.url@)
}

impl PDFRequestQSParams {
    /// The canonical fingerprint bytes of this request.
    pub fn fingerprint_bytes(&self) -> (r: Vec<u8>)
        ensures
            r@ == spec_pdf_fingerprint(*self),
    {
        let mut out: Vec<u8> = Vec::new();
        push_opt_u8(&mut out, &self.scale);
        push_opt_bool(&mut out, &self.omit_background);
        let mut ub = self.url.as_str().as_bytes_vec();
        out.append(&mut ub);
        proof {
            assert(out@ =~= spec_pdf_fingerprint(*self));
        }
        out
    }

    /// The artifact key of this request; none when the URL does not
    /// parse.
    pub fn filename(&self) -> (r: Option<String>)
        ensures
            match r {
                Some(s) => origin_ascii_of(self.url@) is Some && s@ == spec_key_chars(
                    origin_ascii_of(self.url@).unwrap(),
                    spec_pdf_fingerprint(*self),
                ),
                None => origin_ascii_of(self.url@) is None,
            },
    {
        match url_origin_ascii(self.url.as_str()) {
            Some(origin) => {
                let fp = self.fingerprint_bytes();
                Some(build_key(origin.as_str(), fp.as_slice()))
            },
            None => None,
        }
    }

    /// The artifact path: the key with the `pdf` extension.
    pub fn path(&self) -> (r: Option<String>)
        ensures
            match r {
                Some(s) => origin_ascii_of(self.url@) is Some && s@ == spec_key_chars(
                    origin_ascii_of(self.url@).unwrap(),
                    spec_pdf_fingerprint(*self),
                ) + ".pdf"@,
                None => origin_ascii_of(self.url@) is None,
            },
    {
        match self.filename() {
            Some(f) => {
                let mut s = f;
                s.append(".pdf");
                Some(s)
            },
            None => None,
        }
    }
}

/// The request with every unset rendering field filled from the bucket
/// defaults; the URL and the freshness `ttl` pass through untouched.
/// The artifact key is computed from this resolved form.
pub open spec fn spec_pdf_with_defaults(
    p: PDFRequestQSParams,
    d: PDFRequestParams,
) -> PDFRequestQSParams {
    PDFRequestQSParams {
        url: p.url,
        scale: if p.scale is Some {
            p.scale
        } else {
            d.scale
        },
        ttl: p.ttl,
        omit_background: if p.omit_background is Some {
            p.omit_background
        } else {
            d.omit_background
        },
    }
}

impl PDFRequestQSParams {
    /// Fills every unset rendering field from the bucket defaults.
    pub fn with_defaults(&self, d: &PDFRequestParams) -> (r: PDFRequestQSParams)
        ensures
            r == spec_pdf_with_defaults(*self, *d),
    {
        PDFRequestQSParams {
            url: self.url.clone(),
            scale: match self.scale {
                Some(s) => Some(s),
                None => d.scale,
            },
            ttl: self.ttl,
            omit_background: match self.omit_background {
                Some(b) => Some(b),
                None => d.omit_background,
            },
        }
    }
}

/// Fingerprint stability for the PDF route: equal requests yield equal
/// keys, in every process and at every moment.
pub proof fn lemma_pdf_fingerprint_stable(a: PDFRequestQSParams, b: PDFRequestQSParams)
    requires
        a.url@ == b.url@,
        a.scale == b.scale,
        a.omit_background == b.omit_background,
    ensures
        spec_pdf_fingerprint(a) == spec_pdf_fingerprint(b),
        origin_ascii_of(a.url@) == origin_ascii_of(b.url@),
{
}

/// Field sensitivity for the PDF route: the fingerprint bytes determine
/// the URL, scale and background switch; `ttl` is not among them.
pub proof fn lemma_pdf_fingerprint_field_sensitive(a: PDFRequestQSParams, b: PDFRequestQSParams)
    requires
        spec_pdf_fingerprint(a) == spec_pdf_fingerprint(b),
    ensures
        a.url@ == b.url@,
        a.scale == b.scale,
        a.omit_background == b.omit_background,
{
    let fa = spec_pdf_fingerprint(a);
    let fb = spec_pdf_fingerprint(b);
    lemma_enc_inj(None, None, a.scale, b.scale, a.omit_background, b.omit_background);
    assert(enc_opt_u8(a.scale) =~= fa.subrange(0, 2));
    assert(enc_opt_bool(a.omit_background) =~= fa.subrange(2, 4));
    assert(encode_utf8(a.url@) =~= fa.subrange(4, fa.len() as int));
    assert(enc_opt_u8(b.scale) =~= fb.subrange(0, 2));
    assert(enc_opt_bool(b.omit_background) =~= fb.subrange(2, 4));
    assert(encode_utf8(b.url@) =~= fb.subrange(4, fb.len() as int));
    vstd::utf8::encode_utf8_decode_utf8(a.url@);
    vstd::utf8::encode_utf8_decode_utf8(b.url@);
}

/// The query keys of the PDF route.
pub open spec fn pk_url() -> Seq<u8> {
    ascii_bytes("url"@)
}

pub open spec fn pk_scale() -> Seq<u8> {
    ascii_bytes("scale"@)
}

pub open spec fn pk_ttl() -> Seq<u8> {
    ascii_bytes("ttl"@)
}

pub open spec fn pk_omit_background() -> Seq<u8> {
    ascii_bytes("omit_background"@)
}

/// Whether a key belongs to the PDF route.
pub open spec fn is_pdf_key(k: Seq<u8>) -> bool {
    k == pk_url() || k == pk_scale() || k == pk_ttl() || k == pk_omit_background()
}

/// A well-formed PDF query: it parses, carries only known keys, each at
/// most once, `url` exactly once and in UTF-8, and present values lie
/// in range.
pub open spec fn pdf_query_ok(q: Seq<u8>) -> bool {
    &&& parse_query(q) is Some
    &&& {
        let pairs = parse_query(q).unwrap();
        &&& forall|j: int| 0 <= j < pairs.len() ==> is_pdf_key(#[trigger] pairs[j].0)
        &&& count_key(pairs, pk_url()) == 1
        &&& count_key(pairs, pk_scale()) <= 1
        &&& count_key(pairs, pk_ttl()) <= 1
        &&& count_key(pairs, pk_omit_background()) <= 1
        &&& (lookup(pairs, pk_url()) matches Some(v) ==> valid_utf8(v))
        &&& (lookup(pairs, pk_scale()) matches Some(v) ==> spec_parse_bounded(v, 1, 255) is Some)
        &&& (lookup(pairs, pk_ttl()) matches Some(v) ==> spec_parse_bounded(v, 0, u64::MAX)
            is Some)
        &&& (lookup(pairs, pk_omit_background()) matches Some(v) ==> spec_parse_bool(v) is Some)
    }
}

/// The four PDF keys, revealed.
proof fn lemma_pdf_keys()
    ensures
        pk_url().len() == 3,
        pk_scale().len() == 5,
        pk_ttl().len() == 3,
        pk_omit_background().len() == 15,
        pk_url()[0] == 0x75,
        pk_scale()[0] == 0x73,
        pk_ttl()[0] == 0x74,
        pk_omit_background()[0] == 0x6f,
{
    reveal_strlit("url");
    reveal_strlit("scale");
    reveal_strlit("ttl");
    reveal_strlit("omit_background");
}

/// Parses a PDF query string into its typed request; rejects unknown or
/// repeated parameters, a missing or non-UTF-8 `url`, and out-of-range
/// values.
#[verifier::loop_isolation(false)]
#[verifier::rlimit(100)]
pub fn parse_pdf_query(query: &str) -> (r: Option<PDFRequestQSParams>)
    ensures
        match r {
            Some(p) => pdf_query_ok(encode_utf8(query@)) && {
                let pairs = parse_query(encode_utf8(query@)).unwrap();
                &&& lookup(pairs, pk_url()) == Some(encode_utf8(p.url@))
                &&& p.scale == (match lookup(pairs, pk_scale()) {
                    Some(v) => Some(spec_parse_bounded(v, 1, 255).unwrap() as u8),
                    None => None,
                })
                &&& p.ttl == (match lookup(pairs, pk_ttl()) {
                    Some(v) => Some(spec_parse_bounded(v, 0, u64::MAX).unwrap()),
                    None => None,
                })
                &&& p.omit_background == (match lookup(pairs, pk_omit_background()) {
                    Some(v) => spec_parse_bool(v),
                    None => None,
                })
            },
            None => !pdf_query_ok(encode_utf8(query@)),
        },
{
    let ghost q = encode_utf8(query@);
    let qb = query.as_bytes_vec();
    let mut pairs: Vec<QsPair> = Vec::new();
    let parsed = parse_query_into(qb.as_slice(), 0, &mut pairs);
    proof {
        assert(qb@.skip(0) =~= q);
    }
    if !parsed {
        return None;
    }
    let ghost pv = pairs@.map_values(|p: QsPair| p.view_pair());
    proof {
        reveal_strlit("url");
        reveal_strlit("scale");
        reveal_strlit("ttl");
        reveal_strlit("omit_background");
        assert(("url").is_ascii());
        assert(("scale").is_ascii());
        assert(("ttl").is_ascii());
        assert(("omit_background").is_ascii());
    }
    let mut url_s: Option<String> = None;
    let mut scale: Option<u8> = None;
    let mut ttl: Option<u64> = None;
    let mut omit_background: Option<bool> = None;
    let mut i: usize = 0;
    while i < pairs.len()
        invariant
            i <= pairs.len(),
            pv == pairs@.map_values(|p: QsPair| p.view_pair()),
            pv.len() == pairs@.len(),
            forall|j: int| 0 <= j < i ==> is_pdf_key(#[trigger] pv[j].0),
            count_key(pv.take(i as int), pk_url()) == (if url_s is Some {
                1nat
            } else {
                0nat
            }),
            count_key(pv.take(i as int), pk_scale()) == (if scale is Some {
                1nat
            } else {
                0nat
            }),
            count_key(pv.take(i as int), pk_ttl()) == (if ttl is Some {
                1nat
            } else {
                0nat
            }),
            count_key(pv.take(i as int), pk_omit_background()) == (if omit_background is Some {
                1nat
            } else {
                0nat
            }),
            match url_s {
                Some(s) => lookup(pv.take(i as int), pk_url()) == Some(encode_utf8(s@))
                    && valid_utf8(encode_utf8(s@)),
                None => lookup(pv.take(i as int), pk_url()) is None,
            },
            match scale {
                Some(x) => lookup(pv.take(i as int), pk_scale()) matches Some(v)
                    && spec_parse_bounded(v, 1, 255) == Some(x as u64),
                None => lookup(pv.take(i as int), pk_scale()) is None,
            },
            match ttl {
                Some(x) => lookup(pv.take(i as int), pk_ttl()) matches Some(v)
                    && spec_parse_bounded(v, 0, u64::MAX) == Some(x),
                None => lookup(pv.take(i as int), pk_ttl()) is None,
            },
            match omit_background {
                Some(x) => lookup(pv.take(i as int), pk_omit_background()) matches Some(v)
                    && spec_parse_bool(v) == Some(x),
                None => lookup(pv.take(i as int), pk_omit_background()) is None,
            },
        decreases pairs.len() - i,
    {
        proof {
            lemma_pdf_keys();
            assert(pv[i as int] == pairs@[i as int].view_pair());
            assert(pv.take(i as int + 1) =~~= pv.take(i as int).push(pv[i as int]));
            lemma_count_lookup_snoc(pv.take(i as int), pv[i as int], pk_url());
            lemma_count_lookup_snoc(pv.take(i as int), pv[i as int], pk_scale());
            lemma_count_lookup_snoc(pv.take(i as int), pv[i as int], pk_ttl());
            lemma_count_lookup_snoc(pv.take(i as int), pv[i as int], pk_omit_background());
        }
        let v = vstd::slice::slice_to_vec(pairs[i].value.as_slice());
        if key_is(&pairs[i].key, "url") {
            if url_s.is_some() {
                proof {
                    lemma_count_prefix(pv, pk_url(), i as int + 1);
                }
                return None;
            }
            proof {
                lemma_lookup_prefix(pv, pk_url(), i as int + 1);
            }
            match bytes_to_string(v) {
                Some(s) => {
                    url_s = Some(s);
                },
                None => {
                    return None;
                },
            }
        } else if key_is(&pairs[i].key, "scale") {
            if scale.is_some() {
                proof {
                    lemma_count_prefix(pv, pk_scale(), i as int + 1);
                }
                return None;
            }
            proof {
                lemma_lookup_prefix(pv, pk_scale(), i as int + 1);
            }
            match parse_bounded(v.as_slice(), 1, 255) {
                Some(x) => {
                    scale = Some(x as u8);
                },
                None => {
                    return None;
                },
            }
        } else if key_is(&pairs[i].key, "ttl") {
            if ttl.is_some() {
                proof {
                    lemma_count_prefix(pv, pk_ttl(), i as int + 1);
                }
                return None;
            }
            proof {
                lemma_lookup_prefix(pv, pk_ttl(), i as int + 1);
            }
            match parse_bounded(v.as_slice(), 0, u64::MAX) {
                Some(x) => {
                    ttl = Some(x);
                },
                None => {
                    return None;
                },
            }
        } else if key_is(&pairs[i].key, "omit_background") {
            if omit_background.is_some() {
                proof {
                    lemma_count_prefix(pv, pk_omit_background(), i as int + 1);
                }
                return None;
            }
            proof {
                lemma_lookup_prefix(pv, pk_omit_background(), i as int + 1);
            }
            match parse_bool_bytes(&v) {
                Some(x) => {
                    omit_background = Some(x);
                },
                None => {
                    return None;
                },
            }
        } else {
            proof {
                assert(!is_pdf_key(pv[i as int].0));
            }
            return None;
        }
        i = i + 1;
    }
    proof {
        assert(pv.take(i as int) =~~= pv);
    }
    let url_str = match url_s {
        Some(s) => s,
        None => {
            return None;
        },
    };
    Some(PDFRequestQSParams { url: url_str, scale, ttl, omit_background })
}

/// Default print scale in tenths: five tenths.
pub fn default_scale() -> (r: Option<u8>)
    ensures
        r == Some(5u8),
{
    Some(5)
}

/// Default cache validity window in seconds.
pub fn default_ttl() -> (r: Option<u64>)
    ensures
        r == Some(60u64),
{
    Some(60)
}

/// The PDF defaults a bucket starts with.
pub fn default_buckets_pdf_task_params() -> (r: Option<PDFRequestParams>)
    ensures
        r is Some,
        r.unwrap().scale == Some(5u8),
        r.unwrap().ttl == Some(60u64),
        r.unwrap().omit_background is None,
{
    Some(PDFRequestParams { scale: default_scale(), omit_background: None, ttl: default_ttl() })
}

} // verus!
