//! The screenshot route: its typed request, the deterministic artifact
//! fingerprint, per-bucket defaults, and the parse of its query string.
use vstd::prelude::*;

use crate::qs::{count_key, lemma_count_lookup_snoc, lemma_count_prefix, lemma_lookup_prefix,
    lookup, parse_query, parse_query_into, QsPair};
use crate::request::{build_key, enc_opt_bool, enc_opt_u16, enc_opt_u8, lemma_enc_inj,
    origin_ascii_of, parse_bool_bytes, parse_bounded, push_opt_bool, push_opt_u16, push_opt_u8,
    spec_key_chars, spec_parse_bool, spec_parse_bounded, url_origin_ascii};
use crate::text::{ascii_bytes, bytes_to_string, key_is};
use vstd::utf8::encode_utf8;
use vstd::utf8::valid_utf8;

verus! {

/// The raster formats a screenshot can be captured in.
#[derive(Clone, Copy, Debug, PartialEq, Eq, Structural)]
pub enum ImageFormat {
    Png,
    Jpeg,
    Webp,
}

/// The file extension of a raster format.
pub open spec fn ext_of(f: ImageFormat) -> Seq<char> {
    match f {
        ImageFormat::Png => "png"@,
        ImageFormat::Jpeg => "jpg"@,
        ImageFormat::Webp => "webp"@,
    }
}

/// The extension as a string slice.
pub fn ext_str(f: ImageFormat) -> (r: &'static str)
    ensures
        r@ == ext_of(f),
{
    match f {
        ImageFormat::Png => "png",
        ImageFormat::Jpeg => "jpg",
        ImageFormat::Webp => "webp",
    }
}

/// A screenshot request as its query string carries it: the target URL
/// and the optional capture parameters, `ttl` governing only cache
/// freshness.
#[derive(Debug, Clone)]
pub struct ScreenshotRequestQSParams {
    pub url: String,
    pub format: Option<ImageFormat>,
    pub quality: Option<u16>,
    pub width: Option<u16>,
    pub height: Option<u16>,
    pub scale: Option<u8>,
    pub ttl: Option<u64>,
    pub full_page: Option<bool>,
    pub omit_background: Option<bool>,
}

/// Per-bucket default capture parameters for the screenshot route.
#[derive(Debug, Clone)]
pub struct ScreenshotRequestParams {
    pub format: Option<ImageFormat>,
    pub quality: Option<u16>,
    pub width: Option<u16>,
    pub height: Option<u16>,
    pub scale: Option<u8>,
    pub ttl: Option<u64>,
    pub full_page: Option<bool>,
    pub omit_background: Option<bool>,
}

/// Fingerprint encoding of an optional format, two bytes wide.
pub open spec fn enc_opt_format(v: Option<ImageFormat>) -> Seq<u8> {
    match v {
        Option::None => seq![0u8, 0],
        Option::Some(ImageFormat::Png) => seq![1u8, 1],
        Option::Some(ImageFormat::Jpeg) => seq![1u8, 2],
        Option::Some(ImageFormat::Webp) => seq![1u8, 3],
    }
}

/// The canonical fingerprint bytes of a screenshot request: every field
/// that influences rendering in a fixed order and width, the URL text
/// last; `ttl` is deliberately absent.
pub open spec fn spec_fingerprint(r: ScreenshotRequestQSParams) -> Seq<u8> {
    enc_opt_format(r.format) + enc_opt_u16(r.quality) + enc_opt_u16(r.width) + enc_opt_u16(
        r.height,
    ) + enc_opt_u8(r.scale) + enc_opt_bool(r.full_page) + enc_opt_bool(r.omit_background)
        + encode_utf8(r.url@)
}

impl ScreenshotRequestQSParams {
    /// The canonical fingerprint bytes of this request.
    pub fn fingerprint_bytes(&self) -> (r: Vec<u8>)
        ensures
            r@ == spec_fingerprint(*self),
    {
        let mut out: Vec<u8> = Vec::new();
        match self.format {
            Option::None => {
                out.push(0);
                out.push(0);
            },
            Option::Some(ImageFormat::Png) => {
                out.push(1);
                out.push(1);
            },
            Option::Some(ImageFormat::Jpeg) => {
                out.push(1);
                out.push(2);
            },
            Option::Some(ImageFormat::Webp) => {
                out.push(1);
                out.push(3);
            },
        }
        proof {
            assert(out@ =~= enc_opt_format(self.format));
        }
        push_opt_u16(&mut out, &self.quality);
        push_opt_u16(&mut out, &self.width);
        push_opt_u16(&mut out, &self.height);
        push_opt_u8(&mut out, &self.scale);
        push_opt_bool(&mut out, &self.full_page);
        push_opt_bool(&mut out, &self.omit_background);
        let mut ub = self.url.as_str().as_bytes_vec();
        out.append(&mut ub);
        proof {
            assert(out@ =~= spec_fingerprint(*self));
        }
        out
    }

    /// The artifact key of this request: origin hash, slash, fingerprint
    /// hash; none when the URL does not parse.
    pub fn filename(&self) -> (r: Option<String>)
        ensures
            match r {
                Some(s) => origin_ascii_of(self.url@) is Some && s@ == spec_key_chars(
                    origin_ascii_of(self.url@).unwrap(),
                    spec_fingerprint(*self),
                ),
                None => origin_ascii_of(self.url@) is None,
            },
    {
        match url_origin_ascii(self.url.as_str()) {
            Some(origin) => {
                let fp = self.fingerprint_bytes();
                Some(build_key(origin.as_str(), fp.as_slice()))
            },
            None => None,
        }
    }

    /// The artifact path: the key plus the extension of the request's
    /// format, JPEG standing in when it is unset. The route plans call
    /// this on a request already resolved against the bucket defaults,
    /// so the fallback never decides there and the probe path always
    /// matches the path a render writes.
    pub fn path(&self) -> (r: Option<String>)
        ensures
            match r {
                Some(s) => origin_ascii_of(self.url@) is Some && s@ == spec_key_chars(
                    origin_ascii_of(self.url@).unwrap(),
                    spec_fingerprint(*self),
                ) + "."@ + ext_of(self.format.unwrap_or(ImageFormat::Jpeg)),
                None => origin_ascii_of(self.url@) is None,
            },
    {
        match self.filename() {
            Some(f) => {
                let mut s = f;
                s.append(".");
                let e = ext_str(self.format.unwrap_or(ImageFormat::Jpeg));
                s.append(e);
                Some(s)
            },
            None => None,
        }
    }
}

/// The request with every unset rendering field filled from the bucket
/// defaults; the URL and the freshness `ttl` pass through untouched.
/// The artifact key is computed from this resolved form, so an explicit
/// value and the same value taken from the defaults share one cache
/// slot, and the probe path agrees with the path the worker writes.
pub open spec fn spec_with_defaults(
    p: ScreenshotRequestQSParams,
    d: ScreenshotRequestParams,
) -> ScreenshotRequestQSParams {
    ScreenshotRequestQSParams {
        url: p.url,
        format: if p.format is Some {
            p.format
        } else {
            d.format
        },
        quality: if p.quality is Some {
            p.quality
        } else {
            d.quality
        },
        width: if p.width is Some {
            p.width
        } else {
            d.width
        },
        height: if p.height is Some {
            p.height
        } else {
            d.height
        },
        scale: if p.scale is Some {
            p.scale
        } else {
            d.scale
        },
        ttl: p.ttl,
        full_page: if p.full_page is Some {
            p.full_page
        } else {
            d.full_page
        },
        omit_background: if p.omit_background is Some {
            p.omit_background
        } else {
            d.omit_background
        },
    }
}

impl ScreenshotRequestQSParams {
    /// Fills every unset rendering field from the bucket defaults.
    pub fn with_defaults(&self, d: &ScreenshotRequestParams) -> (r: ScreenshotRequestQSParams)
        ensures
            r == spec_with_defaults(*self, *d),
    {
        ScreenshotRequestQSParams {
            url: self.url.clone(),
            format: match self.format {
                Some(f) => Some(f),
                None => d.format,
            },
            quality: match self.quality {
                Some(q) => Some(q),
                None => d.quality,
            },
            width: match self.width {
                Some(w) => Some(w),
                None => d.width,
            },
            height: match self.height {
                Some(h) => Some(h),
                None => d.height,
            },
            scale: match self.scale {
                Some(s) => Some(s),
                None => d.scale,
            },
            ttl: self.ttl,
            full_page: match self.full_page {
                Some(b) => Some(b),
                None => d.full_page,
            },
            omit_background: match self.omit_background {
                Some(b) => Some(b),
                None => d.omit_background,
            },
        }
    }
}

/// Fingerprint stability: the artifact key is a pure function of the
/// request fields, independent of the process or the moment computing
/// it — equal requests always yield equal keys.
pub proof fn lemma_fingerprint_stable(a: ScreenshotRequestQSParams, b: ScreenshotRequestQSParams)
    requires
        a.url@ == b.url@,
        a.format == b.format,
        a.quality == b.quality,
        a.width == b.width,
        a.height == b.height,
        a.scale == b.scale,
        a.full_page == b.full_page,
        a.omit_background == b.omit_background,
    ensures
        spec_fingerprint(a) == spec_fingerprint(b),
        origin_ascii_of(a.url@) == origin_ascii_of(b.url@),
        origin_ascii_of(a.url@) is Some ==> spec_key_chars(
            origin_ascii_of(a.url@).unwrap(),
            spec_fingerprint(a),
        ) == spec_key_chars(origin_ascii_of(b.url@).unwrap(), spec_fingerprint(b)),
{
}

/// Field sensitivity, one direction of it: the fingerprint bytes
/// determine every rendering field, so changing any of them changes the
/// bytes that are hashed.
pub proof fn lemma_fingerprint_field_sensitive(
    a: ScreenshotRequestQSParams,
    b: ScreenshotRequestQSParams,
)
    requires
        spec_fingerprint(a) == spec_fingerprint(b),
    ensures
        a.url@ == b.url@,
        a.format == b.format,
        a.quality == b.quality,
        a.width == b.width,
        a.height == b.height,
        a.scale == b.scale,
        a.full_page == b.full_page,
        a.omit_background == b.omit_background,
{
    let fa = spec_fingerprint(a);
    let fb = spec_fingerprint(b);
    lemma_enc_inj(a.quality, b.quality, a.scale, b.scale, a.full_page, b.full_page);
    lemma_enc_inj(a.width, b.width, a.scale, b.scale, a.omit_background, b.omit_background);
    lemma_enc_inj(a.height, b.height, a.scale, b.scale, a.full_page, b.full_page);
    assert(enc_opt_format(a.format) =~= fa.subrange(0, 2));
    assert(enc_opt_u16(a.quality) =~= fa.subrange(2, 5));
    assert(enc_opt_u16(a.width) =~= fa.subrange(5, 8));
    assert(enc_opt_u16(a.height) =~= fa.subrange(8, 11));
    assert(enc_opt_u8(a.scale) =~= fa.subrange(11, 13));
    assert(enc_opt_bool(a.full_page) =~= fa.subrange(13, 15));
    assert(enc_opt_bool(a.omit_background) =~= fa.subrange(15, 17));
    assert(encode_utf8(a.url@) =~= fa.subrange(17, fa.len() as int));
    assert(enc_opt_format(b.format) =~= fb.subrange(0, 2));
    assert(enc_opt_u16(b.quality) =~= fb.subrange(2, 5));
    assert(enc_opt_u16(b.width) =~= fb.subrange(5, 8));
    assert(enc_opt_u16(b.height) =~= fb.subrange(8, 11));
    assert(enc_opt_u8(b.scale) =~= fb.subrange(11, 13));
    assert(enc_opt_bool(b.full_page) =~= fb.subrange(13, 15));
    assert(enc_opt_bool(b.omit_background) =~= fb.subrange(15, 17));
    assert(encode_utf8(b.url@) =~= fb.subrange(17, fb.len() as int));
    vstd::utf8::encode_utf8_decode_utf8(a.url@);
    vstd::utf8::encode_utf8_decode_utf8(b.url@);
}

/// The fingerprint never reads `ttl`: two requests differing only in it
/// share their fingerprint, and so their artifact key.
pub proof fn lemma_fingerprint_ignores_ttl(
    a: ScreenshotRequestQSParams,
    b: ScreenshotRequestQSParams,
)
    requires
        a.url@ == b.url@,
        a.format == b.format,
        a.quality == b.quality,
        a.width == b.width,
        a.height == b.height,
        a.scale == b.scale,
        a.full_page == b.full_page,
        a.omit_background == b.omit_background,
    ensures
        spec_fingerprint(a) == spec_fingerprint(b),
        origin_ascii_of(a.url@) is Some ==> spec_key_chars(
            origin_ascii_of(a.url@).unwrap(),
            spec_fingerprint(a),
        ) == spec_key_chars(origin_ascii_of(b.url@).unwrap(), spec_fingerprint(b)),
{
}

/// A screenshot capture format value: `png`, `jpeg` or `webp`.
pub open spec fn spec_parse_format(v: Seq<u8>) -> Option<ImageFormat> {
    if v == ascii_bytes("png"@) {
        Some(ImageFormat::Png)
    } else if v == ascii_bytes("jpeg"@) {
        Some(ImageFormat::Jpeg)
    } else if v == ascii_bytes("webp"@) {
        Some(ImageFormat::Webp)
    } else {
        None
    }
}

/// Parses a capture format value.
pub fn parse_format_bytes(v: &Vec<u8>) -> (r: Option<ImageFormat>)
    ensures
        r == spec_parse_format(v@),
{
    proof {
        reveal_strlit("png");
        reveal_strlit("jpeg");
        reveal_strlit("webp");
        assert(("png").is_ascii());
        assert(("jpeg").is_ascii());
        assert(("webp").is_ascii());
    }
    if key_is(v, "png") {
        Some(ImageFormat::Png)
    } else if key_is(v, "jpeg") {
        Some(ImageFormat::Jpeg)
    } else if key_is(v, "webp") {
        Some(ImageFormat::Webp)
    } else {
        None
    }
}

/// The query keys of the screenshot route.
pub open spec fn sk_url() -> Seq<u8> {
    ascii_bytes("url"@)
}

pub open spec fn sk_format() -> Seq<u8> {
    ascii_bytes("format"@)
}

pub open spec fn sk_quality() -> Seq<u8> {
    ascii_bytes("quality"@)
}

pub open spec fn sk_width() -> Seq<u8> {
    ascii_bytes("width"@)
}

pub open spec fn sk_height() -> Seq<u8> {
    ascii_bytes("height"@)
}

pub open spec fn sk_scale() -> Seq<u8> {
    ascii_bytes("scale"@)
}

pub open spec fn sk_ttl() -> Seq<u8> {
    ascii_bytes("ttl"@)
}

pub open spec fn sk_full_page() -> Seq<u8> {
    ascii_bytes("full_page"@)
}

pub open spec fn sk_omit_background() -> Seq<u8> {
    ascii_bytes("omit_background"@)
}

/// Whether a key belongs to the screenshot route; anything else is an
/// unknown parameter and rejects the query.
pub open spec fn is_screenshot_key(k: Seq<u8>) -> bool {
    k == sk_url() || k == sk_format() || k == sk_quality() || k == sk_width() || k == sk_height()
        || k == sk_scale() || k == sk_ttl() || k == sk_full_page() || k == sk_omit_background()
}

/// A well-formed screenshot query: it parses, carries only known keys,
/// each at most once, `url` exactly once and in UTF-8, and every
/// present value lies in its range — quality 1 to 100, width, height
/// and scale positive, booleans literal.
pub open spec fn screenshot_query_ok(q: Seq<u8>) -> bool {
    &&& parse_query(q) is Some
    &&& {
        let pairs = parse_query(q).unwrap();
        &&& forall|j: int| 0 <= j < pairs.len() ==> is_screenshot_key(#[trigger] pairs[j].0)
        &&& count_key(pairs, sk_url()) == 1
        &&& count_key(pairs, sk_format()) <= 1
        &&& count_key(pairs, sk_quality()) <= 1
        &&& count_key(pairs, sk_width()) <= 1
        &&& count_key(pairs, sk_height()) <= 1
        &&& count_key(pairs, sk_scale()) <= 1
        &&& count_key(pairs, sk_ttl()) <= 1
        &&& count_key(pairs, sk_full_page()) <= 1
        &&& count_key(pairs, sk_omit_background()) <= 1
        &&& (lookup(pairs, sk_url()) matches Some(v) ==> valid_utf8(v))
        &&& (lookup(pairs, sk_format()) matches Some(v) ==> spec_parse_format(v) is Some)
        &&& (lookup(pairs, sk_quality()) matches Some(v) ==> spec_parse_bounded(v, 1, 100)
            is Some)
        &&& (lookup(pairs, sk_width()) matches Some(v) ==> spec_parse_bounded(v, 1, 65535)
            is Some)
        &&& (lookup(pairs, sk_height()) matches Some(v) ==> spec_parse_bounded(v, 1, 65535)
            is Some)
        &&& (lookup(pairs, sk_scale()) matches Some(v) ==> spec_parse_bounded(v, 1, 255) is Some)
        &&& (lookup(pairs, sk_ttl()) matches Some(v) ==> spec_parse_bounded(v, 0, u64::MAX)
            is Some)
        &&& (lookup(pairs, sk_full_page()) matches Some(v) ==> spec_parse_bool(v) is Some)
        &&& (lookup(pairs, sk_omit_background()) matches Some(v) ==> spec_parse_bool(v) is Some)
    }
}

/// The nine screenshot keys, revealed.
proof fn lemma_screenshot_keys()
    ensures
        sk_url().len() == 3,
        sk_format().len() == 6,
        sk_quality().len() == 7,
        sk_width().len() == 5,
        sk_height().len() == 6,
        sk_scale().len() == 5,
        sk_ttl().len() == 3,
        sk_full_page().len() == 9,
        sk_omit_background().len() == 15,
        sk_url()[0] == 0x75,
        sk_format()[0] == 0x66,
        sk_quality()[0] == 0x71,
        sk_width()[0] == 0x77,
        sk_height()[0] == 0x68,
        sk_scale()[0] == 0x73,
        sk_ttl()[0] == 0x74,
        sk_full_page()[0] == 0x66,
        sk_omit_background()[0] == 0x6f,
{
    reveal_strlit("url");
    reveal_strlit("format");
    reveal_strlit("quality");
    reveal_strlit("width");
    reveal_strlit("height");
    reveal_strlit("scale");
    reveal_strlit("ttl");
    reveal_strlit("full_page");
    reveal_strlit("omit_background");
}

/// Parses a screenshot query string into its typed request; rejects
/// unknown or repeated parameters, a missing or non-UTF-8 `url`, and
/// out-of-range values.
#[verifier::rlimit(100)]
#[verifier::spinoff_prover]
pub fn parse_screenshot_query(query: &str) -> (r: Option<ScreenshotRequestQSParams>)
    ensures
        match r {
            Some(p) => screenshot_query_ok(encode_utf8(query@)) && {
                let pairs = parse_query(encode_utf8(query@)).unwrap();
                &&& lookup(pairs, sk_url()) == Some(encode_utf8(p.url@))
                &&& p.format == (match lookup(pairs, sk_format()) {
                    Some(v) => spec_parse_format(v),
                    None => None,
                })
                &&& p.quality == (match lookup(pairs, sk_quality()) {
                    Some(v) => Some(spec_parse_bounded(v, 1, 100).unwrap() as u16),
                    None => None,
                })
                &&& p.width == (match lookup(pairs, sk_width()) {
                    Some(v) => Some(spec_parse_bounded(v, 1, 65535).unwrap() as u16),
                    None => None,
                })
                &&& p.height == (match lookup(pairs, sk_height()) {
                    Some(v) => Some(spec_parse_bounded(v, 1, 65535).unwrap() as u16),
                    None => None,
                })
                &&& p.scale == (match lookup(pairs, sk_scale()) {
                    Some(v) => Some(spec_parse_bounded(v, 1, 255).unwrap() as u8),
                    None => None,
                })
                &&& p.ttl == (match lookup(pairs, sk_ttl()) {
                    Some(v) => Some(spec_parse_bounded(v, 0, u64::MAX).unwrap()),
                    None => None,
                })
                &&& p.full_page == (match lookup(pairs, sk_full_page()) {
                    Some(v) => spec_parse_bool(v),
                    None => None,
                })
                &&& p.omit_background == (match lookup(pairs, sk_omit_background()) {
                    Some(v) => spec_parse_bool(v),
                    None => None,
                })
            },
            None => !screenshot_query_ok(encode_utf8(query@)),
        },
{
    let ghost q = encode_utf8(query@);
    let qb = query.as_bytes_vec();
    let mut pairs: Vec<QsPair> = Vec::new();
    let parsed = parse_query_into(qb.as_slice(), 0, &mut pairs);
    proof {
        assert(qb@.skip(0) =~= q);
    }
    if !parsed {
        return None;
    }
    let ghost pv = pairs@.map_values(|p: QsPair| p.view_pair());
    proof {
        reveal_strlit("url");
        reveal_strlit("format");
        reveal_strlit("quality");
        reveal_strlit("width");
        reveal_strlit("height");
        reveal_strlit("scale");
        reveal_strlit("ttl");
        reveal_strlit("full_page");
        reveal_strlit("omit_background");
        assert(("url").is_ascii());
        assert(("format").is_ascii());
        assert(("quality").is_ascii());
        assert(("width").is_ascii());
        assert(("height").is_ascii());
        assert(("scale").is_ascii());
        assert(("ttl").is_ascii());
        assert(("full_page").is_ascii());
        assert(("omit_background").is_ascii());
    }
    let mut url_s: Option<String> = None;
    let mut format: Option<ImageFormat> = None;
    let mut quality: Option<u16> = None;
    let mut width: Option<u16> = None;
    let mut height: Option<u16> = None;
    let mut scale: Option<u8> = None;
    let mut ttl: Option<u64> = None;
    let mut full_page: Option<bool> = None;
    let mut omit_background: Option<bool> = None;
    let mut i: usize = 0;
    while i < pairs.len()
        invariant
            i <= pairs.len(),
            q == encode_utf8(query@),
            parse_query(q) == Some(pv),
            pv == pairs@.map_values(|p: QsPair| p.view_pair()),
            pv.len() == pairs@.len(),
            forall|j: int| 0 <= j < i ==> is_screenshot_key(#[trigger] pv[j].0),
            count_key(pv.take(i as int), sk_url()) == (if url_s is Some {
                1nat
            } else {
                0nat
            }),
            count_key(pv.take(i as int), sk_format()) == (if format is Some {
                1nat
            } else {
                0nat
            }),
            count_key(pv.take(i as int), sk_quality()) == (if quality is Some {
                1nat
            } else {
                0nat
            }),
            count_key(pv.take(i as int), sk_width()) == (if width is Some {
                1nat
            } else {
                0nat
            }),
            count_key(pv.take(i as int), sk_height()) == (if height is Some {
                1nat
            } else {
                0nat
            }),
            count_key(pv.take(i as int), sk_scale()) == (if scale is Some {
                1nat
            } else {
                0nat
            }),
            count_key(pv.take(i as int), sk_ttl()) == (if ttl is Some {
                1nat
            } else {
                0nat
            }),
            count_key(pv.take(i as int), sk_full_page()) == (if full_page is Some {
                1nat
            } else {
                0nat
            }),
            count_key(pv.take(i as int), sk_omit_background()) == (if omit_background is Some {
                1nat
            } else {
                0nat
            }),
            match url_s {
                Some(s) => lookup(pv.take(i as int), sk_url()) == Some(encode_utf8(s@)) && valid_utf8(encode_utf8(s@)),
                None => lookup(pv.take(i as int), sk_url()) is None,
            },
            match format {
                Some(x) => lookup(pv.take(i as int), sk_format()) matches Some(v)
                    && spec_parse_format(v) == Some(x),
                None => lookup(pv.take(i as int), sk_format()) is None,
            },
            match quality {
                Some(x) => lookup(pv.take(i as int), sk_quality()) matches Some(v)
                    && spec_parse_bounded(v, 1, 100) == Some(x as u64),
                None => lookup(pv.take(i as int), sk_quality()) is None,
            },
            match width {
                Some(x) => lookup(pv.take(i as int), sk_width()) matches Some(v)
                    && spec_parse_bounded(v, 1, 65535) == Some(x as u64),
                None => lookup(pv.take(i as int), sk_width()) is None,
            },
            match height {
                Some(x) => lookup(pv.take(i as int), sk_height()) matches Some(v)
                    && spec_parse_bounded(v, 1, 65535) == Some(x as u64),
                None => lookup(pv.take(i as int), sk_height()) is None,
            },
            match scale {
                Some(x) => lookup(pv.take(i as int), sk_scale()) matches Some(v)
                    && spec_parse_bounded(v, 1, 255) == Some(x as u64),
                None => lookup(pv.take(i as int), sk_scale()) is None,
            },
            match ttl {
                Some(x) => lookup(pv.take(i as int), sk_ttl()) matches Some(v)
                    && spec_parse_bounded(v, 0, u64::MAX) == Some(x),
                None => lookup(pv.take(i as int), sk_ttl()) is None,
            },
            match full_page {
                Some(x) => lookup(pv.take(i as int), sk_full_page()) matches Some(v)
                    && spec_parse_bool(v) == Some(x),
                None => lookup(pv.take(i as int), sk_full_page()) is None,
            },
            match omit_background {
                Some(x) => lookup(pv.take(i as int), sk_omit_background()) matches Some(v)
                    && spec_parse_bool(v) == Some(x),
                None => lookup(pv.take(i as int), sk_omit_background()) is None,
            },
        decreases pairs.len() - i,
    {
        proof {
            lemma_screenshot_keys();
            reveal_strlit("url");
            reveal_strlit("format");
            reveal_strlit("quality");
            reveal_strlit("width");
            reveal_strlit("height");
            reveal_strlit("scale");
            reveal_strlit("ttl");
            reveal_strlit("full_page");
            reveal_strlit("omit_background");
            assert(("url").is_ascii());
            assert(("format").is_ascii());
            assert(("quality").is_ascii());
            assert(("width").is_ascii());
            assert(("height").is_ascii());
            assert(("scale").is_ascii());
            assert(("ttl").is_ascii());
            assert(("full_page").is_ascii());
            assert(("omit_background").is_ascii());
            assert(pv[i as int] == pairs@[i as int].view_pair());
            assert(pv.take(i as int + 1) =~~= pv.take(i as int).push(pv[i as int]));
            lemma_count_lookup_snoc(pv.take(i as int), pv[i as int], sk_url());
            lemma_count_lookup_snoc(pv.take(i as int), pv[i as int], sk_format());
            lemma_count_lookup_snoc(pv.take(i as int), pv[i as int], sk_quality());
            lemma_count_lookup_snoc(pv.take(i as int), pv[i as int], sk_width());
            lemma_count_lookup_snoc(pv.take(i as int), pv[i as int], sk_height());
            lemma_count_lookup_snoc(pv.take(i as int), pv[i as int], sk_scale());
            lemma_count_lookup_snoc(pv.take(i as int), pv[i as int], sk_ttl());
            lemma_count_lookup_snoc(pv.take(i as int), pv[i as int], sk_full_page());
            lemma_count_lookup_snoc(pv.take(i as int), pv[i as int], sk_omit_background());
        }
        let v = vstd::slice::slice_to_vec(pairs[i].value.as_slice());
        if key_is(&pairs[i].key, "url") {
            if url_s.is_some() {
                proof {
                    lemma_count_prefix(pv, sk_url(), i as int + 1);
                }
                return None;
            }
            proof {
                lemma_lookup_prefix(pv, sk_url(), i as int + 1);
            }
            match bytes_to_string(v) {
                Some(s) => {
                    url_s = Some(s);
                },
                None => {
                    return None;
                },
            }
        } else if key_is(&pairs[i].key, "format") {
            if format.is_some() {
                proof {
                    lemma_count_prefix(pv, sk_format(), i as int + 1);
                }
                return None;
            }
            proof {
                lemma_lookup_prefix(pv, sk_format(), i as int + 1);
            }
            match parse_format_bytes(&v) {
                Some(f) => {
                    format = Some(f);
                },
                None => {
                    return None;
                },
            }
        } else if key_is(&pairs[i].key, "quality") {
            if quality.is_some() {
                proof {
                    lemma_count_prefix(pv, sk_quality(), i as int + 1);
                }
                return None;
            }
            proof {
                lemma_lookup_prefix(pv, sk_quality(), i as int + 1);
            }
            match parse_bounded(v.as_slice(), 1, 100) {
                Some(x) => {
                    quality = Some(x as u16);
                },
                None => {
                    return None;
                },
            }
        } else if key_is(&pairs[i].key, "width") {
            if width.is_some() {
                proof {
                    lemma_count_prefix(pv, sk_width(), i as int + 1);
                }
                return None;
            }
            proof {
                lemma_lookup_prefix(pv, sk_width(), i as int + 1);
            }
            match parse_bounded(v.as_slice(), 1, 65535) {
                Some(x) => {
                    width = Some(x as u16);
                },
                None => {
                    return None;
                },
            }
        } else if key_is(&pairs[i].key, "height") {
            if height.is_some() {
                proof {
                    lemma_count_prefix(pv, sk_height(), i as int + 1);
                }
                return None;
            }
            proof {
                lemma_lookup_prefix(pv, sk_height(), i as int + 1);
            }
            match parse_bounded(v.as_slice(), 1, 65535) {
                Some(x) => {
                    height = Some(x as u16);
                },
                None => {
                    return None;
                },
            }
        } else if key_is(&pairs[i].key, "scale") {
            if scale.is_some() {
                proof {
                    lemma_count_prefix(pv, sk_scale(), i as int + 1);
                }
                return None;
            }
            proof {
                lemma_lookup_prefix(pv, sk_scale(), i as int + 1);
            }
            match parse_bounded(v.as_slice(), 1, 255) {
                Some(x) => {
                    scale = Some(x as u8);
                },
                None => {
                    return None;
                },
            }
        } else if key_is(&pairs[i].key, "ttl") {
            if ttl.is_some() {
                proof {
                    lemma_count_prefix(pv, sk_ttl(), i as int + 1);
                }
                return None;
            }
            proof {
                lemma_lookup_prefix(pv, sk_ttl(), i as int + 1);
            }
            match parse_bounded(v.as_slice(), 0, u64::MAX) {
                Some(x) => {
                    ttl = Some(x);
                },
                None => {
                    return None;
                },
            }
        } else if key_is(&pairs[i].key, "full_page") {
            if full_page.is_some() {
                proof {
                    lemma_count_prefix(pv, sk_full_page(), i as int + 1);
                }
                return None;
            }
            proof {
                lemma_lookup_prefix(pv, sk_full_page(), i as int + 1);
            }
            match parse_bool_bytes(&v) {
                Some(x) => {
                    full_page = Some(x);
                },
                None => {
                    return None;
                },
            }
        } else if key_is(&pairs[i].key, "omit_background") {
            if omit_background.is_some() {
                proof {
                    lemma_count_prefix(pv, sk_omit_background(), i as int + 1);
                }
                return None;
            }
            proof {
                lemma_lookup_prefix(pv, sk_omit_background(), i as int + 1);
            }
            match parse_bool_bytes(&v) {
                Some(x) => {
                    omit_background = Some(x);
                },
                None => {
                    return None;
                },
            }
        } else {
            proof {
                assert(!is_screenshot_key(pv[i as int].0));
            }
            return None;
        }
        i = i + 1;
    }
    proof {
        assert(pv.take(i as int) =~~= pv);
    }
    let url_str = match url_s {
        Some(s) => s,
        None => {
            return None;
        },
    };
    Some(
        ScreenshotRequestQSParams {
            url: url_str,
            format,
            quality,
            width,
            height,
            scale,
            ttl,
            full_page,
            omit_background,
        },
    )
}

/// Default capture format: JPEG.
pub fn default_format() -> (r: Option<ImageFormat>)
    ensures
        r == Some(ImageFormat::Jpeg),
{
    Some(ImageFormat::Jpeg)
}

/// Default JPEG quality.
pub fn default_quality() -> (r: Option<u16>)
    ensures
        r == Some(40u16),
{
    Some(40)
}

/// Default viewport width in pixels.
pub fn default_width() -> (r: Option<u16>)
    ensures
        r == Some(1920u16),
{
    Some(1920)
}

/// Default viewport height in pixels.
pub fn default_height() -> (r: Option<u16>)
    ensures
        r == Some(1080u16),
{
    Some(1080)
}

/// Default scale in tenths: five tenths.
pub fn default_scale() -> (r: Option<u8>)
    ensures
        r == Some(5u8),
{
    Some(5)
}

/// Default cache validity window in seconds.
pub fn default_ttl() -> (r: Option<u64>)
    ensures
        r == Some(60u64),
{
    Some(60)
}

/// The screenshot defaults a bucket starts with.
pub fn default_buckets_screenshot_task_params() -> (r: Option<ScreenshotRequestParams>)
    ensures
        r is Some,
        r.unwrap().format == Some(ImageFormat::Jpeg),
        r.unwrap().quality == Some(40u16),
        r.unwrap().width == Some(1920u16),
        r.unwrap().height == Some(1080u16),
        r.unwrap().scale == Some(5u8),
        r.unwrap().ttl == Some(60u64),
        r.unwrap().full_page is None,
        r.unwrap().omit_background is None,
{
    Some(
        ScreenshotRequestParams {
            format: default_format(),
            quality: default_quality(),
            width: default_width(),
            height: default_height(),
            scale: default_scale(),
            ttl: default_ttl(),
            full_page: None,
            omit_background: None,
        },
    )
}

} // verus!
