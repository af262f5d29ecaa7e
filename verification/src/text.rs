//! Byte-level text helpers: decimal and hexadecimal rendering, decimal
//! parsing, and the form-urlencoded percent codec that the presigned-URL
//! query strings use.
use vstd::prelude::*;

verus! {

/// ASCII decimal digit.
pub open spec fn is_digit_byte(b: u8) -> bool {
    0x30 <= b && b <= 0x39
}

/// ASCII hexadecimal digit, either case.
pub open spec fn is_hex_byte(b: u8) -> bool {
    is_digit_byte(b) || (0x61 <= b && b <= 0x66) || (0x41 <= b && b <= 0x46)
}

/// Numeric value of a hexadecimal digit byte.
pub open spec fn hex_byte_val(b: u8) -> nat
    recommends
        is_hex_byte(b),
{
    if is_digit_byte(b) {
        (b - 0x30) as nat
    } else if 0x61 <= b && b <= 0x66 {
        (b - 0x61 + 10) as nat
    } else {
        (b - 0x41 + 10) as nat
    }
}

/// Lowercase hexadecimal digit for a value below 16.
pub open spec fn hex_digit_lower(d: nat) -> u8
    recommends
        d < 16,
{
    if d < 10 {
        (0x30 + d) as u8
    } else {
        (0x61 + (d - 10)) as u8
    }
}

/// Uppercase hexadecimal digit for a value below 16.
pub open spec fn hex_digit_upper(d: nat) -> u8
    recommends
        d < 16,
{
    if d < 10 {
        (0x30 + d) as u8
    } else {
        (0x41 + (d - 10)) as u8
    }
}

/// Shortest lowercase hexadecimal rendering of `n`, as `{:x}` prints it.
pub open spec fn hex_of(n: nat) -> Seq<u8>
    decreases n,
{
    if n < 16 {
        seq![hex_digit_lower(n)]
    } else {
        hex_of(n / 16).push(hex_digit_lower(n % 16))
    }
}

/// Decimal rendering of `n`, as `{}` prints it.
pub open spec fn dec_of(n: nat) -> Seq<u8>
    decreases n,
{
    if n < 10 {
        seq![(0x30 + n) as u8]
    } else {
        dec_of(n / 10).push((0x30 + n % 10) as u8)
    }
}

/// Value of a sequence of decimal digit bytes, most significant first.
pub open spec fn dec_val(s: Seq<u8>) -> nat
    decreases s.len(),
{
    if s.len() == 0 {
        0
    } else {
        dec_val(s.drop_last()) * 10 + if is_digit_byte(s.last()) {
            (s.last() - 0x30) as nat
        } else {
            0
        }
    }
}

/// Every byte is a decimal digit.
pub open spec fn all_digits(s: Seq<u8>) -> bool {
    forall|i: int| 0 <= i < s.len() ==> is_digit_byte(#[trigger] s[i])
}

/// A decimal rendering consists of digits and reads back as the value
/// rendered.
pub proof fn lemma_dec_of_val(n: nat)
    ensures
        all_digits(dec_of(n)),
        dec_val(dec_of(n)) == n,
        dec_of(n).len() >= 1,
    decreases n,
{
    if n < 10 {
        let s = dec_of(n);
        assert(s =~= seq![(0x30 + n) as u8]);
        assert(s.last() == (0x30 + n) as u8);
        assert(s.drop_last() =~= Seq::<u8>::empty());
        assert(dec_val(s.drop_last()) == 0);
        assert(is_digit_byte(s.last()));
        assert(dec_val(s) == (s.last() - 0x30) as nat);
        assert((s.last() - 0x30) as nat == n);
    } else {
        lemma_dec_of_val(n / 10);
        let s = dec_of(n);
        assert(s.drop_last() =~= dec_of(n / 10));
        assert(s.last() == (0x30 + n % 10) as u8);
        assert(is_digit_byte(s.last()));
        assert((s.last() - 0x30) as nat == n % 10);
        assert(dec_val(s) == dec_val(dec_of(n / 10)) * 10 + n % 10);
        assert(n / 10 * 10 + n % 10 == n) by (nonlinear_arith);
        assert(forall|i: int|
            0 <= i < s.len() ==> is_digit_byte(#[trigger] s[i]) == if i < s.len() - 1 {
                is_digit_byte(dec_of(n / 10)[i])
            } else {
                is_digit_byte((0x30 + n % 10) as u8)
            });
    }
}

/// A hexadecimal rendering consists of lowercase hex digits.
pub proof fn lemma_hex_of_digits(n: nat)
    ensures
        forall|i: int|
            0 <= i < hex_of(n).len() ==> is_hex_byte(#[trigger] hex_of(n)[i]) && !(0x41
                <= hex_of(n)[i] <= 0x46),
        hex_of(n).len() >= 1,
    decreases n,
{
    if n < 16 {
    } else {
        lemma_hex_of_digits(n / 16);
        let s = hex_of(n);
        assert(forall|i: int| 0 <= i < s.len() - 1 ==> s[i] == hex_of(n / 16)[i]);
    }
}

/// Appends the decimal rendering of `n` to `out`.
pub fn push_u64_dec(out: &mut Vec<u8>, n: u64)
    ensures
        final(out)@ == old(out)@ + dec_of(n as nat),
    decreases n,
{
    if n < 10 {
        out.push(0x30 + n as u8);
        assert(out@ =~= old(out)@ + dec_of(n as nat));
    } else {
        push_u64_dec(out, n / 10);
        out.push(0x30 + (n % 10) as u8);
        assert(out@ =~= old(out)@ + dec_of(n as nat));
    }
}

/// Appends the lowercase hexadecimal rendering of `n` to `out`.
pub fn push_u64_hex(out: &mut Vec<u8>, n: u64)
    ensures
        final(out)@ == old(out)@ + hex_of(n as nat),
    decreases n,
{
    if n < 16 {
        out.push(hex_digit_lower_exec(n as u8));
        assert(out@ =~= old(out)@ + hex_of(n as nat));
    } else {
        push_u64_hex(out, n / 16);
        out.push(hex_digit_lower_exec((n % 16) as u8));
        assert(out@ =~= old(out)@ + hex_of(n as nat));
    }
}

/// Lowercase hexadecimal digit byte for a value below 16.
pub fn hex_digit_lower_exec(d: u8) -> (r: u8)
    requires
        d < 16,
    ensures
        r == hex_digit_lower(d as nat),
{
    if d < 10 {
        0x30 + d
    } else {
        0x61 + (d - 10)
    }
}

/// Uppercase hexadecimal digit byte for a value below 16.
pub fn hex_digit_upper_exec(d: u8) -> (r: u8)
    requires
        d < 16,
    ensures
        r == hex_digit_upper(d as nat),
{
    if d < 10 {
        0x30 + d
    } else {
        0x41 + (d - 10)
    }
}

/// Growing a digit string multiplies its value, so a prefix never reads
/// back larger than the whole.
pub proof fn lemma_dec_val_prefix(s: Seq<u8>, i: int)
    requires
        0 <= i <= s.len(),
    ensures
        dec_val(s.take(i)) <= dec_val(s),
    decreases s.len() - i,
{
    if i < s.len() {
        assert(s.take(i + 1).drop_last() =~= s.take(i));
        assert(dec_val(s.take(i)) <= dec_val(s.take(i + 1)));
        lemma_dec_val_prefix(s, i + 1);
        assert(s.take(s.len() as int) =~= s);
    } else {
        assert(s.take(i) =~= s);
    }
}

/// Parses a nonempty all-decimal byte string into a `u64`; rejects empty
/// input, non-digits, and values over `u64::MAX`.
pub fn parse_u64_dec(s: &[u8]) -> (r: Option<u64>)
    ensures
        match r {
            Some(v) => s@.len() > 0 && all_digits(s@) && v == dec_val(s@),
            None => s@.len() == 0 || !all_digits(s@) || dec_val(s@) > u64::MAX,
        },
{
    if s.len() == 0 {
        return None;
    }
    let mut v: u64 = 0;
    let mut i: usize = 0;
    while i < s.len()
        invariant
            0 <= i <= s@.len(),
            all_digits(s@.take(i as int)),
            v == dec_val(s@.take(i as int)),
        decreases s@.len() - i,
    {
        let b = s[i];
        if b < 0x30 || b > 0x39 {
            assert(!is_digit_byte(s@[i as int]));
            return None;
        }
        let d = b - 0x30;
        if v > (u64::MAX - d as u64) / 10 {
            proof {
                assert(s@.take(i as int + 1).drop_last() =~= s@.take(i as int));
                assert(dec_val(s@.take(i as int + 1)) > u64::MAX);
                lemma_dec_val_prefix(s@, i as int + 1);
            }
            return None;
        }
        proof {
            assert(s@.take(i as int + 1).drop_last() =~= s@.take(i as int));
        }
        v = v * 10 + d as u64;
        i = i + 1;
    }
    proof {
        assert(s@.take(i as int) =~= s@);
    }
    Some(v)
}

/// Byte that form-urlencoding leaves as itself.
pub open spec fn is_unreserved(b: u8) -> bool {
    (0x41 <= b && b <= 0x5a) || (0x61 <= b && b <= 0x7a) || is_digit_byte(b) || b == 0x2d || b
        == 0x2e || b == 0x5f || b == 0x7e
}

/// Form-urlencoding of one byte: unreserved bytes stand as themselves,
/// space becomes `+`, anything else `%XX` with uppercase hex.
pub open spec fn pct_byte(b: u8) -> Seq<u8> {
    if is_unreserved(b) {
        seq![b]
    } else if b == 0x20 {
        seq![0x2bu8]
    } else {
        seq![0x25u8, hex_digit_upper((b / 16) as nat), hex_digit_upper((b % 16) as nat)]
    }
}

/// Form-urlencoding of a byte string.
pub open spec fn pct_encode(s: Seq<u8>) -> Seq<u8>
    decreases s.len(),
{
    if s.len() == 0 {
        Seq::empty()
    } else {
        pct_byte(s[0]) + pct_encode(s.drop_first())
    }
}

/// Form-urldecoding: `%XX` (either hex case) becomes the byte, `+` a
/// space, every other byte itself; a dangling or malformed `%` fails.
pub open spec fn pct_decode(s: Seq<u8>) -> Option<Seq<u8>>
    decreases s.len(),
{
    if s.len() == 0 {
        Some(Seq::empty())
    } else if s[0] == 0x25 {
        if s.len() >= 3 && is_hex_byte(s[1]) && is_hex_byte(s[2]) {
            match pct_decode(s.skip(3)) {
                Some(r) => Some(
                    seq![(hex_byte_val(s[1]) * 16 + hex_byte_val(s[2])) as u8] + r,
                ),
                None => None,
            }
        } else {
            None
        }
    } else if s[0] == 0x2b {
        match pct_decode(s.drop_first()) {
            Some(r) => Some(seq![0x20u8] + r),
            None => None,
        }
    } else {
        match pct_decode(s.drop_first()) {
            Some(r) => Some(seq![s[0]] + r),
            None => None,
        }
    }
}

/// Decoding inverts encoding: every byte string survives the round trip.
pub proof fn lemma_pct_round_trip(s: Seq<u8>)
    ensures
        pct_decode(pct_encode(s)) == Some(s),
    decreases s.len(),
{
    if s.len() == 0 {
        assert(pct_encode(s) =~= Seq::<u8>::empty());
        assert(pct_decode(pct_encode(s)).unwrap() =~= s);
    } else {
        let b = s[0];
        let e = pct_encode(s);
        let rest = pct_encode(s.drop_first());
        lemma_pct_round_trip(s.drop_first());
        if is_unreserved(b) {
            assert(e[0] == b && b != 0x25 && b != 0x2b);
            assert(e.drop_first() =~= rest);
            assert(seq![b] + s.drop_first() =~= s);
        } else if b == 0x20 {
            assert(e[0] == 0x2b);
            assert(e.drop_first() =~= rest);
            assert(seq![0x20u8] + s.drop_first() =~= s);
        } else {
            assert(e[0] == 0x25);
            assert(e.len() >= 3);
            assert(e[1] == hex_digit_upper((b / 16) as nat));
            assert(e[2] == hex_digit_upper((b % 16) as nat));
            assert(is_hex_byte(e[1]) && is_hex_byte(e[2]));
            assert(hex_byte_val(e[1]) == (b / 16) as nat);
            assert(hex_byte_val(e[2]) == (b % 16) as nat);
            assert(b / 16 * 16 + b % 16 == b) by (nonlinear_arith);
            assert((hex_byte_val(e[1]) * 16 + hex_byte_val(e[2])) as u8 == b);
            assert(e.skip(3) =~= rest);
            assert(seq![b] + s.drop_first() =~= s);
        }
    }
}

/// An encoded string never contains the query separators `&` and `=`,
/// nor a stray `%` that is not part of an escape.
pub proof fn lemma_pct_encode_avoids(s: Seq<u8>)
    ensures
        forall|i: int|
            0 <= i < pct_encode(s).len() ==> #[trigger] pct_encode(s)[i] != 0x26 && pct_encode(
                s,
            )[i] != 0x3d,
    decreases s.len(),
{
    if s.len() > 0 {
        lemma_pct_encode_avoids(s.drop_first());
        let e = pct_encode(s);
        let h = pct_byte(s[0]);
        assert(forall|i: int|
            0 <= i < e.len() ==> e[i] == if i < h.len() {
                h[i]
            } else {
                pct_encode(s.drop_first())[i - h.len()]
            });
    }
}

/// Encoding a string one byte longer appends that byte's encoding.
pub proof fn lemma_pct_encode_snoc(s: Seq<u8>, b: u8)
    ensures
        pct_encode(s.push(b)) == pct_encode(s) + pct_byte(b),
    decreases s.len(),
{
    if s.len() == 0 {
        assert(s.push(b)[0] == b);
        assert(s.push(b).drop_first() =~= Seq::<u8>::empty());
        assert(pct_encode(Seq::<u8>::empty()) == Seq::<u8>::empty());
        assert(pct_encode(s.push(b)) == pct_byte(b) + Seq::<u8>::empty());
        assert(pct_byte(b) + Seq::<u8>::empty() =~= pct_byte(b));
        assert(pct_encode(s) + pct_byte(b) =~= pct_byte(b));
    } else {
        assert(s.push(b).drop_first() =~= s.drop_first().push(b));
        lemma_pct_encode_snoc(s.drop_first(), b);
        assert(s.push(b)[0] == s[0]);
        assert(pct_encode(s.push(b)) == pct_byte(s[0]) + (pct_encode(s.drop_first()) + pct_byte(
            b,
        )));
        assert(pct_byte(s[0]) + (pct_encode(s.drop_first()) + pct_byte(b)) =~= (pct_byte(s[0])
            + pct_encode(s.drop_first())) + pct_byte(b));
    }
}

/// Appends the form-urlencoding of `s` to `out`.
pub fn pct_encode_push(out: &mut Vec<u8>, s: &[u8])
    ensures
        final(out)@ == old(out)@ + pct_encode(s@),
{
    let mut i: usize = 0;
    proof {
        assert(s@.take(0) =~= Seq::<u8>::empty());
        assert(pct_encode(s@.take(0)) =~= Seq::<u8>::empty());
        assert(out@ =~= old(out)@ + pct_encode(s@.take(0)));
    }
    while i < s.len()
        invariant
            i <= s@.len(),
            out@ == old(out)@ + pct_encode(s@.take(i as int)),
        decreases s@.len() - i,
    {
        let b = s[i];
        let unreserved = (0x41 <= b && b <= 0x5a) || (0x61 <= b && b <= 0x7a) || (0x30 <= b && b
            <= 0x39) || b == 0x2d || b == 0x2e || b == 0x5f || b == 0x7e;
        if unreserved {
            out.push(b);
        } else if b == 0x20 {
            out.push(0x2b);
        } else {
            out.push(0x25);
            out.push(hex_digit_upper_exec(b / 16));
            out.push(hex_digit_upper_exec(b % 16));
        }
        proof {
            lemma_pct_encode_snoc(s@.take(i as int), s@[i as int]);
            assert(s@.take(i as int).push(s@[i as int]) =~= s@.take(i as int + 1));
            assert(out@ =~= old(out)@ + pct_encode(s@.take(i as int + 1)));
        }
        i = i + 1;
    }
    proof {
        assert(s@.take(i as int) =~= s@);
    }
}

/// Tests whether a byte is a hexadecimal digit.
pub fn is_hex_byte_exec(b: u8) -> (r: bool)
    ensures
        r == is_hex_byte(b),
{
    (0x30 <= b && b <= 0x39) || (0x61 <= b && b <= 0x66) || (0x41 <= b && b <= 0x46)
}

/// Numeric value of a hexadecimal digit byte.
pub fn hex_byte_val_exec(b: u8) -> (r: u8)
    requires
        is_hex_byte(b),
    ensures
        r == hex_byte_val(b),
        r < 16,
{
    if 0x30 <= b && b <= 0x39 {
        b - 0x30
    } else if 0x61 <= b && b <= 0x66 {
        b - 0x61 + 10
    } else {
        b - 0x41 + 10
    }
}

/// Appends the form-urldecoding of `s[i..end]` to `out`; reports failure
/// on a malformed escape, and then leaves `out` in an unspecified state.
pub fn pct_decode_append(out: &mut Vec<u8>, s: &[u8], i: usize, end: usize) -> (ok: bool)
    requires
        i <= end <= s@.len(),
    ensures
        ok == (pct_decode(s@.subrange(i as int, end as int)) is Some),
        ok ==> final(out)@ == old(out)@ + pct_decode(s@.subrange(i as int, end as int)).unwrap(),
    decreases end - i,
{
    let ghost t = s@.subrange(i as int, end as int);
    if i == end {
        proof {
            assert(t =~= Seq::<u8>::empty());
            assert(out@ =~= old(out)@ + pct_decode(t).unwrap());
        }
        return true;
    }
    let b = s[i];
    proof {
        assert(t[0] == s@[i as int]);
    }
    if b == 0x25 {
        if end - i > 2 && is_hex_byte_exec(s[i + 1]) && is_hex_byte_exec(s[i + 2]) {
            proof {
                assert(t.len() >= 3);
                assert(t[1] == s@[i as int + 1] && t[2] == s@[i as int + 2]);
            }
            let v = hex_byte_val_exec(s[i + 1]) * 16 + hex_byte_val_exec(s[i + 2]);
            out.push(v);
            let ok = pct_decode_append(out, s, i + 3, end);
            proof {
                assert(t.skip(3) =~= s@.subrange(i as int + 3, end as int));
                if ok {
                    assert(out@ =~= old(out)@ + pct_decode(t).unwrap());
                }
            }
            ok
        } else {
            proof {
                if t.len() >= 3 {
                    assert(t[1] == s@[i as int + 1] && t[2] == s@[i as int + 2]);
                }
            }
            false
        }
    } else if b == 0x2b {
        out.push(0x20);
        let ok = pct_decode_append(out, s, i + 1, end);
        proof {
            assert(t.drop_first() =~= s@.subrange(i as int + 1, end as int));
            if ok {
                assert(out@ =~= old(out)@ + pct_decode(t).unwrap());
            }
        }
        ok
    } else {
        out.push(b);
        let ok = pct_decode_append(out, s, i + 1, end);
        proof {
            assert(t.drop_first() =~= s@.subrange(i as int + 1, end as int));
            if ok {
                assert(out@ =~= old(out)@ + pct_decode(t).unwrap());
            }
        }
        ok
    }
}

/// Characters of an ASCII byte string.
pub open spec fn ascii_chars(s: Seq<u8>) -> Seq<char> {
    s.map(|_i: int, b: u8| b as char)
}

/// Bytes of an ASCII character string.
pub open spec fn ascii_bytes(s: Seq<char>) -> Seq<u8> {
    s.map(|_i: int, c: char| c as u8)
}

/// ASCII bytes survive the trip through characters, and their characters
/// UTF-8-encode back to exactly those bytes.
pub proof fn lemma_ascii_chars_bytes(b: Seq<u8>)
    requires
        forall|i: int| 0 <= i < b.len() ==> b[i] < 0x80,
    ensures
        vstd::utf8::is_ascii_chars(ascii_chars(b)),
        vstd::utf8::encode_utf8(ascii_chars(b)) == b,
        ascii_bytes(ascii_chars(b)) == b,
{
    let c = ascii_chars(b);
    assert(forall|i: int| 0 <= i < c.len() ==> (#[trigger] c[i]) as u32 == b[i]);
    assert(vstd::utf8::is_ascii_chars(c));
    vstd::utf8::is_ascii_chars_encode_utf8(c);
    assert(vstd::utf8::encode_utf8(c) =~= b);
    assert(ascii_bytes(c) =~= b);
}

/// Appends the bytes of an ASCII string to `out`.
pub fn push_ascii(out: &mut Vec<u8>, s: &str)
    requires
        s.is_ascii(),
    ensures
        final(out)@ == old(out)@ + ascii_bytes(s@),
{
    let n = s.unicode_len();
    let mut i: usize = 0;
    proof {
        assert(out@ =~= old(out)@ + ascii_bytes(s@).take(0));
    }
    while i < n
        invariant
            i <= n,
            n == s@.len(),
            s.is_ascii(),
            out@ == old(out)@ + ascii_bytes(s@).take(i as int),
        decreases n - i,
    {
        let b = s.get_ascii(i);
        out.push(b);
        proof {
            assert(ascii_bytes(s@)[i as int] == b);
            assert(out@ =~= old(out)@ + ascii_bytes(s@).take(i as int + 1));
        }
        i = i + 1;
    }
    proof {
        assert(ascii_bytes(s@).take(i as int) =~= ascii_bytes(s@));
    }
}

/// Whether two strings hold the same text.
pub fn str_eq(a: &str, b: &str) -> (r: bool)
    ensures
        r == (a@ == b@),
{
    let r = bytes_eq(a.as_bytes(), b.as_bytes());
    proof {
        if vstd::utf8::encode_utf8(a@) == vstd::utf8::encode_utf8(b@) {
            vstd::utf8::encode_utf8_decode_utf8(a@);
            vstd::utf8::encode_utf8_decode_utf8(b@);
        }
    }
    r
}

/// A string of unreserved bytes is encoded, and decoded, as itself.
pub proof fn lemma_pct_plain(s: Seq<u8>)
    requires
        forall|i: int| 0 <= i < s.len() ==> is_unreserved(#[trigger] s[i]),
    ensures
        pct_encode(s) == s,
        pct_decode(s) == Some(s),
    decreases s.len(),
{
    if s.len() == 0 {
        assert(pct_encode(s) =~= s);
        assert(pct_decode(s).unwrap() =~= s);
    } else {
        lemma_pct_plain(s.drop_first());
        assert(pct_encode(s) =~= s);
        assert(s[0] != 0x25 && s[0] != 0x2b);
        assert(seq![s[0]] + s.drop_first() =~= s);
    }
}

/// Everything the encoder emits is ASCII.
pub proof fn lemma_pct_encode_ascii(s: Seq<u8>)
    ensures
        forall|i: int| 0 <= i < pct_encode(s).len() ==> (#[trigger] pct_encode(s)[i]) < 0x80,
    decreases s.len(),
{
    if s.len() > 0 {
        lemma_pct_encode_ascii(s.drop_first());
        let e = pct_encode(s);
        let h = pct_byte(s[0]);
        assert(forall|i: int|
            0 <= i < e.len() ==> e[i] == if i < h.len() {
                h[i]
            } else {
                pct_encode(s.drop_first())[i - h.len()]
            });
    }
}

/// Decimal digit strings are unreserved.
pub proof fn lemma_digits_unreserved(s: Seq<u8>)
    requires
        all_digits(s),
    ensures
        forall|i: int| 0 <= i < s.len() ==> is_unreserved(#[trigger] s[i]),
{
}

/// Relies on `String::from_utf8`: ASCII bytes are valid UTF-8, and the
/// resulting string's characters are exactly those bytes.
#[verifier::external_body]
pub fn ascii_to_string(v: Vec<u8>) -> (s: String)
    requires
        forall|i: int| 0 <= i < v@.len() ==> v@[i] < 0x80,
    ensures
        s@ == ascii_chars(v@),
{
    String::from_utf8(v).unwrap()
}

/// Relies on `String::from_utf8`: returns the string whose UTF-8
/// encoding is exactly the given bytes, or nothing when they are not
/// well-formed UTF-8.
#[verifier::external_body]
pub fn bytes_to_string(v: Vec<u8>) -> (r: Option<String>)
    ensures
        match r {
            Some(s) => vstd::utf8::valid_utf8(v@) && vstd::utf8::encode_utf8(s@) == v@,
            None => !vstd::utf8::valid_utf8(v@),
        },
{
    match String::from_utf8(v) {
        Ok(s) => Some(s),
        Err(_) => None,
    }
}

/// Whether two byte strings are equal.
pub fn bytes_eq(a: &[u8], b: &[u8]) -> (r: bool)
    ensures
        r == (a@ == b@),
{
    if a.len() != b.len() {
        return false;
    }
    let mut i: usize = 0;
    while i < a.len()
        invariant
            i <= a@.len(),
            a@.len() == b@.len(),
            forall|j: int| 0 <= j < i ==> a@[j] == b@[j],
        decreases a@.len() - i,
    {
        if a[i] != b[i] {
            return false;
        }
        i = i + 1;
    }
    proof {
        assert(a@ =~= b@);
    }
    true
}

/// Whether a decoded key equals the given ASCII name.
pub fn key_is(k: &Vec<u8>, s: &str) -> (r: bool)
    requires
        s.is_ascii(),
    ensures
        r == (k@ == ascii_bytes(s@)),
{
    let n = s.unicode_len();
    if k.len() != n {
        return false;
    }
    let mut i: usize = 0;
    while i < n
        invariant
            i <= n,
            n == s@.len(),
            s.is_ascii(),
            k@.len() == n,
            forall|j: int| 0 <= j < i ==> k@[j] == ascii_bytes(s@)[j],
        decreases n - i,
    {
        if k[i] != s.get_ascii(i) {
            proof {
                assert(k@[i as int] != ascii_bytes(s@)[i as int]);
            }
            return false;
        }
        i = i + 1;
    }
    proof {
        assert(k@ =~= ascii_bytes(s@));
    }
    true
}

} // verus!
