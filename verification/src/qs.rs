//! Query-string structure: splitting a form-encoded query into key/value
//! pairs and decoding each side, together with the laws that make the
//! serialize/parse round trip of the presigned-URL codec provable.
use vstd::prelude::*;

use crate::text::{pct_decode, pct_decode_append};

verus! {

/// Splits on a separator byte; the result always has one segment more
/// than the input has separators, so it is never empty.
pub open spec fn split_on(s: Seq<u8>, sep: u8) -> Seq<Seq<u8>>
    decreases s.len(),
{
    if s.len() == 0 {
        seq![Seq::<u8>::empty()]
    } else if s[0] == sep {
        seq![Seq::<u8>::empty()] + split_on(s.drop_first(), sep)
    } else {
        let r = split_on(s.drop_first(), sep);
        seq![seq![s[0]] + r[0]] + r.drop_first()
    }
}

/// A string without the separator splits into itself alone.
pub proof fn lemma_split_on_whole(s: Seq<u8>, sep: u8)
    requires
        forall|i: int| 0 <= i < s.len() ==> s[i] != sep,
    ensures
        split_on(s, sep) == seq![s],
    decreases s.len(),
{
    if s.len() == 0 {
        assert(split_on(s, sep) =~~= seq![s]);
    } else {
        lemma_split_on_whole(s.drop_first(), sep);
        let r = split_on(s.drop_first(), sep);
        assert(r[0] == s.drop_first());
        assert(seq![s[0]] + s.drop_first() =~= s);
        assert(r.drop_first() =~~= Seq::<Seq<u8>>::empty());
        assert(split_on(s, sep) =~~= seq![s]);
    }
}

/// Splitting `a & b` where `a` is separator-free yields `a` and then the
/// split of `b`.
pub proof fn lemma_split_on_concat(a: Seq<u8>, b: Seq<u8>, sep: u8)
    requires
        forall|i: int| 0 <= i < a.len() ==> a[i] != sep,
    ensures
        split_on(a + seq![sep] + b, sep) == seq![a] + split_on(b, sep),
    decreases a.len(),
{
    let s = a + seq![sep] + b;
    if a.len() == 0 {
        assert(s[0] == sep);
        assert(s.drop_first() =~= b);
        assert(seq![Seq::<u8>::empty()] + split_on(b, sep) =~~= seq![a] + split_on(b, sep));
    } else {
        assert(s[0] == a[0] && a[0] != sep);
        assert(s.drop_first() =~= a.drop_first() + seq![sep] + b);
        lemma_split_on_concat(a.drop_first(), b, sep);
        let r = split_on(s.drop_first(), sep);
        assert(r == seq![a.drop_first()] + split_on(b, sep));
        assert(r[0] == a.drop_first());
        assert(seq![s[0]] + r[0] =~= a);
        assert(r.drop_first() =~~= split_on(b, sep));
        assert(split_on(s, sep) =~~= seq![a] + split_on(b, sep));
    }
}

/// Splits a segment at its first `sep` into key and value; a segment
/// without it is all key with an empty value.
pub open spec fn split_pair_on(s: Seq<u8>, sep: u8) -> (Seq<u8>, Seq<u8>)
    decreases s.len(),
{
    if s.len() == 0 {
        (Seq::<u8>::empty(), Seq::<u8>::empty())
    } else if s[0] == sep {
        (Seq::<u8>::empty(), s.drop_first())
    } else {
        let (k, v) = split_pair_on(s.drop_first(), sep);
        (seq![s[0]] + k, v)
    }
}

/// A query segment splits at its first `=`.
pub open spec fn split_pair(s: Seq<u8>) -> (Seq<u8>, Seq<u8>) {
    split_pair_on(s, 0x3d)
}

/// Splitting `k sep v` at the first `sep` recovers `k` and `v` when `k`
/// is free of it.
pub proof fn lemma_split_pair_on_concat(k: Seq<u8>, v: Seq<u8>, sep: u8)
    requires
        forall|i: int| 0 <= i < k.len() ==> k[i] != sep,
    ensures
        split_pair_on(k + seq![sep] + v, sep) == (k, v),
    decreases k.len(),
{
    let s = k + seq![sep] + v;
    if k.len() == 0 {
        assert(s[0] == sep);
        assert(s.drop_first() =~= v);
        assert(split_pair_on(s, sep) == (Seq::<u8>::empty(), v));
        assert(Seq::<u8>::empty() =~= k);
    } else {
        assert(s[0] == k[0] && k[0] != sep);
        assert(s.drop_first() =~= k.drop_first() + seq![sep] + v);
        lemma_split_pair_on_concat(k.drop_first(), v, sep);
        assert(seq![s[0]] + k.drop_first() =~= k);
    }
}

/// Splitting `k = v` at the first `=` recovers `k` and `v` when `k` is
/// free of `=`.
pub proof fn lemma_split_pair_concat(k: Seq<u8>, v: Seq<u8>)
    requires
        forall|i: int| 0 <= i < k.len() ==> k[i] != 0x3d,
    ensures
        split_pair(k + seq![0x3du8] + v) == (k, v),
{
    lemma_split_pair_on_concat(k, v, 0x3d);
}

/// Decodes one `key=value` segment; fails if either side has a malformed
/// escape.
pub open spec fn decode_pair(s: Seq<u8>) -> Option<(Seq<u8>, Seq<u8>)> {
    let (k, v) = split_pair(s);
    if pct_decode(k) is Some && pct_decode(v) is Some {
        Some((pct_decode(k).unwrap(), pct_decode(v).unwrap()))
    } else {
        None
    }
}

/// Parse of a whole query string: segments between `&`, each decoded as
/// `key=value`; any malformed escape fails the whole parse.
pub open spec fn parse_query(s: Seq<u8>) -> Option<Seq<(Seq<u8>, Seq<u8>)>> {
    let parts = split_on(s, 0x26);
    if forall|i: int| 0 <= i < parts.len() ==> decode_pair(#[trigger] parts[i]) is Some {
        Some(Seq::new(parts.len(), |i: int| decode_pair(parts[i]).unwrap()))
    } else {
        None
    }
}

/// One decoded key/value pair of a query string.
pub struct QsPair {
    pub key: Vec<u8>,
    pub value: Vec<u8>,
}

impl QsPair {
    /// The pair as a pair of byte sequences.
    pub open spec fn view_pair(&self) -> (Seq<u8>, Seq<u8>) {
        (self.key@, self.value@)
    }
}

/// Position of the first `sep` at or after `i`, or the length if none.
pub(crate) fn find_from(s: &[u8], i: usize, sep: u8) -> (j: usize)
    requires
        i <= s@.len(),
    ensures
        i <= j <= s@.len(),
        forall|k: int| i <= k < j ==> s@[k] != sep,
        j < s@.len() ==> s@[j as int] == sep,
{
    let mut j = i;
    while j < s.len()
        invariant
            i <= j <= s@.len(),
            forall|k: int| i <= k < j ==> s@[k] != sep,
        decreases s@.len() - j,
    {
        if s[j] == sep {
            return j;
        }
        j = j + 1;
    }
    j
}

/// Decodes the segment `s[start..end]` as one `key=value` pair.
fn decode_segment(s: &[u8], start: usize, end: usize) -> (r: Option<QsPair>)
    requires
        start <= end <= s@.len(),
    ensures
        match r {
            Some(p) => decode_pair(s@.subrange(start as int, end as int)) == Some(p.view_pair()),
            None => decode_pair(s@.subrange(start as int, end as int)) is None,
        },
{
    let ghost seg = s@.subrange(start as int, end as int);
    let eq = find_from(s, start, 0x3d);
    let eq = if eq > end {
        end
    } else {
        eq
    };
    let ghost k = s@.subrange(start as int, eq as int);
    let ghost v = if eq < end {
        s@.subrange(eq as int + 1, end as int)
    } else {
        Seq::<u8>::empty()
    };
    proof {
        assert(forall|i: int| 0 <= i < k.len() ==> k[i] != 0x3d);
        if eq < end {
            assert(seg =~= k + seq![0x3du8] + v);
            lemma_split_pair_concat(k, v);
        } else {
            assert(seg =~= k);
            lemma_split_pair_whole(k);
        }
        assert(split_pair(seg) == (k, v));
    }
    let mut key: Vec<u8> = Vec::new();
    let mut value: Vec<u8> = Vec::new();
    let okk = pct_decode_append(&mut key, s, start, eq);
    if !okk {
        return None;
    }
    if eq < end {
        let okv = pct_decode_append(&mut value, s, eq + 1, end);
        if !okv {
            return None;
        }
        let p = QsPair { key, value };
        proof {
            assert(key@ =~= pct_decode(k).unwrap());
            assert(value@ =~= pct_decode(v).unwrap());
        }
        Some(p)
    } else {
        let p = QsPair { key, value };
        proof {
            assert(pct_decode(v) == Some(Seq::<u8>::empty()));
            assert(key@ =~= pct_decode(k).unwrap());
            assert(value@ =~= pct_decode(v).unwrap());
        }
        Some(p)
    }
}

/// Parses the query string `s[i..]` and appends the decoded pairs to
/// `out`; fails exactly when some escape is malformed, and then leaves
/// `out` in an unspecified state.
pub fn parse_query_into(s: &[u8], i: usize, out: &mut Vec<QsPair>) -> (ok: bool)
    requires
        i <= s@.len(),
    ensures
        ok == (parse_query(s@.skip(i as int)) is Some),
        ok ==> final(out)@.map_values(|p: QsPair| p.view_pair()) == old(out)@.map_values(
            |p: QsPair| p.view_pair(),
        ) + parse_query(s@.skip(i as int)).unwrap(),
    decreases s@.len() - i,
{
    let ghost t = s@.skip(i as int);
    let ghost f = |p: QsPair| p.view_pair();
    let j = find_from(s, i, 0x26);
    let ghost seg = s@.subrange(i as int, j as int);
    let seg_pair = decode_segment(s, i, j);
    if j == s.len() {
        proof {
            assert(t =~= seg);
            lemma_split_on_whole(t, 0x26);
            assert(split_on(t, 0x26) == seq![t]);
        }
        match seg_pair {
            None => {
                proof {
                    assert(decode_pair(split_on(t, 0x26)[0]) is None);
                }
                false
            },
            Some(p) => {
                proof {
                    assert(forall|k: int|
                        0 <= k < split_on(t, 0x26).len() ==> decode_pair(
                            #[trigger] split_on(t, 0x26)[k],
                        ) is Some);
                }
                let ghost before = out@;
                out.push(p);
                proof {
                    assert(parse_query(t).unwrap() =~= seq![p.view_pair()]);
                    assert(out@.map_values(f) =~= before.map_values(f) + parse_query(t).unwrap());
                }
                true
            },
        }
    } else {
        let ghost rest = s@.skip(j as int + 1);
        proof {
            assert(t =~= seg + seq![0x26u8] + rest);
            lemma_split_on_concat(seg, rest, 0x26);
            assert(split_on(t, 0x26) == seq![seg] + split_on(rest, 0x26));
        }
        match seg_pair {
            None => {
                proof {
                    assert(split_on(t, 0x26)[0] == seg);
                    assert(decode_pair(split_on(t, 0x26)[0]) is None);
                }
                false
            },
            Some(p) => {
                let ghost before = out@;
                out.push(p);
                let ok = parse_query_into(s, j + 1, out);
                proof {
                    let parts = split_on(t, 0x26);
                    let rparts = split_on(rest, 0x26);
                    assert(forall|k: int| 1 <= k < parts.len() ==> parts[k] == rparts[k - 1]);
                    if ok {
                        assert(forall|k: int|
                            0 <= k < parts.len() ==> decode_pair(#[trigger] parts[k]) is Some);
                        assert(parse_query(t).unwrap() =~= seq![p.view_pair()] + parse_query(
                            rest,
                        ).unwrap());
                        assert((before.push(p)).map_values(f) =~= before.map_values(f) + seq![
                            p.view_pair(),
                        ]);
                        assert(out@.map_values(f) =~= before.map_values(f) + parse_query(
                            t,
                        ).unwrap());
                    } else {
                        assert(!(forall|k: int|
                            0 <= k < rparts.len() ==> decode_pair(#[trigger] rparts[k]) is Some));
                        let bad = choose|k: int|
                            0 <= k < rparts.len() && decode_pair(#[trigger] rparts[k]) is None;
                        assert(parts[bad + 1] == rparts[bad]);
                        assert(decode_pair(parts[bad + 1]) is None);
                    }
                }
                ok
            },
        }
    }
}

/// A string without `sep` splits into itself as key and an empty value.
pub proof fn lemma_split_pair_on_whole(k: Seq<u8>, sep: u8)
    requires
        forall|i: int| 0 <= i < k.len() ==> k[i] != sep,
    ensures
        split_pair_on(k, sep) == (k, Seq::<u8>::empty()),
    decreases k.len(),
{
    if k.len() == 0 {
    } else {
        lemma_split_pair_on_whole(k.drop_first(), sep);
        assert(seq![k[0]] + k.drop_first() =~= k);
    }
}

/// A string without `=` splits into itself as key and an empty value.
pub proof fn lemma_split_pair_whole(k: Seq<u8>)
    requires
        forall|i: int| 0 <= i < k.len() ==> k[i] != 0x3d,
    ensures
        split_pair(k) == (k, Seq::<u8>::empty()),
{
    lemma_split_pair_on_whole(k, 0x3d);
}

/// Splits `s[i..]` on the separator, appending each raw segment to
/// `out`.
pub fn split_push(out: &mut Vec<Vec<u8>>, s: &[u8], i: usize, sep: u8)
    requires
        i <= s@.len(),
    ensures
        final(out)@.map_values(|v: Vec<u8>| v@) == old(out)@.map_values(|v: Vec<u8>| v@)
            + split_on(s@.skip(i as int), sep),
    decreases s@.len() - i,
{
    let ghost t = s@.skip(i as int);
    let ghost f = |v: Vec<u8>| v@;
    let j = find_from(s, i, sep);
    let seg = vstd::slice::slice_to_vec(&s[i..j]);
    let ghost before = out@;
    out.push(seg);
    if j == s.len() {
        proof {
            assert(t =~= s@.subrange(i as int, j as int));
            lemma_split_on_whole(t, sep);
            assert(out@.map_values(f) =~~= before.map_values(f) + split_on(t, sep));
        }
    } else {
        let ghost rest = s@.skip(j as int + 1);
        proof {
            assert(t =~= s@.subrange(i as int, j as int) + seq![sep] + rest);
            lemma_split_on_concat(s@.subrange(i as int, j as int), rest, sep);
        }
        split_push(out, s, j + 1, sep);
        proof {
            assert(out@.map_values(f) =~~= before.map_values(f) + split_on(t, sep));
        }
    }
}

/// How many pairs carry the given key.
pub open spec fn count_key(pairs: Seq<(Seq<u8>, Seq<u8>)>, key: Seq<u8>) -> nat
    decreases pairs.len(),
{
    if pairs.len() == 0 {
        0
    } else {
        (if pairs[0].0 == key {
            1nat
        } else {
            0nat
        }) + count_key(pairs.drop_first(), key)
    }
}

/// The value of the first pair with the given key.
pub open spec fn lookup(pairs: Seq<(Seq<u8>, Seq<u8>)>, key: Seq<u8>) -> Option<Seq<u8>>
    decreases pairs.len(),
{
    if pairs.len() == 0 {
        None
    } else if pairs[0].0 == key {
        Some(pairs[0].1)
    } else {
        lookup(pairs.drop_first(), key)
    }
}

/// Appending a pair adds one to the count of its key and leaves the
/// other counts alone; a lookup that already succeeded is unchanged.
pub proof fn lemma_count_lookup_snoc(pairs: Seq<(Seq<u8>, Seq<u8>)>, p: (Seq<u8>, Seq<u8>), key: Seq<
    u8,
>)
    ensures
        count_key(pairs.push(p), key) == count_key(pairs, key) + if p.0 == key {
            1nat
        } else {
            0nat
        },
        lookup(pairs.push(p), key) == if lookup(pairs, key) is Some {
            lookup(pairs, key)
        } else if p.0 == key {
            Some(p.1)
        } else {
            None
        },
    decreases pairs.len(),
{
    if pairs.len() == 0 {
        assert(pairs.push(p)[0] == p);
        assert(pairs.push(p).drop_first() =~~= Seq::<(Seq<u8>, Seq<u8>)>::empty());
        assert(count_key(Seq::<(Seq<u8>, Seq<u8>)>::empty(), key) == 0);
        assert(count_key(pairs, key) == 0);
        assert(count_key(pairs.push(p), key) == (if p.0 == key {
            1nat
        } else {
            0nat
        }) + count_key(Seq::<(Seq<u8>, Seq<u8>)>::empty(), key));
        assert(lookup(Seq::<(Seq<u8>, Seq<u8>)>::empty(), key) is None);
        assert(lookup(pairs, key) is None);
    } else {
        assert(pairs.push(p).drop_first() =~~= pairs.drop_first().push(p));
        lemma_count_lookup_snoc(pairs.drop_first(), p, key);
        assert(pairs.push(p)[0] == pairs[0]);
        assert(count_key(pairs.push(p), key) == (if pairs[0].0 == key {
            1nat
        } else {
            0nat
        }) + count_key(pairs.drop_first().push(p), key));
        assert(lookup(pairs.push(p), key) == if pairs[0].0 == key {
            Some(pairs[0].1)
        } else {
            lookup(pairs.drop_first().push(p), key)
        });
    }
}

/// A count over a prefix never exceeds the count over the whole.
pub proof fn lemma_count_prefix(pairs: Seq<(Seq<u8>, Seq<u8>)>, key: Seq<u8>, i: int)
    requires
        0 <= i <= pairs.len(),
    ensures
        count_key(pairs.take(i), key) <= count_key(pairs, key),
    decreases pairs.len() - i,
{
    if i < pairs.len() {
        assert(pairs.take(i + 1) =~~= pairs.take(i).push(pairs[i]));
        lemma_count_lookup_snoc(pairs.take(i), pairs[i], key);
        lemma_count_prefix(pairs, key, i + 1);
        assert(pairs.take(pairs.len() as int) =~~= pairs);
    } else {
        assert(pairs.take(i) =~~= pairs);
    }
}

/// A lookup that succeeds on a prefix gives the answer for the whole.
pub proof fn lemma_lookup_prefix(pairs: Seq<(Seq<u8>, Seq<u8>)>, key: Seq<u8>, i: int)
    requires
        0 <= i <= pairs.len(),
        lookup(pairs.take(i), key) is Some,
    ensures
        lookup(pairs, key) == lookup(pairs.take(i), key),
    decreases pairs.len() - i,
{
    if i < pairs.len() {
        assert(pairs.take(i + 1) =~~= pairs.take(i).push(pairs[i]));
        lemma_count_lookup_snoc(pairs.take(i), pairs[i], key);
        lemma_lookup_prefix(pairs, key, i + 1);
    } else {
        assert(pairs.take(i) =~~= pairs);
    }
}

} // verus!
