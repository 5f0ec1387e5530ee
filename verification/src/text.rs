//! Verified text utilities for parsing event bodies: splitting on a
//! separator character, prefix/suffix matching and stripping, and UTF-8
//! decoding.

use vstd::prelude::*;
use vstd::utf8::{decode_utf8, valid_utf8};

verus! {

/// The views of a sequence of strings.
pub open spec fn string_views(v: Seq<String>) -> Seq<Seq<char>> {
    v.map_values(|x: String| x@)
}

/// The segments of `s` between occurrences of `sep`: the empty sequence
/// yields one empty segment, and every occurrence of `sep` ends a segment,
/// so `n` occurrences yield `n + 1` segments.
pub open spec fn split_text(s: Seq<char>, sep: char) -> Seq<Seq<char>>
    decreases s.len(),
{
    if s.len() == 0 {
        seq![Seq::<char>::empty()]
    } else if s[0] == sep {
        seq![Seq::<char>::empty()] + split_text(s.drop_first(), sep)
    } else {
        let rest = split_text(s.drop_first(), sep);
        seq![seq![s[0]] + rest[0]] + rest.drop_first()
    }
}

/// Splitting always yields at least one segment.
pub proof fn lemma_split_text_len(s: Seq<char>, sep: char)
    ensures
        split_text(s, sep).len() >= 1,
    decreases s.len(),
{
    if s.len() == 0 {
    } else {
        lemma_split_text_len(s.drop_first(), sep);
    }
}

/// Appending one character extends the last segment, or, when the character
/// is the separator, opens a new empty segment.
pub proof fn lemma_split_text_push(s: Seq<char>, sep: char, c: char)
    ensures
        ({
            let base = split_text(s, sep);
            split_text(s.push(c), sep) == if c == sep {
                base.push(Seq::<char>::empty())
            } else {
                base.update(base.len() - 1, base.last().push(c))
            }
        }),
    decreases s.len(),
{
    lemma_split_text_len(s, sep);
    let base = split_text(s, sep);
    let t = s.push(c);
    if s.len() == 0 {
        assert(t[0] == c);
        assert(t.drop_first() =~= Seq::<char>::empty());
        assert(split_text(Seq::<char>::empty(), sep) =~~= seq![Seq::<char>::empty()]);
        if c == sep {
            assert(split_text(t, sep) =~~= base.push(Seq::<char>::empty()));
        } else {
            assert(split_text(t, sep) =~~= base.update(base.len() - 1, base.last().push(c)));
        }
    } else {
        let b = split_text(s.drop_first(), sep);
        lemma_split_text_len(s.drop_first(), sep);
        assert(t[0] == s[0]);
        assert(t.drop_first() =~= s.drop_first().push(c));
        lemma_split_text_push(s.drop_first(), sep, c);
        if s[0] == sep {
            assert(base =~~= seq![Seq::<char>::empty()] + b);
            if c == sep {
                assert(split_text(t, sep) =~~= base.push(Seq::<char>::empty()));
            } else {
                assert(base.last() == b.last());
                assert(split_text(t, sep) =~~= base.update(base.len() - 1, base.last().push(c)));
            }
        } else {
            assert(base =~~= seq![seq![s[0]] + b[0]] + b.drop_first());
            if c == sep {
                let r = b.push(Seq::<char>::empty());
                assert(split_text(t, sep) =~~= seq![seq![s[0]] + r[0]] + r.drop_first());
                assert(r[0] == b[0]);
                assert(r.drop_first() =~= b.drop_first().push(Seq::<char>::empty()));
                assert(split_text(t, sep) =~~= base.push(Seq::<char>::empty()));
            } else {
                let r = b.update(b.len() - 1, b.last().push(c));
                assert(split_text(t, sep) =~~= seq![seq![s[0]] + r[0]] + r.drop_first());
                if b.len() == 1 {
                    assert(r[0] == b[0].push(c));
                    assert(r.drop_first() =~= b.drop_first());
                    assert(base.last() =~= seq![s[0]] + b[0]);
                    assert(seq![s[0]] + b[0].push(c) =~= (seq![s[0]] + b[0]).push(c));
                    assert(split_text(t, sep) =~~= base.update(base.len() - 1, base.last().push(c)));
                } else {
                    assert(r[0] == b[0]);
                    assert(r.drop_first() =~= b.drop_first().update(
                        b.len() - 2,
                        b.last().push(c),
                    ));
                    assert(base.last() == b.last());
                    assert(split_text(t, sep) =~~= base.update(base.len() - 1, base.last().push(c)));
                }
            }
        }
    }
}

/// Splits `s` into the segments between occurrences of `sep`.
pub fn split_string(s: &str, sep: char) -> (r: Vec<String>)
    ensures
        string_views(r@) == split_text(s@, sep),
{
    let n = s.unicode_len();
    let mut r: Vec<String> = Vec::new();
    let mut start: usize = 0;
    let mut i: usize = 0;
    proof {
        assert(s@.take(0) =~= Seq::<char>::empty());
        assert(string_views(r@).push(s@.subrange(0, 0)) =~~= seq![Seq::<char>::empty()]);
    }
    while i < n
        invariant
            start <= i <= n,
            n == s@.len(),
            string_views(r@).push(s@.subrange(start as int, i as int)) == split_text(
                s@.take(i as int),
                sep,
            ),
        decreases n - i,
    {
        let ghost views = string_views(r@);
        let ghost seg = s@.subrange(start as int, i as int);
        let c = s.get_char(i);
        proof {
            lemma_split_text_push(s@.take(i as int), sep, s@[i as int]);
            assert(s@.take(i as int).push(s@[i as int]) =~= s@.take(i + 1));
        }
        if c == sep {
            let piece = s.substring_char(start, i).to_owned();
            r.push(piece);
            start = i + 1;
            proof {
                assert(string_views(r@) =~~= views.push(seg));
                assert(s@.subrange(start as int, i + 1) =~= Seq::<char>::empty());
                assert(string_views(r@).push(s@.subrange(start as int, i + 1)) =~~= split_text(
                    s@.take(i + 1),
                    sep,
                ));
            }
        } else {
            proof {
                let base = split_text(s@.take(i as int), sep);
                assert(base.last() == seg);
                assert(base.update(base.len() - 1, seg.push(s@[i as int])) =~~= views.push(
                    seg.push(s@[i as int]),
                ));
                assert(seg.push(s@[i as int]) =~= s@.subrange(start as int, i + 1));
                assert(string_views(r@).push(s@.subrange(start as int, i + 1)) =~~= split_text(
                    s@.take(i + 1),
                    sep,
                ));
            }
        }
        i = i + 1;
    }
    let ghost views = string_views(r@);
    let piece = s.substring_char(start, n).to_owned();
    r.push(piece);
    proof {
        assert(s@.take(n as int) =~= s@);
        assert(string_views(r@) =~~= views.push(s@.subrange(start as int, n as int)));
        assert(string_views(r@) =~~= split_text(s@, sep));
    }
    r
}

/// Whether `p` is a prefix of `s`.
pub open spec fn starts_with_text(s: Seq<char>, p: Seq<char>) -> bool {
    p.len() <= s.len() && s.take(p.len() as int) == p
}

/// Whether `p` is a suffix of `s`.
pub open spec fn ends_with_text(s: Seq<char>, p: Seq<char>) -> bool {
    p.len() <= s.len() && s.skip(s.len() - p.len()) == p
}

/// Whether the string begins with the given prefix.
pub fn str_starts_with(s: &str, p: &str) -> (r: bool)
    ensures
        r == starts_with_text(s@, p@),
{
    let n = s.unicode_len();
    let m = p.unicode_len();
    if m > n {
        return false;
    }
    let mut i: usize = 0;
    while i < m
        invariant
            i <= m <= n,
            n == s@.len(),
            m == p@.len(),
            forall|j: int| 0 <= j < i ==> s@[j] == p@[j],
        decreases m - i,
    {
        if s.get_char(i) != p.get_char(i) {
            proof {
                assert(s@.take(m as int)[i as int] != p@[i as int]);
            }
            return false;
        }
        i = i + 1;
    }
    proof {
        assert(s@.take(m as int) =~= p@);
    }
    true
}

/// Whether the string ends with the given suffix.
pub fn str_ends_with(s: &str, p: &str) -> (r: bool)
    ensures
        r == ends_with_text(s@, p@),
{
    let n = s.unicode_len();
    let m = p.unicode_len();
    if m > n {
        return false;
    }
    let off = n - m;
    let mut i: usize = 0;
    while i < m
        invariant
            i <= m <= n,
            n == s@.len(),
            m == p@.len(),
            off == n - m,
            forall|j: int| 0 <= j < i ==> s@[off + j] == p@[j],
        decreases m - i,
    {
        if s.get_char(off + i) != p.get_char(i) {
            proof {
                assert(s@.skip(off as int)[i as int] != p@[i as int]);
            }
            return false;
        }
        i = i + 1;
    }
    proof {
        assert(s@.skip(off as int) =~= p@);
    }
    true
}

/// The text between a mandatory prefix and a mandatory suffix, or nothing if
/// either does not match or they would overlap.
pub open spec fn strip_text(s: Seq<char>, pre: Seq<char>, suf: Seq<char>) -> Option<Seq<char>> {
    if pre.len() + suf.len() <= s.len() && starts_with_text(s, pre) && ends_with_text(s, suf) {
        Some(s.subrange(pre.len() as int, s.len() - suf.len()))
    } else {
        None
    }
}

/// Strips the given prefix and suffix from the string, if both match without
/// overlapping.
pub fn strip_affixes(s: &str, pre: &str, suf: &str) -> (r: Option<String>)
    ensures
        r is Some <==> strip_text(s@, pre@, suf@) is Some,
        r matches Some(v) ==> strip_text(s@, pre@, suf@) == Some(v@),
{
    let n = s.unicode_len();
    let np = pre.unicode_len();
    let ns = suf.unicode_len();
    if np > n || ns > n - np {
        return None;
    }
    if !str_starts_with(s, pre) {
        return None;
    }
    if !str_ends_with(s, suf) {
        return None;
    }
    let mid = s.substring_char(np, n - ns).to_owned();
    Some(mid)
}

/// Whether the two strings hold the same text.
pub fn str_equal(s: &str, t: &str) -> (r: bool)
    ensures
        r == (s@ == t@),
{
    let n = s.unicode_len();
    let m = t.unicode_len();
    if n != m {
        return false;
    }
    let mut i: usize = 0;
    while i < n
        invariant
            i <= n,
            n == s@.len(),
            n == t@.len(),
            forall|j: int| 0 <= j < i ==> s@[j] == t@[j],
        decreases n - i,
    {
        if s.get_char(i) != t.get_char(i) {
            return false;
        }
        i = i + 1;
    }
    proof {
        assert(s@ =~= t@);
    }
    true
}

/// A copy of a string list, element for element.
pub fn clone_strings(v: &Vec<String>) -> (r: Vec<String>)
    ensures
        r@ == v@,
{
    let mut r: Vec<String> = Vec::new();
    let mut i: usize = 0;
    while i < v.len()
        invariant
            i <= v.len(),
            r@ == v@.take(i as int),
        decreases v.len() - i,
    {
        r.push(v[i].clone());
        i = i + 1;
        proof {
            assert(r@ =~= v@.take(i as int));
        }
    }
    proof {
        assert(v@.take(v@.len() as int) =~= v@);
    }
    r
}

/// Relies on std's String::from_utf8: it succeeds exactly on valid UTF-8
/// input and returns the text that the bytes encode.
#[verifier::external_body]
pub(crate) fn bytes_to_string(data: &Vec<u8>) -> (r: Option<String>)
    ensures
        r is Some <==> valid_utf8(data@),
        r matches Some(s) ==> s@ == decode_utf8(data@),
{
    match String::from_utf8(data.clone()) {
        Ok(s) => Some(s),
        Err(_) => None,
    }
}

} // verus!
