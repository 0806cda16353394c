//! Character-level helpers for strings: conversion between `str` and
//! sequences of characters, prefixes, and substring search.

use vstd::prelude::*;

verus! {

/// `needle` stands in `hay` at offset `at`.
pub open spec fn occurs_at(hay: Seq<char>, needle: Seq<char>, at: int) -> bool {
    &&& 0 <= at
    &&& at + needle.len() <= hay.len()
    &&& hay.subrange(at, at + needle.len()) == needle
}

/// `needle` is a contiguous run of `hay`. The empty needle is contained in
/// every sequence.
pub open spec fn contains_seq(hay: Seq<char>, needle: Seq<char>) -> bool {
    exists|at: int| occurs_at(hay, needle, at)
}

/// `prefix` is an initial run of `s`.
pub open spec fn has_prefix(s: Seq<char>, prefix: Seq<char>) -> bool {
    occurs_at(s, prefix, 0)
}

/// The texts of a list of strings.
pub open spec fn texts_of(names: Seq<String>) -> Seq<Seq<char>> {
    names.map_values(|s: String| s@)
}

/// The characters of a string, in order.
pub fn chars_of(s: &str) -> (out: Vec<char>)
    ensures
        out@ == s@,
{
    let mut out: Vec<char> = Vec::new();
    let it = s.chars();
    for c in iter: it
        invariant
            out@ == iter.seq().take(iter.index()),
    {
        out.push(c);
    }
    out
}

/// The string made of the given characters.
pub fn text_of(chars: &[char]) -> (out: String)
    ensures
        out@ == chars@,
{
    let mut out = String::new();
    let mut i: usize = 0;
    while i < chars.len()
        invariant
            i <= chars.len(),
            out@ == chars@.take(i as int),
        decreases chars.len() - i,
    {
        out.push(chars[i]);
        i += 1;
    }
    out
}

/// Whether `needle` stands in `hay` at offset `at`.
pub fn matches_at(hay: &[char], needle: &[char], at: usize) -> (found: bool)
    ensures
        found == occurs_at(hay@, needle@, at as int),
{
    if needle.len() > hay.len() || at > hay.len() - needle.len() {
        return false;
    }
    let mut k: usize = 0;
    while k < needle.len()
        invariant
            k <= needle.len(),
            at + needle.len() <= hay.len(),
            forall|j: int| 0 <= j < k ==> hay@[at + j] == needle@[j],
        decreases needle.len() - k,
    {
        if hay[at + k] != needle[k] {
            assert(hay@.subrange(at as int, at + needle.len())[k as int] != needle@[k as int]);
            return false;
        }
        k += 1;
    }
    assert(hay@.subrange(at as int, at + needle.len()) =~= needle@);
    true
}

/// Whether `needle` is a contiguous run of `hay`.
pub fn contains_chars(hay: &[char], needle: &[char]) -> (found: bool)
    ensures
        found == contains_seq(hay@, needle@),
{
    if needle.len() > hay.len() {
        return false;
    }
    let last: usize = hay.len() - needle.len();
    let mut at: usize = 0;
    loop
        invariant
            last == hay.len() - needle.len(),
            at <= last,
            forall|j: int| 0 <= j < at ==> !occurs_at(hay@, needle@, j),
        decreases last - at,
    {
        if matches_at(hay, needle, at) {
            return true;
        }
        if at == last {
            return false;
        }
        at += 1;
    }
}

/// Whether `prefix` is an initial run of `s`.
pub fn starts_with_chars(s: &[char], prefix: &[char]) -> (yes: bool)
    ensures
        yes == has_prefix(s@, prefix@),
{
    matches_at(s, prefix, 0)
}

/// Whether `needle` is a substring of `hay`, compared character by character.
pub fn str_contains(hay: &str, needle: &str) -> (found: bool)
    ensures
        found == contains_seq(hay@, needle@),
{
    let h = chars_of(hay);
    let n = chars_of(needle);
    contains_chars(h.as_slice(), n.as_slice())
}

/// `a` comes before `b` in the order of a dictionary that compares
/// character codes: at the first place where they differ `a` has the
/// smaller character, or `a` ends there and `b` goes on.
pub open spec fn text_before(a: Seq<char>, b: Seq<char>) -> bool {
    exists|k: int| #[trigger] differs_first_at(a, b, k) && (k == a.len() || a[k] < b[k])
}

/// `a` and `b` agree on their first `k` characters, `b` has a character at
/// `k`, and `a` has none there or another one.
pub open spec fn differs_first_at(a: Seq<char>, b: Seq<char>, k: int) -> bool {
    &&& 0 <= k <= a.len()
    &&& k < b.len()
    &&& a.take(k) == b.take(k)
    &&& k < a.len() ==> a[k] != b[k]
}

/// Whether `a` comes before `b` in dictionary order.
pub fn comes_before(a: &[char], b: &[char]) -> (yes: bool)
    ensures
        yes == text_before(a@, b@),
{
    let mut k: usize = 0;
    while k < a.len() && k < b.len()
        invariant
            k <= a.len(),
            k <= b.len(),
            a@.take(k as int) == b@.take(k as int),
        decreases a.len() - k,
    {
        if a[k] != b[k] {
            let yes = a[k] < b[k];
            proof {
                assert(differs_first_at(a@, b@, k as int));
                first_difference_is_unique(a@, b@, k as int);
            }
            return yes;
        }
        proof {
            assert(a@.take(k + 1) =~= a@.take(k as int).push(a@[k as int]));
            assert(b@.take(k + 1) =~= b@.take(k as int).push(b@[k as int]));
        }
        k += 1;
    }
    proof {
        if k < b.len() {
            assert(differs_first_at(a@, b@, k as int));
        } else {
            assert forall|j: int| !(#[trigger] differs_first_at(a@, b@, j)) by {
                if differs_first_at(a@, b@, j) {
                    assert(j < b@.len());
                    if j < a@.len() {
                        assert(a@.take(k as int)[j] == b@.take(k as int)[j]);
                    }
                }
            }
        }
        if k < b.len() {
            first_difference_is_unique(a@, b@, k as int);
        }
    }
    k < b.len()
}

/// Two texts differ first at one place only.
pub proof fn first_difference_is_unique(a: Seq<char>, b: Seq<char>, k: int)
    requires
        differs_first_at(a, b, k),
    ensures
        forall|j: int| #[trigger] differs_first_at(a, b, j) ==> j == k,
{
    assert forall|j: int| #[trigger] differs_first_at(a, b, j) implies j == k by {
        if j < k {
            assert(a.take(k)[j] == b.take(k)[j]);
        } else if k < j {
            if k < a.len() {
                assert(a.take(j)[k] == b.take(j)[k]);
            } else {
                assert(a.take(j).len() == b.take(j).len());
            }
        }
    }
}

/// No text comes before itself, and of two texts at most one comes before
/// the other.
pub proof fn text_order_is_asymmetric(a: Seq<char>, b: Seq<char>)
    ensures
        !(text_before(a, b) && text_before(b, a)),
        !text_before(a, a),
{
    if text_before(a, b) && text_before(b, a) {
        let k = choose|k: int| #[trigger] differs_first_at(a, b, k) && (k == a.len() || a[k] < b[k]);
        let j = choose|j: int| #[trigger] differs_first_at(b, a, j) && (j == b.len() || b[j] < a[j]);
        if j < k {
            assert(a.take(k)[j] == b.take(k)[j]);
        } else if k < j {
            assert(b.take(j)[k] == a.take(j)[k]);
        }
    }
    if text_before(a, a) {
        let k = choose|k: int| #[trigger] differs_first_at(a, a, k) && (k == a.len() || a[k] < a[k]);
    }
}

/// If `a` comes before `b` and `b` before `c`, then `a` comes before `c`.
pub proof fn text_order_is_transitive(a: Seq<char>, b: Seq<char>, c: Seq<char>)
    requires
        text_before(a, b),
        text_before(b, c),
    ensures
        text_before(a, c),
{
    let k = choose|k: int| #[trigger] differs_first_at(a, b, k) && (k == a.len() || a[k] < b[k]);
    let j = choose|j: int| #[trigger] differs_first_at(b, c, j) && (j == b.len() || b[j] < c[j]);
    if k <= j {
        assert(a.take(k) =~= c.take(k)) by {
            assert forall|i: int| 0 <= i < k implies a[i] == c[i] by {
                assert(a.take(k)[i] == b.take(k)[i]);
                assert(b.take(j)[i] == c.take(j)[i]);
            }
        }
        if k < j {
            assert(b.take(j)[k] == c.take(j)[k]);
        }
        assert(differs_first_at(a, c, k));
    } else {
        assert(a.take(j) =~= c.take(j)) by {
            assert forall|i: int| 0 <= i < j implies a[i] == c[i] by {
                assert(a.take(k)[i] == b.take(k)[i]);
                assert(b.take(j)[i] == c.take(j)[i]);
            }
        }
        assert(a.take(k)[j] == b.take(k)[j]);
        assert(differs_first_at(a, c, j));
    }
}

/// Whether two texts are the same.
pub fn str_eq(a: &str, b: &str) -> (yes: bool)
    ensures
        yes == (a@ == b@),
{
    let x = chars_of(a);
    let y = chars_of(b);
    if x.len() != y.len() {
        return false;
    }
    let mut i: usize = 0;
    while i < x.len()
        invariant
            i <= x.len(),
            x@ == a@,
            y@ == b@,
            x@.len() == y@.len(),
            forall|j: int| 0 <= j < i ==> x@[j] == y@[j],
        decreases x.len() - i,
    {
        if x[i] != y[i] {
            return false;
        }
        i += 1;
    }
    assert(x@ =~= y@);
    true
}

} // verus!
