//! Text as sequences of characters: the predicates the classifier is stated over, and
//! the executable tests that decide them. The tests compare the UTF-8 bytes of the
//! texts; that this decides the predicates on the characters is proved.

use vstd::prelude::*;
use vstd::slice::slice_subrange;
use vstd::utf8::encode_utf8;
use crate::encoding::{
    bytes_at, leading_run, lemma_bytes_injective, lemma_occurrence_from_bytes,
    lemma_occurrence_to_bytes, lemma_strip_bytes, lemma_suffix_from_bytes, lemma_suffix_to_bytes,
};

verus! {

/// `needle` occurs in `s` starting at position `at`.
pub open spec fn occurs_at(needle: Seq<char>, s: Seq<char>, at: int) -> bool {
    0 <= at && at + needle.len() <= s.len() && s.subrange(at, at + needle.len()) == needle
}

/// `needle` occurs somewhere in `s`.
pub open spec fn occurs_in(needle: Seq<char>, s: Seq<char>) -> bool {
    exists|at: int| occurs_at(needle, s, at)
}

/// `s` without its leading run of the character `c`.
pub open spec fn strip_leading(s: Seq<char>, c: char) -> Seq<char>
    decreases s.len(),
{
    if s.len() > 0 && s[0] == c {
        strip_leading(s.drop_first(), c)
    } else {
        s
    }
}

/// The character sequences of a list of strings.
pub open spec fn views(strings: Seq<String>) -> Seq<Seq<char>> {
    strings.map_values(|s: String| s@)
}

/// The text behind an optional string slice.
pub open spec fn view_of(text: Option<&str>) -> Option<Seq<char>> {
    match text {
        Some(t) => Some(t@),
        None => None,
    }
}

/// The text behind an optional string.
pub open spec fn text_of(text: Option<String>) -> Option<Seq<char>> {
    match text {
        Some(t) => Some(t@),
        None => None,
    }
}

/// How many times the byte `b` stands at the start of `bytes`.
fn leading(bytes: &[u8], b: u8) -> (n: usize)
    ensures
        n == leading_run(bytes@, b),
        n <= bytes.len(),
{
    let mut n: usize = 0;
    assert(bytes@.skip(0) == bytes@);
    while n < bytes.len() && bytes[n] == b
        invariant
            n <= bytes.len(),
            leading_run(bytes@, b) == n + leading_run(bytes@.skip(n as int), b),
        decreases bytes.len() - n,
    {
        assert(bytes@.skip(n as int).drop_first() == bytes@.skip(n as int + 1));
        n += 1;
    }
    n
}

/// Whether `part` stands in `whole` from position `at` on.
fn stands_at(whole: &[u8], part: &[u8], at: usize) -> (stands: bool)
    requires
        at + part.len() <= whole.len(),
    ensures
        stands == bytes_at(part@, whole@, at as int),
{
    let mut k: usize = 0;
    while k < part.len()
        invariant
            k <= part.len(),
            at + part.len() <= whole.len(),
            forall|j: int| 0 <= j < k ==> whole@[at + j] == part@[j],
        decreases part.len() - k,
    {
        if whole[at + k] != part[k] {
            assert(whole@.subrange(at as int, at + part.len())[k as int] != part@[k as int]);
            return false;
        }
        k += 1;
    }
    assert(whole@.subrange(at as int, at + part.len()) =~= part@);
    true
}

/// Whether `s` ends in `suffix`.
pub fn ends_with(s: &str, suffix: &str) -> (r: bool)
    ensures
        r == suffix@.is_suffix_of(s@),
{
    let whole = s.as_bytes();
    let part = suffix.as_bytes();
    proof {
        if suffix@.is_suffix_of(s@) {
            lemma_suffix_to_bytes(suffix@, s@);
        }
        if part@.is_suffix_of(whole@) {
            lemma_suffix_from_bytes(suffix@, s@);
        }
    }
    part.len() <= whole.len() && stands_at(whole, part, whole.len() - part.len())
}

/// Whether `s` ends in `pattern`, the pattern taken without its leading run of `*`.
pub fn ends_with_trimmed(s: &str, pattern: &str) -> (r: bool)
    ensures
        r == strip_leading(pattern@, '*').is_suffix_of(s@),
{
    let whole = s.as_bytes();
    let marked = pattern.as_bytes();
    let stars = leading(marked, 0x2a);
    let part = slice_subrange(marked, stars, marked.len());
    proof {
        let suffix = strip_leading(pattern@, '*');
        lemma_strip_bytes(pattern@, '*');
        assert(part@ == encode_utf8(suffix));
        if suffix.is_suffix_of(s@) {
            lemma_suffix_to_bytes(suffix, s@);
        }
        if part@.is_suffix_of(whole@) {
            lemma_suffix_from_bytes(suffix, s@);
        }
    }
    part.len() <= whole.len() && stands_at(whole, part, whole.len() - part.len())
}

/// Whether `needle` occurs in `s`.
pub fn contains(s: &str, needle: &str) -> (r: bool)
    ensures
        r == occurs_in(needle@, s@),
{
    let whole = s.as_bytes();
    let part = needle.as_bytes();
    if part.len() > whole.len() {
        proof {
            if occurs_in(needle@, s@) {
                let at = choose|at: int| occurs_at(needle@, s@, at);
                lemma_occurrence_to_bytes(needle@, s@, at);
            }
        }
        return false;
    }
    if part.len() == 0 {
        proof {
            lemma_bytes_injective(needle@, Seq::empty());
            assert(s@.subrange(0, 0) =~= needle@);
            assert(occurs_at(needle@, s@, 0));
        }
        return true;
    }
    let last = whole.len() - part.len();
    let mut from: usize = 0;
    while from <= last
        invariant
            from <= last + 1,
            part.len() > 0,
            last + part.len() == whole.len(),
            whole@ == encode_utf8(s@),
            part@ == encode_utf8(needle@),
            forall|k: int| 0 <= k < from ==> !bytes_at(part@, whole@, k),
        decreases last + 1 - from,
    {
        if stands_at(whole, part, from) {
            proof {
                lemma_occurrence_from_bytes(needle@, s@, from as int);
                let at = choose|at: int|
                    0 <= at && at + needle@.len() <= s@.len() && #[trigger] s@.subrange(
                        at,
                        at + needle@.len(),
                    ) == needle@;
                assert(occurs_at(needle@, s@, at));
            }
            return true;
        }
        from += 1;
    }
    proof {
        if occurs_in(needle@, s@) {
            let at = choose|at: int| occurs_at(needle@, s@, at);
            lemma_occurrence_to_bytes(needle@, s@, at);
        }
    }
    false
}

/// The characters of `s`, in order.
pub fn to_chars(s: &str) -> (chars: Vec<char>)
    ensures
        chars@ == s@,
{
    let mut chars: Vec<char> = Vec::new();
    for c in it: s.chars()
        invariant
            it.seq() == s@,
            chars@ == s@.take(it.index()),
    {
        chars.push(c);
    }
    chars
}

/// Whether `a` and `b` are the same text.
pub fn same_text(a: &str, b: &str) -> (same: bool)
    ensures
        same == (a@ == b@),
{
    let x = a.as_bytes();
    let y = b.as_bytes();
    proof {
        if x@ == y@ {
            lemma_bytes_injective(a@, b@);
        }
        assert(x@.subrange(0, x@.len() as int) == x@);
    }
    x.len() == y.len() && stands_at(x, y, 0)
}

/// Whether `label` is one of `labels`.
pub fn has_label(labels: &[String], label: &str) -> (r: bool)
    ensures
        r == views(labels@).contains(label@),
{
    let mut i: usize = 0;
    while i < labels.len()
        invariant
            i <= labels.len(),
            forall|k: int| 0 <= k < i ==> labels@[k]@ != label@,
        decreases labels.len() - i,
    {
        if same_text(labels[i].as_str(), label) {
            assert(views(labels@)[i as int] == label@);
            return true;
        }
        i += 1;
    }
    false
}

} // verus!

