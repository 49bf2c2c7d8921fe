//! How text and its UTF-8 bytes correspond: what is a suffix, a prefix or a part of a
//! text is one of its bytes, and the other way round. The executable tests on text work
//! on the bytes and rest on these facts.

use vstd::prelude::*;
use vstd::utf8::{
    char_is_scalar, encode_scalar, encode_utf8, encode_utf8_decode_utf8, is_continuation_byte,
};
use crate::text::strip_leading;

verus! {

/// The bytes of one character.
pub open spec fn char_bytes(c: char) -> Seq<u8> {
    encode_scalar(c as u32)
}

/// The number of bytes of the character whose first byte is `first`.
pub open spec fn width_from(first: u8) -> int {
    if first <= 0x7f {
        1
    } else if first <= 0xdf {
        2
    } else if first <= 0xef {
        3
    } else {
        4
    }
}

/// The bytes of a character: between one and four, as many as the first one tells; the
/// first is no continuation byte, every other is one.
pub proof fn lemma_char_bytes(c: char)
    ensures
        1 <= char_bytes(c).len() <= 4,
        char_bytes(c).len() == width_from(char_bytes(c)[0]),
        !is_continuation_byte(char_bytes(c)[0]),
        forall|k: int| 1 <= k < char_bytes(c).len() ==> is_continuation_byte(#[trigger] char_bytes(c)[k]),
{
    let s = c as u32;
    char_is_scalar(c);
    assert((s & 0x7F) as u8 <= 0x7f) by (bit_vector);
    assert(0xc0 <= (0xC0 | ((s >> 6) & 0x1F) as u8) <= 0xdf) by (bit_vector);
    assert(0xe0 <= (0xE0 | ((s >> 12) & 0x0F) as u8) <= 0xef) by (bit_vector);
    assert(0xf0 <= (0xF0 | ((s >> 18) & 0x7) as u8) <= 0xf7) by (bit_vector);
    assert(0x80 <= (0x80 | (s & 0x3F) as u8) <= 0xbf) by (bit_vector);
    assert(0x80 <= (0x80 | ((s >> 6) & 0x3F) as u8) <= 0xbf) by (bit_vector);
    assert(0x80 <= (0x80 | ((s >> 12) & 0x3F) as u8) <= 0xbf) by (bit_vector);
}

/// Two characters with the same bytes are the same character.
pub proof fn lemma_char_bytes_injective(a: char, b: char)
    requires
        char_bytes(a) == char_bytes(b),
    ensures
        a == b,
{
    encode_utf8_decode_utf8(seq![a]);
    encode_utf8_decode_utf8(seq![b]);
    assert(seq![a].drop_first() == Seq::<char>::empty());
    assert(seq![b].drop_first() == Seq::<char>::empty());
    assert(encode_utf8(seq![a]) == char_bytes(a) + encode_utf8(Seq::<char>::empty()));
    assert(encode_utf8(seq![b]) == char_bytes(b) + encode_utf8(Seq::<char>::empty()));
    assert(seq![a][0] == seq![b][0]);
}

/// The bytes of a text followed by another are the bytes of the one followed by those of
/// the other.
pub proof fn lemma_bytes_concat(a: Seq<char>, b: Seq<char>)
    ensures
        encode_utf8(a + b) == encode_utf8(a) + encode_utf8(b),
    decreases a.len(),
{
    if a.len() == 0 {
        assert(a + b == b);
        assert(encode_utf8(a) + encode_utf8(b) == encode_utf8(b));
    } else {
        assert((a + b)[0] == a[0]);
        assert((a + b).drop_first() == a.drop_first() + b);
        lemma_bytes_concat(a.drop_first(), b);
        assert(char_bytes(a[0]) + (encode_utf8(a.drop_first()) + encode_utf8(b)) == (char_bytes(a[0])
            + encode_utf8(a.drop_first())) + encode_utf8(b));
    }
}

/// Two texts with the same bytes are the same text.
pub proof fn lemma_bytes_injective(a: Seq<char>, b: Seq<char>)
    requires
        encode_utf8(a) == encode_utf8(b),
    ensures
        a == b,
{
    encode_utf8_decode_utf8(a);
    encode_utf8_decode_utf8(b);
}

/// The bytes of a text that is not empty start with the bytes of its first character,
/// and the bytes of the rest follow.
pub proof fn lemma_bytes_unfold(s: Seq<char>)
    requires
        s.len() > 0,
    ensures
        encode_utf8(s) == char_bytes(s[0]) + encode_utf8(s.drop_first()),
        encode_utf8(s).len() == char_bytes(s[0]).len() + encode_utf8(s.drop_first()).len(),
        1 <= char_bytes(s[0]).len() <= 4,
        encode_utf8(s)[0] == char_bytes(s[0])[0],
        !is_continuation_byte(encode_utf8(s)[0]),
        forall|k: int| 1 <= k < char_bytes(s[0]).len() ==> is_continuation_byte(#[trigger] encode_utf8(s)[k]),
{
    lemma_char_bytes(s[0]);
    assert forall|k: int| 1 <= k < char_bytes(s[0]).len() implies is_continuation_byte(
        #[trigger] encode_utf8(s)[k],
    ) by {
        assert(encode_utf8(s)[k] == char_bytes(s[0])[k]);
    }
}

/// `part` stands in `whole` from position `at` on.
pub open spec fn bytes_at(part: Seq<u8>, whole: Seq<u8>, at: int) -> bool {
    0 <= at && at + part.len() <= whole.len() && whole.subrange(at, at + part.len()) == part
}

/// A text whose bytes start the bytes of another starts the other.
pub proof fn lemma_prefix_from_bytes(t: Seq<char>, s: Seq<char>)
    requires
        encode_utf8(t).is_prefix_of(encode_utf8(s)),
    ensures
        t.is_prefix_of(s),
    decreases t.len(),
{
    let x = encode_utf8(s);
    let y = encode_utf8(t);
    if t.len() > 0 {
        lemma_bytes_unfold(t);
        assert(s.len() > 0);
        lemma_bytes_unfold(s);
        lemma_char_bytes(t[0]);
        lemma_char_bytes(s[0]);
        assert(y[0] == x.subrange(0, y.len() as int)[0]);
        let w = char_bytes(s[0]).len() as int;
        assert(char_bytes(t[0]) =~= char_bytes(s[0])) by {
            assert forall|k: int| 0 <= k < w implies char_bytes(t[0])[k] == char_bytes(s[0])[k] by {
                assert(y[k] == x.subrange(0, y.len() as int)[k]);
            }
        }
        lemma_char_bytes_injective(t[0], s[0]);
        let y_rest = encode_utf8(t.drop_first());
        let x_rest = encode_utf8(s.drop_first());
        assert(y_rest =~= x_rest.subrange(0, y_rest.len() as int)) by {
            assert forall|k: int| 0 <= k < y_rest.len() implies y_rest[k] == x_rest[k] by {
                assert(y[w + k] == x.subrange(0, y.len() as int)[w + k]);
                assert(y[w + k] == y_rest[k]);
                assert(x[w + k] == x_rest[k]);
            }
        }
        lemma_prefix_from_bytes(t.drop_first(), s.drop_first());
        assert(t =~= s.subrange(0, t.len() as int)) by {
            assert forall|k: int| 0 <= k < t.len() implies t[k] == s[k] by {
                if k > 0 {
                    assert(t.drop_first()[k - 1] == s.drop_first().subrange(
                        0,
                        t.len() - 1,
                    )[k - 1]);
                }
            }
        }
    } else {
        assert(t =~= s.subrange(0, 0));
    }
}

/// A text that ends another has bytes that end the bytes of the other.
pub proof fn lemma_suffix_to_bytes(t: Seq<char>, s: Seq<char>)
    requires
        t.is_suffix_of(s),
    ensures
        encode_utf8(t).is_suffix_of(encode_utf8(s)),
{
    let head = s.subrange(0, s.len() - t.len());
    assert(s == head + t);
    lemma_bytes_concat(head, t);
    let x = encode_utf8(s);
    let y = encode_utf8(t);
    assert(y =~= x.subrange(x.len() - y.len(), x.len() as int));
}

/// A text whose bytes end the bytes of another ends the other.
pub proof fn lemma_suffix_from_bytes(t: Seq<char>, s: Seq<char>)
    requires
        encode_utf8(t).is_suffix_of(encode_utf8(s)),
    ensures
        t.is_suffix_of(s),
    decreases s.len(),
{
    let x = encode_utf8(s);
    let y = encode_utf8(t);
    if y.len() == x.len() {
        assert(x.subrange(0, x.len() as int) == x);
        lemma_bytes_injective(t, s);
        assert(t =~= s.subrange(0, s.len() as int));
    } else if t.len() == 0 {
        assert(t =~= s.subrange(s.len() as int, s.len() as int));
    } else {
        lemma_bytes_unfold(t);
        assert(s.len() > 0);
        lemma_bytes_unfold(s);
        let w = char_bytes(s[0]).len() as int;
        let at = x.len() - y.len();
        let rest = s.drop_first();
        let x_rest = encode_utf8(rest);
        assert(y[0] == x.subrange(at, x.len() as int)[0]);
        assert(at >= w);
        assert(y =~= x_rest.subrange(x_rest.len() - y.len(), x_rest.len() as int)) by {
            assert forall|k: int| 0 <= k < y.len() implies y[k] == x_rest[x_rest.len() - y.len() + k] by {
                assert(y[k] == x.subrange(at, x.len() as int)[k]);
                assert(x[at + k] == x_rest[at + k - w]);
            }
        }
        lemma_suffix_from_bytes(t, rest);
        assert(t =~= s.subrange(s.len() - t.len(), s.len() as int)) by {
            assert forall|k: int| 0 <= k < t.len() implies t[k] == s[s.len() - t.len() + k] by {
                assert(t[k] == rest.subrange(rest.len() - t.len(), rest.len() as int)[k]);
            }
        }
    }
}

/// A text that occurs in another has bytes that stand in the bytes of the other.
pub proof fn lemma_occurrence_to_bytes(t: Seq<char>, s: Seq<char>, at: int)
    requires
        0 <= at,
        at + t.len() <= s.len(),
        s.subrange(at, at + t.len()) == t,
    ensures
        bytes_at(encode_utf8(t), encode_utf8(s), encode_utf8(s.take(at)).len() as int),
{
    let head = s.take(at);
    let tail = s.skip(at + t.len());
    assert(s == head + t + tail);
    lemma_bytes_concat(head + t, tail);
    lemma_bytes_concat(head, t);
    let x = encode_utf8(s);
    let y = encode_utf8(t);
    let from = encode_utf8(head).len() as int;
    assert(x.subrange(from, from + y.len()) =~= y);
}

/// A text whose bytes stand in the bytes of another occurs in the other.
pub proof fn lemma_occurrence_from_bytes(t: Seq<char>, s: Seq<char>, from: int)
    requires
        bytes_at(encode_utf8(t), encode_utf8(s), from),
    ensures
        exists|at: int| 0 <= at && at + t.len() <= s.len() && #[trigger] s.subrange(at, at + t.len()) == t,
    decreases s.len(),
{
    let x = encode_utf8(s);
    let y = encode_utf8(t);
    if t.len() == 0 {
        assert(s.subrange(0int, 0int + t.len()) =~= t);
    } else {
        lemma_bytes_unfold(t);
        assert(s.len() > 0);
        lemma_bytes_unfold(s);
        let w = char_bytes(s[0]).len() as int;
        assert(y[0] == x.subrange(from, from + y.len())[0]);
        if from == 0 {
            assert(y.is_prefix_of(x));
            lemma_prefix_from_bytes(t, s);
            assert(s.subrange(0int, 0int + t.len()) == t);
        } else {
            assert(from >= w);
            let rest = s.drop_first();
            let x_rest = encode_utf8(rest);
            assert(x_rest.subrange(from - w, from - w + y.len()) =~= y) by {
                assert forall|k: int| 0 <= k < y.len() implies x_rest[from - w + k] == y[k] by {
                    assert(y[k] == x.subrange(from, from + y.len())[k]);
                    assert(x[from + k] == x_rest[from + k - w]);
                }
            }
            lemma_occurrence_from_bytes(t, rest, from - w);
            let at = choose|at: int|
                0 <= at && at + t.len() <= rest.len() && #[trigger] rest.subrange(at, at + t.len()) == t;
            assert(s.subrange(at + 1, at + 1 + t.len()) =~= rest.subrange(at, at + t.len()));
        }
    }
}

/// How many times the byte `b` stands at the start of `bytes`.
pub open spec fn leading_run(bytes: Seq<u8>, b: u8) -> nat
    decreases bytes.len(),
{
    if bytes.len() > 0 && bytes[0] == b {
        1 + leading_run(bytes.drop_first(), b)
    } else {
        0
    }
}

/// The leading run of a byte is no longer than the bytes.
pub proof fn lemma_leading_run_len(bytes: Seq<u8>, b: u8)
    ensures
        leading_run(bytes, b) <= bytes.len(),
    decreases bytes.len(),
{
    if bytes.len() > 0 && bytes[0] == b {
        lemma_leading_run_len(bytes.drop_first(), b);
    }
}

/// A character of the ASCII range has one byte, its own number.
pub proof fn lemma_ascii_bytes(c: char)
    requires
        c as u32 <= 0x7f,
    ensures
        char_bytes(c) == seq![c as u8],
{
    let s = c as u32;
    assert((s & 0x7F) as u8 == s as u8) by (bit_vector)
        requires
            s <= 0x7f,
    ;
}

/// The bytes of a text without its leading run of an ASCII character are the bytes of
/// the text without their leading run of the byte of that character.
pub proof fn lemma_strip_bytes(p: Seq<char>, c: char)
    requires
        c as u32 <= 0x7f,
    ensures
        leading_run(encode_utf8(p), c as u8) <= encode_utf8(p).len(),
        encode_utf8(strip_leading(p, c)) == encode_utf8(p).skip(
            leading_run(encode_utf8(p), c as u8) as int,
        ),
    decreases p.len(),
{
    let x = encode_utf8(p);
    lemma_leading_run_len(x, c as u8);
    lemma_ascii_bytes(c);
    if p.len() == 0 {
        assert(x.skip(0) == x);
    } else {
        lemma_bytes_unfold(p);
        lemma_char_bytes(p[0]);
        let rest = p.drop_first();
        if p[0] == c {
            assert(x.drop_first() =~= encode_utf8(rest));
            lemma_strip_bytes(rest, c);
            let n = leading_run(encode_utf8(rest), c as u8) as int;
            assert(x.skip(1 + n) =~= encode_utf8(rest).skip(n));
        } else {
            if x[0] == c as u8 {
                assert(char_bytes(p[0]) =~= seq![c as u8]);
                lemma_char_bytes_injective(p[0], c);
            }
            assert(x.skip(0) == x);
        }
    }
}

} // verus!
