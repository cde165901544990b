//! Zero-copy slicing of UTF-8 text at positions next to ASCII bytes.

use vstd::prelude::*;
use vstd::string::{StringExecFns, StringSliceAdditionalSpecFns};
use vstd::utf8::*;

verus! {

broadcast use vstd::utf8::encode_utf8_valid_utf8;

/// `' '`
pub const SPACE: u8 = 0x20;
/// `'\t'`
pub const TAB: u8 = 0x09;
/// `'\n'`
pub const NEWLINE: u8 = 0x0a;
/// vertical tab, `'\x0b'`
pub const LINE_TAB: u8 = 0x0b;
/// form feed, `'\x0c'`
pub const FORM_FEED: u8 = 0x0c;
/// `'\r'`
pub const RETURN: u8 = 0x0d;
/// `'!'`
pub const BANG: u8 = 0x21;
/// `'#'`
pub const HASH: u8 = 0x23;
/// `'('`
pub const OPEN: u8 = 0x28;
/// `')'`
pub const CLOSE: u8 = 0x29;
/// `':'`
pub const COLON: u8 = 0x3a;

/// A byte position of `b` that is an end of `b`, holds a byte that is not a
/// continuation byte, or follows an ASCII byte: in valid UTF-8 such a
/// position never falls inside the encoding of a character.
pub open spec fn at_char_edge(b: Seq<u8>, i: int) -> bool {
    &&& 0 <= i <= b.len()
    &&& (i == 0 || i == b.len() || b[i] < 0x80 || b[i] >= 0xc0 || b[i - 1] < 0x80)
}

proof fn lemma_ascii_edge_is_boundary(b: Seq<u8>, i: int)
    requires
        valid_utf8(b),
        at_char_edge(b, i),
    ensures
        is_char_boundary(b, i),
    decreases b.len(),
{
    if i != 0 {
        let n = length_of_first_scalar(b);
        let t = pop_first_scalar(b);
        if i >= n {
            assert(at_char_edge(t, i - n));
            lemma_ascii_edge_is_boundary(t, i - n);
        }
    }
}

/// The UTF-8 encoding of one ASCII character is its code.
pub proof fn lemma_encode_ascii_one(a: char)
    requires
        (a as u32) < 0x80,
    ensures
        encode_utf8(seq![a]) == seq![a as u32 as u8],
{
    let x = a as u32;
    assert((x & 0x7f) == x) by (bit_vector)
        requires
            x < 0x80,
    ;
    let s = seq![a];
    assert(s.drop_first() =~= Seq::<char>::empty());
    reveal_with_fuel(encode_utf8, 2);
    assert(encode_utf8(s) =~= seq![a as u32 as u8]);
}

/// Encoding distributes over concatenation.
pub proof fn lemma_encode_concat(a: Seq<char>, b: Seq<char>)
    ensures
        encode_utf8(a + b) == encode_utf8(a) + encode_utf8(b),
    decreases a.len(),
{
    if a.len() == 0 {
        assert(a + b =~= b);
        assert(encode_utf8(a) + encode_utf8(b) =~= encode_utf8(b));
    } else {
        assert((a + b).drop_first() =~= a.drop_first() + b);
        assert((a + b)[0] == a[0]);
        lemma_encode_concat(a.drop_first(), b);
        assert(encode_utf8(a + b) =~= encode_utf8(a) + encode_utf8(b));
    }
}

/// Appends `x` to `out`.
pub fn push_text(out: &mut String, x: &str)
    ensures
        encode_utf8(final(out)@) == encode_utf8(old(out)@) + x.spec_bytes(),
{
    proof {
        lemma_encode_concat(old(out)@, x@);
    }
    out.append(x);
}

/// The UTF-8 encoding of two ASCII characters is their two codes.
pub proof fn lemma_encode_ascii_pair(a: char, b: char)
    requires
        (a as u32) < 0x80,
        (b as u32) < 0x80,
    ensures
        encode_utf8(seq![a, b]) == seq![a as u32 as u8, b as u32 as u8],
{
    let x = a as u32;
    let y = b as u32;
    assert((x & 0x7f) == x) by (bit_vector)
        requires
            x < 0x80,
    ;
    assert((y & 0x7f) == y) by (bit_vector)
        requires
            y < 0x80,
    ;
    let s = seq![a, b];
    assert(s.drop_first() =~= seq![b]);
    assert(s.drop_first().drop_first() =~= Seq::<char>::empty());
    reveal_with_fuel(encode_utf8, 3);
    assert(encode_utf8(s) =~= seq![a as u32 as u8, b as u32 as u8]);
}

/// The part of `s` between byte positions `start` and `end`, borrowed from `s`.
pub fn slice<'a>(s: &'a str, start: usize, end: usize) -> (r: &'a str)
    requires
        start <= end,
        at_char_edge(s.spec_bytes(), start as int),
        at_char_edge(s.spec_bytes(), end as int),
    ensures
        r.spec_bytes() == s.spec_bytes().subrange(start as int, end as int),
{
    proof {
        lemma_ascii_edge_is_boundary(s.spec_bytes(), start as int);
    }
    let (_, tail) = s.split_at(start);
    let ghost t = tail.spec_bytes();
    proof {
        assert(t =~= s.spec_bytes().subrange(start as int, s.spec_bytes().len() as int));
        assert(at_char_edge(t, (end - start) as int));
        lemma_ascii_edge_is_boundary(t, (end - start) as int);
    }
    let (mid, _) = tail.split_at(end - start);
    assert(mid.spec_bytes() =~= s.spec_bytes().subrange(start as int, end as int));
    mid
}

} // verus!
