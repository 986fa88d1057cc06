//! Byte offsets of characters in the UTF-8 encoding of a source text, and
//! slicing a `str` by such offsets.
use vstd::prelude::*;
use vstd::utf8::{
    char_is_scalar, encode_scalar, encode_utf8, encode_utf8_decode_utf8,
    encode_utf8_first_scalar, encode_utf8_valid_utf8, is_char_boundary, length_of_first_scalar,
    pop_first_scalar, valid_utf8,
};

verus! {

/// Number of bytes of the UTF-8 encoding of `chars`.
pub open spec fn utf8_len(chars: Seq<char>) -> nat {
    encode_utf8(chars).len()
}

/// Number of bytes of the UTF-8 encoding of the single char `c`.
pub open spec fn char_width(c: char) -> nat {
    encode_scalar(c as u32).len()
}

/// The byte offset, in the UTF-8 encoding of `src`, at which the char of
/// index `i` starts (the byte length of `src` when `i == src.len()`).
pub open spec fn byte_offset(src: Seq<char>, i: int) -> nat {
    utf8_len(src.take(i))
}

/// The encoding of a concatenation is the concatenation of the encodings.
pub proof fn lemma_encode_concat(a: Seq<char>, b: Seq<char>)
    ensures
        encode_utf8(a + b) == encode_utf8(a) + encode_utf8(b),
    decreases a.len(),
{
    if a.len() == 0 {
        assert(a + b =~= b);
        assert(encode_utf8(a) + encode_utf8(b) =~= encode_utf8(b));
    } else {
        lemma_encode_concat(a.drop_first(), b);
        assert((a + b).drop_first() =~= a.drop_first() + b);
        assert((a + b)[0] == a[0]);
        assert(encode_utf8(a + b) =~= encode_utf8(a) + encode_utf8(b));
    }
}

/// A char is encoded in one to four bytes; ASCII chars in exactly one.
pub proof fn lemma_char_width(c: char)
    ensures
        1 <= char_width(c) <= 4,
        (c as u32) < 0x80 ==> char_width(c) == 1,
{
    char_is_scalar(c);
}

/// The offset of the next char is the offset of this char plus its width.
pub proof fn lemma_byte_offset_step(src: Seq<char>, i: int)
    requires
        0 <= i < src.len(),
    ensures
        byte_offset(src, i + 1) == byte_offset(src, i) + char_width(src[i]),
{
    assert(src.take(i + 1) =~= src.take(i) + seq![src[i]]);
    lemma_encode_concat(src.take(i), seq![src[i]]);
    let single = seq![src[i]];
    assert(single.drop_first() =~= Seq::<char>::empty());
    assert(encode_utf8(Seq::<char>::empty()) == Seq::<u8>::empty());
    assert(encode_utf8(single) =~= encode_scalar(src[i] as u32));
}

/// Offsets grow with the index, and at least by one byte per char.
pub proof fn lemma_byte_offset_mono(src: Seq<char>, i: int, j: int)
    requires
        0 <= i <= j <= src.len(),
    ensures
        byte_offset(src, i) + (j - i) <= byte_offset(src, j),
    decreases j - i,
{
    if i < j {
        lemma_byte_offset_mono(src, i, j - 1);
        lemma_byte_offset_step(src, j - 1);
        lemma_char_width(src[j - 1]);
    }
}

/// The offset of the end of the text is its whole byte length.
pub proof fn lemma_byte_offset_end(src: Seq<char>)
    ensures
        byte_offset(src, src.len() as int) == utf8_len(src),
{
    assert(src.take(src.len() as int) =~= src);
}

/// Every char offset is a char boundary of the encoding.
pub proof fn lemma_offset_is_boundary(src: Seq<char>, i: int)
    requires
        0 <= i <= src.len(),
    ensures
        valid_utf8(encode_utf8(src)),
        is_char_boundary(encode_utf8(src), byte_offset(src, i) as int),
    decreases i,
{
    let bytes = encode_utf8(src);
    encode_utf8_valid_utf8(src);
    if i > 0 {
        let rest = src.drop_first();
        encode_utf8_first_scalar(src);
        lemma_offset_is_boundary(rest, i - 1);
        assert(src.take(i)[0] == src[0]);
        assert(src.take(i).drop_first() =~= rest.take(i - 1));
        assert(pop_first_scalar(bytes) =~= encode_utf8(rest));
        lemma_char_width(src[0]);
        lemma_byte_offset_mono(src, 0, i);
        lemma_byte_offset_mono(src, i, src.len() as int);
        lemma_byte_offset_end(src);
        assert(byte_offset(src, i) - length_of_first_scalar(bytes) == byte_offset(rest, i - 1));
    }
}

/// The encoding of `src` split at the offset of char `i`.
pub proof fn lemma_encode_split(src: Seq<char>, i: int)
    requires
        0 <= i <= src.len(),
    ensures
        encode_utf8(src) == encode_utf8(src.take(i)) + encode_utf8(src.skip(i)),
{
    assert(src =~= src.take(i) + src.skip(i));
    lemma_encode_concat(src.take(i), src.skip(i));
}

/// The chars `i..j` of `src`, sliced out of `src` by their byte offsets.
pub(crate) fn str_between<'a>(
    src: &'a str,
    start: usize,
    end: usize,
    Ghost(i): Ghost<int>,
    Ghost(j): Ghost<int>,
) -> (r: &'a str)
    requires
        0 <= i <= j <= src@.len(),
        start == byte_offset(src@, i),
        end == byte_offset(src@, j),
    ensures
        r@ == src@.subrange(i, j),
{
    let ghost s = src@;
    proof {
        lemma_offset_is_boundary(s, i);
        lemma_encode_split(s, i);
        lemma_byte_offset_mono(s, i, j);
    }
    let (_head, tail) = src.split_at(start);
    proof {
        assert(encode_utf8(tail@) =~= encode_utf8(s.skip(i)));
        encode_utf8_decode_utf8(tail@);
        encode_utf8_decode_utf8(s.skip(i));
        assert(tail@ == s.skip(i));
        let t = s.skip(i);
        assert(s.take(j) =~= s.take(i) + t.take(j - i));
        lemma_encode_concat(s.take(i), t.take(j - i));
        lemma_offset_is_boundary(t, j - i);
        lemma_encode_split(t, j - i);
    }
    let (mid, _rest) = tail.split_at(end - start);
    proof {
        let t = s.skip(i);
        assert(encode_utf8(mid@) =~= encode_utf8(t.take(j - i)));
        encode_utf8_decode_utf8(mid@);
        encode_utf8_decode_utf8(t.take(j - i));
        assert(t.take(j - i) =~= s.subrange(i, j));
    }
    mid
}

/// The byte width of `c` in UTF-8.
pub(crate) fn utf8_width(c: char) -> (w: usize)
    ensures
        w == char_width(c),
{
    let u = c as u32;
    proof {
        char_is_scalar(c);
    }
    if u < 0x80 {
        1
    } else if u < 0x800 {
        2
    } else if u < 0x10000 {
        3
    } else {
        4
    }
}

} // verus!
