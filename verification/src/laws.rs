//! Properties of the lexical grammar that hold of every source text.
use crate::smol::smol_str_of;
use crate::spec::{
    is_eof_result, is_ident_char, is_ident_start, keyword_kind, lemma_ident_end_bounds,
    lemma_lex_run_unfold, lemma_line_end_bounds, lemma_scan_bounds, lemma_scan_not_eof, lex_run, step,
    LexerState,
};
use crate::text::{
    byte_offset, lemma_byte_offset_end, lemma_byte_offset_mono, lemma_byte_offset_step,
    lemma_encode_concat, utf8_len,
};
use crate::token::{LResult, Position, TokenKind};
use vstd::prelude::*;
use vstd::string::StringSliceAdditionalSpecFns;

verus! {

/// The position of the first byte that a result of the lexer points at.
pub open spec fn result_start(r: LResult) -> Position {
    match r {
        Ok(token) => token.start,
        Err(error) => error.start,
    }
}

/// The position of the last byte that a result of the lexer points at.
pub open spec fn result_end(r: LResult) -> Position {
    match r {
        Ok(token) => token.end,
        Err(error) => error.end,
    }
}

/// Before the end of the text, every call of the lexer reads at least one
/// char, and the token or error it yields covers exactly the bytes of the
/// chars it read: it starts at the first byte of the first of them, ends at
/// the last byte of the last of them, and its columns count the chars read.
/// The line does not change, and the next state is a state of a lexer too.
pub proof fn law_lexeme_covers_its_chars(st: LexerState)
    requires
        st.valid(),
        st.pos < st.src.len(),
        step(st) is Some,
    ensures
        ({
            let (r, next) = step(st).unwrap();
            &&& !is_eof_result(r)
            &&& next.valid()
            &&& st.pos < next.pos <= st.src.len()
            &&& next.line == st.line
            &&& result_start(r).byte_pos == byte_offset(st.src, st.pos as int)
            &&& result_end(r).byte_pos + 1 == byte_offset(st.src, next.pos as int)
            &&& result_end(r).byte_pos + 1 - result_start(r).byte_pos == utf8_len(
                st.src.subrange(st.pos as int, next.pos as int),
            )
            &&& result_start(r).column == st.pos + 1
            &&& result_end(r).column == next.pos
            &&& result_start(r).line == st.line
            &&& result_end(r).line == st.line
        }),
{
    let s = st.src;
    let i = st.pos as int;
    lemma_lex_run_unfold_step(st);
    lemma_scan_bounds(s, i);
    let (r, next) = step(st).unwrap();
    let j = next.pos as int;
    lemma_byte_offset_mono(s, 0, i);
    lemma_byte_offset_mono(s, i, j);
    lemma_byte_offset_mono(s, j, s.len() as int);
    lemma_byte_offset_end(s);
    lemma_byte_offset_mono(s, 0, s.len() as int);
    assert(s.take(j) =~= s.take(i) + s.subrange(i, j));
    lemma_encode_concat(s.take(i), s.subrange(i, j));
    assert(s.take(0) =~= Seq::<char>::empty());
}

/// One step before the end of the text reads chars up to some index within
/// the text and yields no end-of-file token.
proof fn lemma_lex_run_unfold_step(st: LexerState)
    requires
        st.valid(),
        st.pos < st.src.len(),
        step(st) is Some,
    ensures
        step(st) matches Some((r, next)) && {
            &&& !is_eof_result(r)
            &&& st.pos < next.pos <= st.src.len()
            &&& next == st.advanced_to(next.pos as int)
        },
{
    lemma_scan_bounds(st.src, st.pos as int);
    lemma_scan_not_eof(st.src, st.pos as int);
}

/// At the end of the text the lexer yields the end-of-file token, which
/// points at the very last byte of the text (at byte zero for an empty
/// text), on the current line and at the column of the last char (column one
/// for an empty text), and yields the same token again on every later call.
pub proof fn law_eof_repeats(st: LexerState)
    requires
        st.valid(),
        st.pos >= st.src.len(),
    ensures
        step(st) matches Some((r, next)) && {
            &&& is_eof_result(r)
            &&& next.valid()
            &&& next.pos == st.pos
            &&& step(next) == Some((r, next))
            &&& st.src.len() > 0 ==> result_end(r).byte_pos + 1 == utf8_len(st.src)
                && result_start(r).byte_pos == byte_offset(st.src, st.src.len() - 1)
            &&& st.src.len() == 0 ==> result_start(r).byte_pos == 0 && result_end(r).byte_pos
                == 0
            &&& result_start(r).line == st.line && result_end(r).line == st.line
            &&& result_start(r).column == result_end(r).column
            &&& result_start(r).column == (if st.src.len() == 0 {
                1
            } else {
                st.src.len()
            })
            &&& next.line == st.line
            &&& next.column == result_start(r).column
        },
{
    lemma_byte_offset_mono(st.src, 0, st.src.len() as int);
    lemma_byte_offset_end(st.src);
    if st.src.len() > 0 {
        lemma_byte_offset_mono(st.src, st.src.len() - 1, st.src.len() as int);
    }
}

/// Lexing a whole text yields the end-of-file token once, as the last
/// result, and ends at the end of the text. The lexemes before it tile the
/// text: the first starts where the lexer stood, each one starts at the
/// byte and the column after the end of the one before, and the last one
/// ends at the last byte of the text.
pub proof fn law_run_tiles_text(st: LexerState)
    requires
        st.valid(),
        lex_run(st) is Some,
    ensures
        ({
            let (rs, fin) = lex_run(st).unwrap();
            &&& rs.len() >= 1
            &&& is_eof_result(rs.last())
            &&& forall|k: int| 0 <= k < rs.len() - 1 ==> !is_eof_result(#[trigger] rs[k])
            &&& fin.valid()
            &&& fin.pos == st.src.len()
            &&& rs.len() > 1 ==> result_start(rs[0]).byte_pos == byte_offset(
                st.src,
                st.pos as int,
            )
            &&& rs.len() > 1 ==> result_end(rs[rs.len() - 2]).byte_pos + 1 == utf8_len(st.src)
            &&& forall|k: int|
                1 <= k < rs.len() - 1 ==> {
                    &&& result_start(#[trigger] rs[k]).byte_pos == result_end(rs[k - 1]).byte_pos
                        + 1
                    &&& result_start(rs[k]).column == result_end(rs[k - 1]).column + 1
                }
        }),
    decreases st.src.len() - st.pos,
{
    lemma_lex_run_unfold(st);
    if st.pos >= st.src.len() {
        law_eof_repeats(st);
    } else {
        let (r, next) = step(st).unwrap();
        law_lexeme_covers_its_chars(st);
        law_run_tiles_text(next);
        let (rest, fin) = lex_run(next).unwrap();
        let (rs, _) = lex_run(st).unwrap();
        assert(rs == seq![r] + rest);
        assert(rs[0] == r);
        assert forall|k: int| 1 <= k < rs.len() implies rs[k] == rest[k - 1] by {}
        if rest.len() > 1 {
            law_lexeme_covers_its_chars(next);
        } else {
            lemma_byte_offset_end(st.src);
        }
        assert forall|k: int| 1 <= k < rs.len() - 1 implies {
            &&& result_start(#[trigger] rs[k]).byte_pos == result_end(rs[k - 1]).byte_pos + 1
            &&& result_start(rs[k]).column == result_end(rs[k - 1]).column + 1
        } by {
            assert(rs[k] == rest[k - 1]);
            if k > 1 {
                assert(rs[k - 1] == rest[k - 2]);
            }
        }
    }
}

/// An identifier token holds the chars it was read from: an identifier
/// start followed by identifier chars, which spell no keyword, and the run
/// is maximal: the char after it, if any, is no identifier char.
pub proof fn law_identifier_holds_its_text(st: LexerState)
    requires
        st.valid(),
        st.pos < st.src.len(),
        step(st) matches Some((Ok(token), _)) && token.kind is Ident,
    ensures
        ({
            let (r, next) = step(st).unwrap();
            let text = st.src.subrange(st.pos as int, next.pos as int);
            &&& r->Ok_0.kind == TokenKind::Ident(smol_str_of(text))
            &&& keyword_kind(text) is None
            &&& text.len() >= 1
            &&& is_ident_start(text[0])
            &&& forall|k: int| 1 <= k < text.len() ==> is_ident_char(#[trigger] text[k])
            &&& next.pos < st.src.len() ==> !is_ident_char(st.src[next.pos as int])
        }),
{
    let s = st.src;
    let i = st.pos as int;
    lemma_scan_bounds(s, i);
    lemma_ident_end_bounds(s, i + 1);
    let (r, next) = step(st).unwrap();
    let text = s.subrange(i, next.pos as int);
    assert(is_ident_start(s[i]));
    assert forall|k: int| 1 <= k < text.len() implies is_ident_char(#[trigger] text[k]) by {
        assert(text[k] == s[i + k]);
    }
}

/// A line comment holds the chars it was read from: its `//` or `#`
/// and the rest of the line, which holds no newline; it ends at a newline
/// or at the end of the text.
pub proof fn law_comment_holds_rest_of_line(st: LexerState)
    requires
        st.valid(),
        st.pos < st.src.len(),
        step(st) matches Some((Ok(token), _)) && token.kind is LineComment,
    ensures
        ({
            let (r, next) = step(st).unwrap();
            let text = st.src.subrange(st.pos as int, next.pos as int);
            &&& r->Ok_0.kind == TokenKind::LineComment(smol_str_of(text))
            &&& text[0] == '#' || (text.len() >= 2 && text[0] == '/' && text[1] == '/')
            &&& forall|k: int| 0 <= k < text.len() ==> #[trigger] text[k] != '\n'
            &&& next.pos < st.src.len() ==> st.src[next.pos as int] == '\n'
        }),
{
    let s = st.src;
    let i = st.pos as int;
    lemma_scan_bounds(s, i);
    lemma_line_end_bounds(s, i + 1);
    let (r, next) = step(st).unwrap();
    let text = s.subrange(i, next.pos as int);
    assert forall|k: int| 0 <= k < text.len() implies #[trigger] text[k] != '\n' by {
        assert(text[k] == s[i + k]);
    }
}

/// The byte offsets that positions report are those of the UTF-8 encoding
/// of the text: the first char starts at byte zero, each char takes one byte
/// below U+0080, two below U+0800, three below U+10000 and four above, and
/// the offset past the last char is the byte length that `str::len` gives.
pub proof fn law_utf8_offsets(text: &str, i: int)
    requires
        0 <= i < text@.len(),
    ensures
        byte_offset(text@, 0) == 0,
        byte_offset(text@, text@.len() as int) == text.spec_bytes().len(),
        byte_offset(text@, i + 1) - byte_offset(text@, i) == if (text@[i] as u32) < 0x80 {
            1int
        } else if (text@[i] as u32) < 0x800 {
            2int
        } else if (text@[i] as u32) < 0x10000 {
            3int
        } else {
            4int
        },
{
    assert(text@.take(0) =~= Seq::<char>::empty());
    lemma_byte_offset_end(text@);
    lemma_byte_offset_step(text@, i);
    vstd::utf8::char_is_scalar(text@[i]);
}

} // verus!
