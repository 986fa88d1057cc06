//! The lexical grammar, stated over the chars of the source text.
//!
//! A lexer consumes its source char by char. Every call of the lexer either
//! reads one lexeme, which starts at the first char not yet consumed, or,
//! at the end of the text, yields the end-of-file token. A lexeme spanning
//! the chars `i..j` is reported with the byte offset of its first byte and of
//! its last byte, and with the column of its first and of its last char.
use crate::smol::smol_str_of;
use crate::text::{byte_offset, utf8_len};
use crate::token::{LResult, LexerError, LexerErrorKind, Position, Token, TokenKind};
use vstd::prelude::*;

verus! {

/// The state of a lexer: the chars of its source, how many of them were
/// consumed, and the current line and column (the column of the last
/// consumed char, counted from one).
pub struct LexerState {
    pub src: Seq<char>,
    pub pos: nat,
    pub line: usize,
    pub column: usize,
}

impl LexerState {
    /// The states that a lexer can be in.
    pub open spec fn valid(self) -> bool {
        &&& self.pos <= self.src.len()
        &&& utf8_len(self.src) <= usize::MAX
        &&& (self.column == self.pos || (self.pos == 0 && self.column == 1 && self.src.len()
            == 0))
    }

    /// The byte offset of the last consumed char, or 0 when none was consumed.
    pub open spec fn byte_pos(self) -> nat {
        if self.pos == 0 {
            0
        } else {
            byte_offset(self.src, self.pos - 1)
        }
    }

    /// The same state, with the chars up to `pos` consumed and the column
    /// moved on by as many chars.
    pub open spec fn advanced_to(self, pos: int) -> LexerState {
        LexerState {
            src: self.src,
            pos: pos as nat,
            line: self.line,
            column: (self.column + (pos - self.pos)) as usize,
        }
    }
}

/// ASCII letters: `a` to `z` and `A` to `Z`.
pub open spec fn is_ascii_letter(c: char) -> bool {
    ('a' <= c && c <= 'z') || ('A' <= c && c <= 'Z')
}

/// ASCII digits: `0` to `9`.
pub open spec fn is_ascii_digit(c: char) -> bool {
    '0' <= c && c <= '9'
}

/// The chars an identifier or keyword starts with.
pub open spec fn is_ident_start(c: char) -> bool {
    is_ascii_letter(c) || c == '_'
}

/// The chars an identifier or keyword continues with.
pub open spec fn is_ident_char(c: char) -> bool {
    is_ascii_letter(c) || is_ascii_digit(c) || c == '_'
}

/// The char of index `i`, if there is one.
pub open spec fn char_at(src: Seq<char>, i: int) -> Option<char> {
    if 0 <= i < src.len() {
        Some(src[i])
    } else {
        None
    }
}

/// The end of the run of identifier chars that starts at `j`.
pub open spec fn ident_end(src: Seq<char>, j: int) -> int
    decreases src.len() - j,
{
    if 0 <= j < src.len() && is_ident_char(src[j]) {
        ident_end(src, j + 1)
    } else {
        j
    }
}

/// The index of the first newline at or after `j`, or the end of the text.
pub open spec fn line_end(src: Seq<char>, j: int) -> int
    decreases src.len() - j,
{
    if 0 <= j < src.len() && src[j] != '\n' {
        line_end(src, j + 1)
    } else {
        j
    }
}

/// The keyword that `word` spells, if any.
pub open spec fn keyword_kind(word: Seq<char>) -> Option<TokenKind> {
    if word == "do"@ {
        Some(TokenKind::Do)
    } else if word == "if"@ {
        Some(TokenKind::If)
    } else if word == "in"@ {
        Some(TokenKind::In)
    } else if word == "for"@ {
        Some(TokenKind::For)
    } else if word == "try"@ {
        Some(TokenKind::Try)
    } else if word == "base"@ {
        Some(TokenKind::Base)
    } else if word == "case"@ {
        Some(TokenKind::Case)
    } else if word == "else"@ {
        Some(TokenKind::Else)
    } else if word == "enum"@ {
        Some(TokenKind::Enum)
    } else if word == "null"@ {
        Some(TokenKind::Null)
    } else if word == "this"@ {
        Some(TokenKind::This)
    } else if word == "true"@ {
        Some(TokenKind::True)
    } else if word == "break"@ {
        Some(TokenKind::Break)
    } else if word == "catch"@ {
        Some(TokenKind::Catch)
    } else if word == "class"@ {
        Some(TokenKind::Class)
    } else if word == "clone"@ {
        Some(TokenKind::Clone)
    } else if word == "const"@ {
        Some(TokenKind::Const)
    } else if word == "false"@ {
        Some(TokenKind::False)
    } else if word == "local"@ {
        Some(TokenKind::Local)
    } else if word == "throw"@ {
        Some(TokenKind::Throw)
    } else if word == "while"@ {
        Some(TokenKind::While)
    } else if word == "yield"@ {
        Some(TokenKind::Yield)
    } else if word == "delete"@ {
        Some(TokenKind::Delete)
    } else if word == "resume"@ {
        Some(TokenKind::Resume)
    } else if word == "return"@ {
        Some(TokenKind::Return)
    } else if word == "static"@ {
        Some(TokenKind::Static)
    } else if word == "switch"@ {
        Some(TokenKind::Switch)
    } else if word == "typeof"@ {
        Some(TokenKind::Typeof)
    } else if word == "default"@ {
        Some(TokenKind::Default)
    } else if word == "extends"@ {
        Some(TokenKind::Extends)
    } else if word == "foreach"@ {
        Some(TokenKind::Foreach)
    } else if word == "rawcall"@ {
        Some(TokenKind::Rawcall)
    } else if word == "__FILE__"@ {
        Some(TokenKind::File)
    } else if word == "__LINE__"@ {
        Some(TokenKind::Line)
    } else if word == "continue"@ {
        Some(TokenKind::Continue)
    } else if word == "function"@ {
        Some(TokenKind::Function)
    } else if word == "instanceof"@ {
        Some(TokenKind::Instanceof)
    } else if word == "constructor"@ {
        Some(TokenKind::Constructor)
    } else {
        None
    }
}

/// The token of a word: its keyword, or else an identifier holding the word.
pub open spec fn word_kind(word: Seq<char>) -> TokenKind {
    match keyword_kind(word) {
        Some(kind) => kind,
        None => TokenKind::Ident(smol_str_of(word)),
    }
}

/// A token of `len` chars starting at `i`.
pub open spec fn fixed(kind: TokenKind, i: int, len: int) -> Option<
    (Result<TokenKind, LexerErrorKind>, int),
> {
    Some((Ok(kind), i + len))
}

/// A line comment starting at `i`: everything up to the end of the line.
pub open spec fn comment_at(src: Seq<char>, i: int) -> Option<
    (Result<TokenKind, LexerErrorKind>, int),
> {
    let j = line_end(src, i + 1);
    Some((Ok(TokenKind::LineComment(smol_str_of(src.subrange(i, j)))), j))
}

/// The lexeme that starts at char `i`: the token or error it yields, and the
/// index just past its last char. `None` for the inputs that are not
/// supported: whitespace, newlines, block comments and verbatim strings.
pub open spec fn scan(src: Seq<char>, i: int) -> Option<(Result<TokenKind, LexerErrorKind>, int)>
    recommends
        0 <= i < src.len(),
{
    let c = src[i];
    let next = char_at(src, i + 1);
    let after = char_at(src, i + 2);
    if is_ident_start(c) {
        let j = ident_end(src, i + 1);
        Some((Ok(word_kind(src.subrange(i, j))), j))
    } else {
        match c {
            '/' => match next {
                Some('/') => comment_at(src, i),
                Some('*') => None,
                Some('=') => fixed(TokenKind::DivEq, i, 2),
                Some('>') => fixed(TokenKind::AttrClose, i, 2),
                _ => fixed(TokenKind::Div, i, 1),
            },
            '#' => comment_at(src, i),
            '@' => match next {
                Some('"') => None,
                _ => fixed(TokenKind::At, i, 1),
            },
            '+' => match next {
                Some('=') => fixed(TokenKind::PlusEq, i, 2),
                Some('+') => fixed(TokenKind::PlusPlus, i, 2),
                _ => fixed(TokenKind::Plus, i, 1),
            },
            '-' => match next {
                Some('=') => fixed(TokenKind::MinusEq, i, 2),
                Some('-') => fixed(TokenKind::MinusMinus, i, 2),
                _ => fixed(TokenKind::Minus, i, 1),
            },
            '*' => match next {
                Some('=') => fixed(TokenKind::MultEq, i, 2),
                _ => fixed(TokenKind::Mult, i, 1),
            },
            '%' => match next {
                Some('=') => fixed(TokenKind::ModEq, i, 2),
                _ => fixed(TokenKind::Mod, i, 1),
            },
            '!' => match next {
                Some('=') => fixed(TokenKind::Ne, i, 2),
                _ => fixed(TokenKind::Not, i, 1),
            },
            '=' => match next {
                Some('=') => fixed(TokenKind::EqEq, i, 2),
                _ => fixed(TokenKind::Eq, i, 1),
            },
            '&' => match next {
                Some('&') => fixed(TokenKind::And, i, 2),
                _ => fixed(TokenKind::BitAnd, i, 1),
            },
            '|' => match next {
                Some('|') => fixed(TokenKind::Or, i, 2),
                _ => fixed(TokenKind::BitOr, i, 1),
            },
            ':' => match next {
                Some(':') => fixed(TokenKind::Scope, i, 2),
                _ => fixed(TokenKind::Colon, i, 1),
            },
            '<' => match next {
                Some('=') => match after {
                    Some('>') => fixed(TokenKind::Spaceship, i, 3),
                    _ => fixed(TokenKind::Le, i, 2),
                },
                Some('<') => fixed(TokenKind::ShiftLeft, i, 2),
                Some('-') => fixed(TokenKind::Newslot, i, 2),
                Some('/') => fixed(TokenKind::AttrOpen, i, 2),
                _ => fixed(TokenKind::Lt, i, 1),
            },
            '>' => match next {
                Some('>') => match after {
                    Some('>') => fixed(TokenKind::UShiftRight, i, 3),
                    _ => fixed(TokenKind::ShiftRight, i, 2),
                },
                Some('=') => fixed(TokenKind::Ge, i, 2),
                _ => fixed(TokenKind::Gt, i, 1),
            },
            '.' => match next {
                Some('.') => match after {
                    Some('.') => fixed(TokenKind::DotDotDot, i, 3),
                    _ => Some((Err(LexerErrorKind::InvalidToken(smol_str_of(".."@))), i + 2)),
                },
                _ => fixed(TokenKind::Dot, i, 1),
            },
            ' ' | '\t' | '\r' | '\n' => None,
            '^' => fixed(TokenKind::BitXor, i, 1),
            '~' => fixed(TokenKind::BitNot, i, 1),
            ',' => fixed(TokenKind::Comma, i, 1),
            '?' => fixed(TokenKind::Question, i, 1),
            '(' => fixed(TokenKind::ParenOpen, i, 1),
            ')' => fixed(TokenKind::ParenClose, i, 1),
            '[' => fixed(TokenKind::SquareOpen, i, 1),
            ']' => fixed(TokenKind::SquareClose, i, 1),
            '{' => fixed(TokenKind::BraceOpen, i, 1),
            '}' => fixed(TokenKind::BraceClose, i, 1),
            ';' => fixed(TokenKind::Semicolon, i, 1),
            _ => Some((Err(LexerErrorKind::UnexpectedChar(c)), i + 1)),
        }
    }
}

/// The result and the next state for the lexeme `r` spanning the chars from
/// the current position up to `j`: it runs from the first byte of its first
/// char to the last byte of its last char.
pub open spec fn lexeme_step(st: LexerState, r: Result<TokenKind, LexerErrorKind>, j: int) -> (
    LResult,
    LexerState,
) {
    let start = Position {
        byte_pos: byte_offset(st.src, st.pos as int) as usize,
        line: st.line,
        column: (st.column + 1) as usize,
    };
    let end = Position {
        byte_pos: (byte_offset(st.src, j) - 1) as usize,
        line: st.line,
        column: (st.column + (j - st.pos)) as usize,
    };
    let res = match r {
        Ok(kind) => Ok(Token { kind, start, end }),
        Err(kind) => Err(LexerError { kind, start, end }),
    };
    (res, st.advanced_to(j))
}

/// The end-of-file token, which points at the last byte of the text, and
/// the state after it: the column becomes one if it was still zero.
pub open spec fn eof_step(st: LexerState) -> (LResult, LexerState) {
    let column: usize = if st.column == 0 {
        1
    } else {
        st.column
    };
    let end: nat = if st.src.len() == 0 {
        0
    } else {
        (utf8_len(st.src) - 1) as nat
    };
    let res = Ok(
        Token {
            kind: TokenKind::Eof,
            start: Position { byte_pos: st.byte_pos() as usize, line: st.line, column },
            end: Position { byte_pos: end as usize, line: st.line, column },
        },
    );
    (res, LexerState { src: st.src, pos: st.pos, line: st.line, column })
}

/// One call of the lexer: what it yields and the state after it, or `None`
/// where the input is not supported.
pub open spec fn step(st: LexerState) -> Option<(LResult, LexerState)> {
    if st.pos >= st.src.len() {
        Some(eof_step(st))
    } else {
        match scan(st.src, st.pos as int) {
            None => None,
            Some((r, j)) => Some(lexeme_step(st, r, j)),
        }
    }
}

/// A lexeme ends after it starts, and within the text.
pub proof fn lemma_scan_bounds(src: Seq<char>, i: int)
    requires
        0 <= i < src.len(),
    ensures
        scan(src, i) matches Some((_, j)) ==> i < j <= src.len(),
{
    lemma_ident_end_bounds(src, i + 1);
    lemma_line_end_bounds(src, i + 1);
}

/// The run of identifier chars from `j` stays within the text.
pub proof fn lemma_ident_end_bounds(src: Seq<char>, j: int)
    requires
        0 <= j <= src.len(),
    ensures
        j <= ident_end(src, j) <= src.len(),
        forall|k: int| j <= k < ident_end(src, j) ==> is_ident_char(#[trigger] src[k]),
        ident_end(src, j) < src.len() ==> !is_ident_char(src[ident_end(src, j)]),
    decreases src.len() - j,
{
    if j < src.len() && is_ident_char(src[j]) {
        lemma_ident_end_bounds(src, j + 1);
    }
}

/// The rest of a line from `j` stays within the text and holds no newline.
pub proof fn lemma_line_end_bounds(src: Seq<char>, j: int)
    requires
        0 <= j <= src.len(),
    ensures
        j <= line_end(src, j) <= src.len(),
        forall|k: int| j <= k < line_end(src, j) ==> #[trigger] src[k] != '\n',
        line_end(src, j) < src.len() ==> src[line_end(src, j)] == '\n',
    decreases src.len() - j,
{
    if j < src.len() && src[j] != '\n' {
        lemma_line_end_bounds(src, j + 1);
    }
}

/// All the calls of the lexer from state `st` up to and including the
/// end-of-file token: the results in order and the final state; `None`
/// where an unsupported input is met on the way.
pub open spec fn lex_run(st: LexerState) -> Option<(Seq<LResult>, LexerState)>
    decreases st.src.len() - st.pos,
{
    if st.pos >= st.src.len() {
        let (r, fin) = eof_step(st);
        Some((seq![r], fin))
    } else {
        match scan(st.src, st.pos as int) {
            None => None,
            Some((r, j)) => {
                proof {
                    lemma_scan_bounds(st.src, st.pos as int);
                }
                let (res, next) = lexeme_step(st, r, j);
                match lex_run(next) {
                    None => None,
                    Some((rest, fin)) => Some((seq![res] + rest, fin)),
                }
            },
        }
    }
}

/// Whether a result of the lexer is the end-of-file token.
pub open spec fn is_eof_result(r: LResult) -> bool {
    match r {
        Ok(token) => token.kind is Eof,
        Err(_) => false,
    }
}

/// One unfolding of `lex_run`: its first result is that of `step`, which is
/// the end-of-file token exactly at the end of the text; before the end, the
/// step consumes at least one char and the run goes on from the next state.
pub proof fn lemma_lex_run_unfold(st: LexerState)
    requires
        lex_run(st) is Some,
    ensures
        step(st) matches Some((r, next)) && {
            &&& is_eof_result(r) <==> st.pos >= st.src.len()
            &&& st.pos >= st.src.len() ==> next.pos == st.pos && lex_run(st) == Some((seq![r], next))
            &&& st.pos < st.src.len() ==> st.pos < next.pos <= st.src.len() && match lex_run(next) {
                Some((rest, fin)) => lex_run(st) == Some((seq![r] + rest, fin)),
                None => false,
            }
        },
{
    if st.pos < st.src.len() {
        lemma_scan_bounds(st.src, st.pos as int);
        lemma_scan_not_eof(st.src, st.pos as int);
    }
}

/// No lexeme read from the text is the end-of-file token.
pub proof fn lemma_scan_not_eof(src: Seq<char>, i: int)
    requires
        0 <= i < src.len(),
    ensures
        scan(src, i) matches Some((Ok(kind), _)) ==> !(kind is Eof),
{
}

} // verus!
