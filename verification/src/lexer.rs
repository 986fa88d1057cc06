//! The lexer: turns Squirrel source text into tokens.
use crate::smol::{smol_str_new, smol_str_of};
use crate::spec::{
    char_at, ident_end, is_ident_char, is_ident_start, keyword_kind, lemma_ident_end_bounds,
    lemma_lex_run_unfold, lemma_line_end_bounds, lemma_scan_bounds, lex_run, line_end, step,
    word_kind, LexerState,
};
use crate::text::{
    byte_offset, char_width, lemma_byte_offset_end, lemma_byte_offset_mono, lemma_byte_offset_step,
    lemma_char_width, str_between, utf8_width,
};
pub use crate::token::{LResult, LexerError, LexerErrorKind, Position, Token, TokenKind};
use smol_str::SmolStr;
use vstd::prelude::*;

verus! {

/// A lexer over a source text.
pub struct Lexer<'src> {
    src: &'src str,
    /// The chars of `src`.
    chars: Vec<char>,
    /// The index of the next char to consume.
    next: usize,
    /// The byte offset of the next char to consume.
    next_byte: usize,
    /// The byte offset of the last consumed char.
    byte_pos: usize,
    line: usize,
    column: usize,
}

impl<'src> View for Lexer<'src> {
    type V = LexerState;

    closed spec fn view(&self) -> LexerState {
        LexerState { src: self.src@, pos: self.next as nat, line: self.line, column: self.column }
    }
}

impl<'src> Lexer<'src> {
    /// The lexer's fields agree with its state.
    pub closed spec fn wf(&self) -> bool {
        &&& self.chars@ == self.src@
        &&& self@.valid()
        &&& self.next_byte == byte_offset(self.src@, self.next as int)
        &&& self.byte_pos == self@.byte_pos()
    }

    /// Creates a lexer at the start of `src`, on line one, column zero.
    pub fn new(src: &'src str) -> (r: Self)
        ensures
            r.wf(),
            r@.valid(),
            r@ == (LexerState { src: src@, pos: 0, line: 1, column: 0 }),
    {
        // The length of the UTF-8 encoding of `src` fits in a `usize`.
        let bytes = src.as_bytes();
        let _n_bytes = bytes.len();
        let mut chars: Vec<char> = Vec::new();
        for c in it: src.chars()
            invariant
                chars@ == it.seq().take(it.index() as int),
        {
            chars.push(c);
        }
        assert(chars@ == src@);
        Self { src, chars, next: 0, next_byte: 0, byte_pos: 0, line: 1, column: 0 }
    }

    /// Consumes the next char, if there is one, moving the column on by one.
    fn next_char(&mut self) -> (r: Option<char>)
        requires
            old(self).wf(),
        ensures
            final(self).wf(),
            r == char_at(old(self)@.src, old(self)@.pos as int),
            r is Some ==> final(self)@ == old(self)@.advanced_to(old(self)@.pos + 1int),
            r is None ==> final(self)@ == old(self)@,
            final(self).src == old(self).src,
    {
        if self.next < self.chars.len() {
            let c = self.chars[self.next];
            let w = utf8_width(c);
            proof {
                let s = self.src@;
                lemma_byte_offset_step(s, self.next as int);
                lemma_byte_offset_mono(s, self.next + 1, s.len() as int);
                lemma_byte_offset_end(s);
            }
            self.column = self.column + 1;
            self.byte_pos = self.next_byte;
            self.next_byte = self.next_byte + w;
            self.next = self.next + 1;
            Some(c)
        } else {
            None
        }
    }

    /// The next char, without consuming it.
    fn peek_first(&self) -> (r: Option<char>)
        requires
            self.wf(),
        ensures
            r == char_at(self@.src, self@.pos as int),
    {
        if self.next < self.chars.len() {
            Some(self.chars[self.next])
        } else {
            None
        }
    }

    /// The char after the next one, without consuming anything.
    fn peek_second(&self) -> (r: Option<char>)
        requires
            self.wf(),
        ensures
            r == char_at(self@.src, self@.pos + 1int),
    {
        if self.next < self.chars.len() && self.next + 1 < self.chars.len() {
            Some(self.chars[self.next + 1])
        } else {
            None
        }
    }

    /// Returns the byte position of the next char without consuming it;
    /// at the end of the text, the length in bytes of the text.
    fn peek_byte_pos(&self) -> (r: usize)
        requires
            self.wf(),
        ensures
            r == byte_offset(self@.src, self@.pos as int),
    {
        self.next_byte
    }

    /// The text from byte `start` through the last consumed char, which must
    /// be a one-byte char; `start` is the offset of the char of index `from`.
    fn str_from_end(&self, start: usize, Ghost(from): Ghost<int>) -> (r: SmolStr)
        requires
            self.wf(),
            0 <= from < self@.pos,
            start == byte_offset(self@.src, from),
            char_width(self@.src[self@.pos - 1]) == 1,
        ensures
            r == smol_str_of(self@.src.subrange(from, self@.pos as int)),
    {
        proof {
            lemma_byte_offset_step(self@.src, self@.pos - 1);
        }
        smol_str_new(str_between(self.src, start, self.byte_pos + 1, Ghost(from), Ghost(self.next as int)))
    }

    /// The text from byte `start` up to the next char; `start` is the offset
    /// of the char of index `from`. Unlike `str_from_end`, the last consumed
    /// char may be of any width.
    fn str_from_end_safe(&self, start: usize, Ghost(from): Ghost<int>) -> (r: SmolStr)
        requires
            self.wf(),
            0 <= from <= self@.pos,
            start == byte_offset(self@.src, from),
        ensures
            r == smol_str_of(self@.src.subrange(from, self@.pos as int)),
    {
        let end = self.peek_byte_pos();
        smol_str_new(str_between(self.src, start, end, Ghost(from), Ghost(self.next as int)))
    }

    /// A token from the given start to the last consumed char.
    fn token_on_line(&self, kind: TokenKind, byte_pos: usize, column: usize) -> (r: LResult)
        ensures
            r == Ok::<Token, LexerError>(
                Token {
                    kind,
                    start: Position { byte_pos, line: self.line, column },
                    end: Position { byte_pos: self.byte_pos, line: self.line, column: self.column },
                },
            ),
    {
        Ok(
            Token::new(
                kind,
                Position::new(byte_pos, self.line, column),
                Position::new(self.byte_pos, self.line, self.column),
            ),
        )
    }

    /// An error from the given start to the last consumed char.
    fn error_on_line(&self, kind: LexerErrorKind, byte_pos: usize, column: usize) -> (r: LResult)
        ensures
            r == Err::<Token, LexerError>(
                LexerError {
                    kind,
                    start: Position { byte_pos, line: self.line, column },
                    end: Position { byte_pos: self.byte_pos, line: self.line, column: self.column },
                },
            ),
    {
        Err(
            LexerError::new(
                kind,
                Position::new(byte_pos, self.line, column),
                Position::new(self.byte_pos, self.line, self.column),
            ),
        )
    }

    /// A token from the given start to the last byte before the next char.
    fn token_on_line_safe(&self, kind: TokenKind, byte_pos: usize, column: usize) -> (r: LResult)
        requires
            self.wf(),
            self@.pos > 0,
        ensures
            r == Ok::<Token, LexerError>(
                Token {
                    kind,
                    start: Position { byte_pos, line: self.line, column },
                    end: Position {
                        byte_pos: (byte_offset(self@.src, self@.pos as int) - 1) as usize,
                        line: self.line,
                        column: self.column,
                    },
                },
            ),
    {
        proof {
            lemma_byte_offset_mono(self@.src, 0, self@.pos as int);
        }
        let end = self.peek_byte_pos() - 1;
        Ok(
            Token::new(
                kind,
                Position::new(byte_pos, self.line, column),
                Position::new(end, self.line, self.column),
            ),
        )
    }

    /// A token of the last consumed char alone.
    fn one_char_token(&self, kind: TokenKind) -> (r: LResult)
        ensures
            r == Ok::<Token, LexerError>(
                Token {
                    kind,
                    start: Position { byte_pos: self.byte_pos, line: self.line, column: self.column },
                    end: Position { byte_pos: self.byte_pos, line: self.line, column: self.column },
                },
            ),
    {
        self.token_on_line(kind, self.byte_pos, self.column)
    }

    /// A token of the last consumed char and the next one, which is consumed.
    fn two_char_token(&mut self, kind: TokenKind) -> (r: LResult)
        requires
            old(self).wf(),
            old(self)@.pos < old(self)@.src.len(),
        ensures
            final(self).wf(),
            final(self).src == old(self).src,
            final(self)@ == old(self)@.advanced_to(old(self)@.pos + 1int),
            r == Ok::<Token, LexerError>(
                Token {
                    kind,
                    start: Position {
                        byte_pos: old(self).byte_pos,
                        line: old(self).line,
                        column: old(self).column,
                    },
                    end: Position {
                        byte_pos: byte_offset(old(self)@.src, old(self)@.pos as int) as usize,
                        line: old(self).line,
                        column: (old(self).column + 1) as usize,
                    },
                },
            ),
    {
        let byte_pos = self.byte_pos;
        let column = self.column;
        self.next_char();
        self.token_on_line(kind, byte_pos, column)
    }

    /// A token of the last consumed char and the next two, which are consumed.
    fn three_char_token(&mut self, kind: TokenKind) -> (r: LResult)
        requires
            old(self).wf(),
            old(self)@.pos + 1 < old(self)@.src.len(),
        ensures
            final(self).wf(),
            final(self).src == old(self).src,
            final(self)@ == old(self)@.advanced_to(old(self)@.pos + 2int),
            r == Ok::<Token, LexerError>(
                Token {
                    kind,
                    start: Position {
                        byte_pos: old(self).byte_pos,
                        line: old(self).line,
                        column: old(self).column,
                    },
                    end: Position {
                        byte_pos: byte_offset(old(self)@.src, old(self)@.pos + 1int) as usize,
                        line: old(self).line,
                        column: (old(self).column + 2) as usize,
                    },
                },
            ),
    {
        let byte_pos = self.byte_pos;
        let column = self.column;
        self.next_char();
        self.next_char();
        self.token_on_line(kind, byte_pos, column)
    }

    /// Reads all the remaining tokens, up to and including the end-of-file
    /// token; errors are collected in place of tokens.
    pub fn collect_any(&mut self) -> (r: Vec<LResult>)
        requires
            old(self).wf(),
            lex_run(old(self)@) is Some,
        ensures
            final(self).wf(),
            final(self)@.valid(),
            lex_run(old(self)@) == Some((r@, final(self)@)),
    {
        let mut vec: Vec<LResult> = Vec::new();
        let mut pushed_eof = false;
        while !pushed_eof
            invariant
                self.wf(),
                !pushed_eof ==> match lex_run(self@) {
                    Some((rest, fin)) => lex_run(old(self)@) == Some((vec@ + rest, fin)),
                    None => false,
                },
                pushed_eof ==> lex_run(old(self)@) == Some((vec@, self@)),
            decreases self.chars.len() - self.next + (if pushed_eof {
                0int
            } else {
                1int
            }),
        {
            let ghost before = self@;
            let ghost prev = vec@;
            proof {
                lemma_lex_run_unfold(before);
            }
            let result = self.next_token();
            let is_eof = match &result {
                Ok(token) => match &token.kind {
                    TokenKind::Eof => true,
                    _ => false,
                },
                Err(_) => false,
            };
            pushed_eof = is_eof;
            vec.push(result);
            proof {
                assert(prev + seq![result] =~= vec@);
                if !is_eof {
                    let (rest, fin) = lex_run(self@).unwrap();
                    assert(prev + (seq![result] + rest) =~= vec@ + rest);
                }
            }
        }
        vec
    }

    /// Reads the next token. At the end of the text this is the end-of-file
    /// token, which points at the very last byte of the text; it is yielded
    /// again on every later call.
    pub fn next_token(&mut self) -> (r: LResult)
        requires
            old(self).wf(),
            step(old(self)@) is Some,
        ensures
            final(self).wf(),
            final(self)@.valid(),
            step(old(self)@) == Some((r, final(self)@)),
    {
        let ghost s = self@;
        proof {
            let i = s.pos as int;
            if i < s.src.len() {
                lemma_scan_bounds(s.src, i);
                lemma_byte_offset_step(s.src, i);
                lemma_char_width(s.src[i]);
                if i + 1 < s.src.len() {
                    lemma_byte_offset_step(s.src, i + 1);
                    lemma_char_width(s.src[i + 1]);
                }
                if i + 2 < s.src.len() {
                    lemma_byte_offset_step(s.src, i + 2);
                    lemma_char_width(s.src[i + 2]);
                }
            } else {
                lemma_byte_offset_mono(s.src, 0, s.src.len() as int);
                lemma_byte_offset_end(s.src);
            }
        }
        // We want the Eof token to point at the very last char
        // in the source string. If that last char is a newline,
        // then the byte position points at it, but
        // line & column info point at the start of the next line.
        let this_char = match self.next_char() {
            Some(c) => c,
            None => {
                if self.column == 0 {
                    self.column = 1;
                }
                let end = if self.src.is_empty() {
                    0
                } else {
                    self.src.len() - 1
                };
                return Ok(
                    Token::new(
                        TokenKind::Eof,
                        Position::new(self.byte_pos, self.line, self.column),
                        Position::new(end, self.line, self.column),
                    ),
                );
            },
        };
        if is_ident_start_exec(this_char) {
            return self.idents_and_keywords();
        }
        match this_char {
            // Line comment, block comment, /=, /> and /.
            '/' => match self.peek_first() {
                Some('/') => self.line_comment(),
                Some('*') => unreached(),
                Some('=') => self.two_char_token(TokenKind::DivEq),
                Some('>') => self.two_char_token(TokenKind::AttrClose),
                _ => self.one_char_token(TokenKind::Div),
            },
            // Line comment beginning with a #.
            '#' => self.line_comment(),
            // Verbatim strings and @.
            '@' => match self.peek_first() {
                Some('"') => unreached(),
                _ => self.one_char_token(TokenKind::At),
            },
            // +=, ++ and +.
            '+' => match self.peek_first() {
                Some('=') => self.two_char_token(TokenKind::PlusEq),
                Some('+') => self.two_char_token(TokenKind::PlusPlus),
                _ => self.one_char_token(TokenKind::Plus),
            },
            // -=, -- and -.
            '-' => match self.peek_first() {
                Some('=') => self.two_char_token(TokenKind::MinusEq),
                Some('-') => self.two_char_token(TokenKind::MinusMinus),
                _ => self.one_char_token(TokenKind::Minus),
            },
            // *= and *.
            '*' => match self.peek_first() {
                Some('=') => self.two_char_token(TokenKind::MultEq),
                _ => self.one_char_token(TokenKind::Mult),
            },
            // %= and %.
            '%' => match self.peek_first() {
                Some('=') => self.two_char_token(TokenKind::ModEq),
                _ => self.one_char_token(TokenKind::Mod),
            },
            // != and !.
            '!' => match self.peek_first() {
                Some('=') => self.two_char_token(TokenKind::Ne),
                _ => self.one_char_token(TokenKind::Not),
            },
            // == and =.
            '=' => match self.peek_first() {
                Some('=') => self.two_char_token(TokenKind::EqEq),
                _ => self.one_char_token(TokenKind::Eq),
            },
            // && and &.
            '&' => match self.peek_first() {
                Some('&') => self.two_char_token(TokenKind::And),
                _ => self.one_char_token(TokenKind::BitAnd),
            },
            // || and |.
            '|' => match self.peek_first() {
                Some('|') => self.two_char_token(TokenKind::Or),
                _ => self.one_char_token(TokenKind::BitOr),
            },
            // :: and :.
            ':' => match self.peek_first() {
                Some(':') => self.two_char_token(TokenKind::Scope),
                _ => self.one_char_token(TokenKind::Colon),
            },
            // <=>, <=, <<, <-, </ and <.
            '<' => match self.peek_first() {
                Some('=') => match self.peek_second() {
                    Some('>') => self.three_char_token(TokenKind::Spaceship),
                    _ => self.two_char_token(TokenKind::Le),
                },
                Some('<') => self.two_char_token(TokenKind::ShiftLeft),
                Some('-') => self.two_char_token(TokenKind::Newslot),
                Some('/') => self.two_char_token(TokenKind::AttrOpen),
                _ => self.one_char_token(TokenKind::Lt),
            },
            // >>>, >>, >= and >.
            '>' => match self.peek_first() {
                Some('>') => match self.peek_second() {
                    Some('>') => self.three_char_token(TokenKind::UShiftRight),
                    _ => self.two_char_token(TokenKind::ShiftRight),
                },
                Some('=') => self.two_char_token(TokenKind::Ge),
                _ => self.one_char_token(TokenKind::Gt),
            },
            // "..." and ".".
            '.' => match self.peek_first() {
                Some('.') => match self.peek_second() {
                    Some('.') => self.three_char_token(TokenKind::DotDotDot),
                    _ => {
                        // ".." is an invalid token and results in a lexer error.
                        let byte_pos = self.byte_pos;
                        let column = self.column;
                        self.next_char();
                        self.error_on_line(
                            LexerErrorKind::InvalidToken(smol_str_new("..")),
                            byte_pos,
                            column,
                        )
                    },
                },
                _ => self.one_char_token(TokenKind::Dot),
            },
            // Whitespace and newlines are not supported yet.
            ' ' | '\t' | '\r' | '\n' => unreached(),
            // Tokens consisting of only one symbol.
            '^' => self.one_char_token(TokenKind::BitXor),
            '~' => self.one_char_token(TokenKind::BitNot),
            ',' => self.one_char_token(TokenKind::Comma),
            '?' => self.one_char_token(TokenKind::Question),
            '(' => self.one_char_token(TokenKind::ParenOpen),
            ')' => self.one_char_token(TokenKind::ParenClose),
            '[' => self.one_char_token(TokenKind::SquareOpen),
            ']' => self.one_char_token(TokenKind::SquareClose),
            '{' => self.one_char_token(TokenKind::BraceOpen),
            '}' => self.one_char_token(TokenKind::BraceClose),
            ';' => self.one_char_token(TokenKind::Semicolon),
            // Unexpected char. Report this offending char to the user.
            _ => {
                let start_byte_pos = self.byte_pos;
                let end_byte_pos = self.peek_byte_pos() - 1;
                Err(
                    LexerError::new(
                        LexerErrorKind::UnexpectedChar(this_char),
                        Position::new(start_byte_pos, self.line, self.column),
                        Position::new(end_byte_pos, self.line, self.column),
                    ),
                )
            },
        }
    }

    /// Reads the rest of an identifier or keyword whose first char was just
    /// consumed.
    fn idents_and_keywords(&mut self) -> (r: LResult)
        requires
            old(self).wf(),
            old(self)@.pos >= 1,
            is_ident_start(old(self)@.src[old(self)@.pos - 1]),
        ensures
            final(self).wf(),
            final(self).src == old(self).src,
            ({
                let s = old(self)@;
                let j = ident_end(s.src, s.pos as int);
                &&& final(self)@ == s.advanced_to(j)
                &&& r == Ok::<Token, LexerError>(
                    Token {
                        kind: word_kind(s.src.subrange(s.pos - 1, j)),
                        start: Position {
                            byte_pos: old(self).byte_pos,
                            line: s.line,
                            column: s.column,
                        },
                        end: Position {
                            byte_pos: (byte_offset(s.src, j) - 1) as usize,
                            line: s.line,
                            column: (s.column + (j - s.pos)) as usize,
                        },
                    },
                )
            }),
    {
        let ghost s = self@;
        let byte_pos = self.byte_pos;
        let column = self.column;
        let from = self.next - 1;
        proof {
            lemma_ident_end_bounds(s.src, s.pos as int);
        }
        loop
            invariant
                self.wf(),
                self.src == old(self).src,
                s.pos <= self@.pos <= ident_end(s.src, s.pos as int),
                ident_end(s.src, self@.pos as int) == ident_end(s.src, s.pos as int),
                self@ == s.advanced_to(self@.pos as int),
                s.valid(),
                s.pos >= 1,
            ensures
                self@.pos == ident_end(s.src, s.pos as int),
            decreases self.chars.len() - self.next,
        {
            match self.peek_first() {
                Some(c) => {
                    if !is_ident_char_exec(c) {
                        break;
                    }
                },
                None => {
                    break;
                },
            }
            self.next_char();
            proof {
                lemma_ident_end_bounds(s.src, self@.pos as int);
            }
        }
        let ghost j = self@.pos as int;
        proof {
            lemma_char_width(s.src[j - 1]);
            lemma_byte_offset_step(s.src, j - 1);
        }
        let kind = match keyword(&self.chars, from, self.next) {
            Some(kind) => kind,
            None => TokenKind::Ident(self.str_from_end(byte_pos, Ghost(from as int))),
        };
        self.token_on_line(kind, byte_pos, column)
    }

    /// Reads the rest of a line comment whose first char was just consumed:
    /// everything up to the end of the line.
    fn line_comment(&mut self) -> (r: LResult)
        requires
            old(self).wf(),
            old(self)@.pos >= 1,
        ensures
            final(self).wf(),
            final(self).src == old(self).src,
            ({
                let s = old(self)@;
                let j = line_end(s.src, s.pos as int);
                &&& final(self)@ == s.advanced_to(j)
                &&& r == Ok::<Token, LexerError>(
                    Token {
                        kind: TokenKind::LineComment(smol_str_of(s.src.subrange(s.pos - 1, j))),
                        start: Position {
                            byte_pos: old(self).byte_pos,
                            line: s.line,
                            column: s.column,
                        },
                        end: Position {
                            byte_pos: (byte_offset(s.src, j) - 1) as usize,
                            line: s.line,
                            column: (s.column + (j - s.pos)) as usize,
                        },
                    },
                )
            }),
    {
        let ghost s = self@;
        let byte_pos = self.byte_pos;
        let column = self.column;
        let from = self.next - 1;
        proof {
            lemma_line_end_bounds(s.src, s.pos as int);
        }
        loop
            invariant
                self.wf(),
                self.src == old(self).src,
                s.pos <= self@.pos <= line_end(s.src, s.pos as int),
                line_end(s.src, self@.pos as int) == line_end(s.src, s.pos as int),
                self@ == s.advanced_to(self@.pos as int),
                s.valid(),
                s.pos >= 1,
            ensures
                self@.pos == line_end(s.src, s.pos as int),
            decreases self.chars.len() - self.next,
        {
            match self.peek_first() {
                Some(c) => {
                    if c == '\n' {
                        break;
                    }
                },
                None => {
                    break;
                },
            }
            self.next_char();
            proof {
                lemma_line_end_bounds(s.src, self@.pos as int);
            }
        }
        let text = self.str_from_end_safe(byte_pos, Ghost(from as int));
        self.token_on_line_safe(TokenKind::LineComment(text), byte_pos, column)
    }
}

/// Whether `c` can start an identifier: an ASCII letter or `_`.
fn is_ident_start_exec(c: char) -> (r: bool)
    ensures
        r == is_ident_start(c),
{
    ('a' <= c && c <= 'z') || ('A' <= c && c <= 'Z') || c == '_'
}

/// Whether `c` can continue an identifier: an ASCII letter or digit, or `_`.
fn is_ident_char_exec(c: char) -> (r: bool)
    ensures
        r == is_ident_char(c),
{
    ('a' <= c && c <= 'z') || ('A' <= c && c <= 'Z') || ('0' <= c && c <= '9') || c == '_'
}

/// The keywords have the lengths that the lookup below dispatches on.
proof fn lemma_keyword_lengths()
    ensures
        "do"@.len() == 2,
        "if"@.len() == 2,
        "in"@.len() == 2,
        "for"@.len() == 3,
        "try"@.len() == 3,
        "base"@.len() == 4,
        "case"@.len() == 4,
        "else"@.len() == 4,
        "enum"@.len() == 4,
        "null"@.len() == 4,
        "this"@.len() == 4,
        "true"@.len() == 4,
        "break"@.len() == 5,
        "catch"@.len() == 5,
        "class"@.len() == 5,
        "clone"@.len() == 5,
        "const"@.len() == 5,
        "false"@.len() == 5,
        "local"@.len() == 5,
        "throw"@.len() == 5,
        "while"@.len() == 5,
        "yield"@.len() == 5,
        "delete"@.len() == 6,
        "resume"@.len() == 6,
        "return"@.len() == 6,
        "static"@.len() == 6,
        "switch"@.len() == 6,
        "typeof"@.len() == 6,
        "default"@.len() == 7,
        "extends"@.len() == 7,
        "foreach"@.len() == 7,
        "rawcall"@.len() == 7,
        "__FILE__"@.len() == 8,
        "__LINE__"@.len() == 8,
        "continue"@.len() == 8,
        "function"@.len() == 8,
        "instanceof"@.len() == 10,
        "constructor"@.len() == 11,
{
    reveal_strlit("do");
    reveal_strlit("if");
    reveal_strlit("in");
    reveal_strlit("for");
    reveal_strlit("try");
    reveal_strlit("base");
    reveal_strlit("case");
    reveal_strlit("else");
    reveal_strlit("enum");
    reveal_strlit("null");
    reveal_strlit("this");
    reveal_strlit("true");
    reveal_strlit("break");
    reveal_strlit("catch");
    reveal_strlit("class");
    reveal_strlit("clone");
    reveal_strlit("const");
    reveal_strlit("false");
    reveal_strlit("local");
    reveal_strlit("throw");
    reveal_strlit("while");
    reveal_strlit("yield");
    reveal_strlit("delete");
    reveal_strlit("resume");
    reveal_strlit("return");
    reveal_strlit("static");
    reveal_strlit("switch");
    reveal_strlit("typeof");
    reveal_strlit("default");
    reveal_strlit("extends");
    reveal_strlit("foreach");
    reveal_strlit("rawcall");
    reveal_strlit("__FILE__");
    reveal_strlit("__LINE__");
    reveal_strlit("continue");
    reveal_strlit("function");
    reveal_strlit("instanceof");
    reveal_strlit("constructor");
}

/// Whether the chars `from..to` spell `word`.
fn word_is(chars: &Vec<char>, from: usize, to: usize, word: &str) -> (r: bool)
    requires
        from <= to <= chars.len(),
    ensures
        r == (chars@.subrange(from as int, to as int) == word@),
{
    let n = word.unicode_len();
    if to - from != n {
        return false;
    }
    let mut k: usize = 0;
    while k < n
        invariant
            from <= to <= chars.len(),
            to - from == n == word@.len(),
            0 <= k <= n,
            forall|m: int| 0 <= m < k ==> chars@[from + m] == word@[m],
        decreases n - k,
    {
        if chars[from + k] != word.get_char(k) {
            assert(chars@.subrange(from as int, to as int)[k as int] != word@[k as int]);
            return false;
        }
        k = k + 1;
    }
    assert(chars@.subrange(from as int, to as int) =~= word@);
    true
}

/// The keyword that the chars `from..to` spell, if any; the lookup goes by
/// the length of the word first.
fn keyword(chars: &Vec<char>, from: usize, to: usize) -> (r: Option<TokenKind>)
    requires
        from <= to <= chars.len(),
    ensures
        r == keyword_kind(chars@.subrange(from as int, to as int)),
{
    proof {
        lemma_keyword_lengths();
    }
    match to - from {
        2 => {
            if word_is(chars, from, to, "do") {
                Some(TokenKind::Do)
            } else if word_is(chars, from, to, "if") {
                Some(TokenKind::If)
            } else if word_is(chars, from, to, "in") {
                Some(TokenKind::In)
            } else {
                None
            }
        },
        3 => {
            if word_is(chars, from, to, "for") {
                Some(TokenKind::For)
            } else if word_is(chars, from, to, "try") {
                Some(TokenKind::Try)
            } else {
                None
            }
        },
        4 => {
            if word_is(chars, from, to, "base") {
                Some(TokenKind::Base)
            } else if word_is(chars, from, to, "case") {
                Some(TokenKind::Case)
            } else if word_is(chars, from, to, "else") {
                Some(TokenKind::Else)
            } else if word_is(chars, from, to, "enum") {
                Some(TokenKind::Enum)
            } else if word_is(chars, from, to, "null") {
                Some(TokenKind::Null)
            } else if word_is(chars, from, to, "this") {
                Some(TokenKind::This)
            } else if word_is(chars, from, to, "true") {
                Some(TokenKind::True)
            } else {
                None
            }
        },
        5 => {
            if word_is(chars, from, to, "break") {
                Some(TokenKind::Break)
            } else if word_is(chars, from, to, "catch") {
                Some(TokenKind::Catch)
            } else if word_is(chars, from, to, "class") {
                Some(TokenKind::Class)
            } else if word_is(chars, from, to, "clone") {
                Some(TokenKind::Clone)
            } else if word_is(chars, from, to, "const") {
                Some(TokenKind::Const)
            } else if word_is(chars, from, to, "false") {
                Some(TokenKind::False)
            } else if word_is(chars, from, to, "local") {
                Some(TokenKind::Local)
            } else if word_is(chars, from, to, "throw") {
                Some(TokenKind::Throw)
            } else if word_is(chars, from, to, "while") {
                Some(TokenKind::While)
            } else if word_is(chars, from, to, "yield") {
                Some(TokenKind::Yield)
            } else {
                None
            }
        },
        6 => {
            if word_is(chars, from, to, "delete") {
                Some(TokenKind::Delete)
            } else if word_is(chars, from, to, "resume") {
                Some(TokenKind::Resume)
            } else if word_is(chars, from, to, "return") {
                Some(TokenKind::Return)
            } else if word_is(chars, from, to, "static") {
                Some(TokenKind::Static)
            } else if word_is(chars, from, to, "switch") {
                Some(TokenKind::Switch)
            } else if word_is(chars, from, to, "typeof") {
                Some(TokenKind::Typeof)
            } else {
                None
            }
        },
        7 => {
            if word_is(chars, from, to, "default") {
                Some(TokenKind::Default)
            } else if word_is(chars, from, to, "extends") {
                Some(TokenKind::Extends)
            } else if word_is(chars, from, to, "foreach") {
                Some(TokenKind::Foreach)
            } else if word_is(chars, from, to, "rawcall") {
                Some(TokenKind::Rawcall)
            } else {
                None
            }
        },
        8 => {
            if word_is(chars, from, to, "__FILE__") {
                Some(TokenKind::File)
            } else if word_is(chars, from, to, "__LINE__") {
                Some(TokenKind::Line)
            } else if word_is(chars, from, to, "continue") {
                Some(TokenKind::Continue)
            } else if word_is(chars, from, to, "function") {
                Some(TokenKind::Function)
            } else {
                None
            }
        },
        10 | 11 => {
            if word_is(chars, from, to, "instanceof") {
                Some(TokenKind::Instanceof)
            } else if word_is(chars, from, to, "constructor") {
                Some(TokenKind::Constructor)
            } else {
                None
            }
        },
        _ => None,
    }
}

} // verus!
