//! What one call of the lexer yields, stated from the chars where it stands:
//! identifiers are maximal runs of ASCII letters, digits and `_`, keywords
//! are exactly the Squirrel keywords, operators are read by longest match,
//! `//` and `#` start a comment that runs to the end of the line, and any
//! other char is an error of its own.
use crate::smol::smol_str_of;
use crate::spec::{
    char_at, lemma_ident_end_bounds, lemma_line_end_bounds, lemma_scan_bounds, step, LexerState,
};
use crate::token::{LResult, LexerErrorKind, TokenKind};
use vstd::prelude::*;

verus! {

/// The chars an identifier starts with: an ASCII letter or `_`.
pub open spec fn ident_head(c: char) -> bool {
    ('a' <= c && c <= 'z') || ('A' <= c && c <= 'Z') || c == '_'
}

/// The chars an identifier goes on with: an ASCII letter or digit, or `_`.
pub open spec fn ident_tail(c: char) -> bool {
    ('a' <= c && c <= 'z') || ('A' <= c && c <= 'Z') || ('0' <= c && c <= '9') || c == '_'
}

/// The chars the lexer does not support: whitespace and newlines.
pub open spec fn is_blank(c: char) -> bool {
    c == ' ' || c == '\t' || c == '\r' || c == '\n'
}

/// The spelling of each keyword kind, as its documentation gives it.
pub open spec fn keyword_spelling(kind: TokenKind) -> Option<Seq<char>> {
    match kind {
        TokenKind::Base => Some("base"@),
        TokenKind::Break => Some("break"@),
        TokenKind::Case => Some("case"@),
        TokenKind::Catch => Some("catch"@),
        TokenKind::Class => Some("class"@),
        TokenKind::Clone => Some("clone"@),
        TokenKind::Const => Some("const"@),
        TokenKind::Constructor => Some("constructor"@),
        TokenKind::Continue => Some("continue"@),
        TokenKind::Default => Some("default"@),
        TokenKind::Delete => Some("delete"@),
        TokenKind::Do => Some("do"@),
        TokenKind::Else => Some("else"@),
        TokenKind::Enum => Some("enum"@),
        TokenKind::Extends => Some("extends"@),
        TokenKind::False => Some("false"@),
        TokenKind::File => Some("__FILE__"@),
        TokenKind::For => Some("for"@),
        TokenKind::Foreach => Some("foreach"@),
        TokenKind::Function => Some("function"@),
        TokenKind::If => Some("if"@),
        TokenKind::In => Some("in"@),
        TokenKind::Instanceof => Some("instanceof"@),
        TokenKind::Line => Some("__LINE__"@),
        TokenKind::Local => Some("local"@),
        TokenKind::Null => Some("null"@),
        TokenKind::Rawcall => Some("rawcall"@),
        TokenKind::Resume => Some("resume"@),
        TokenKind::Return => Some("return"@),
        TokenKind::Static => Some("static"@),
        TokenKind::Switch => Some("switch"@),
        TokenKind::This => Some("this"@),
        TokenKind::Throw => Some("throw"@),
        TokenKind::True => Some("true"@),
        TokenKind::Try => Some("try"@),
        TokenKind::Typeof => Some("typeof"@),
        TokenKind::While => Some("while"@),
        TokenKind::Yield => Some("yield"@),
        _ => None,
    }
}

/// Whether `word` is the spelling of some keyword.
pub open spec fn is_keyword_spelling(word: Seq<char>) -> bool {
    exists|kind: TokenKind| #[trigger] keyword_spelling(kind) == Some(word)
}

/// The operators and punctuation of one char.
pub open spec fn op1(a: char) -> Option<TokenKind> {
    match a {
        '+' => Some(TokenKind::Plus),
        '-' => Some(TokenKind::Minus),
        '*' => Some(TokenKind::Mult),
        '/' => Some(TokenKind::Div),
        '%' => Some(TokenKind::Mod),
        '&' => Some(TokenKind::BitAnd),
        '|' => Some(TokenKind::BitOr),
        '^' => Some(TokenKind::BitXor),
        '~' => Some(TokenKind::BitNot),
        '!' => Some(TokenKind::Not),
        '<' => Some(TokenKind::Lt),
        '>' => Some(TokenKind::Gt),
        '=' => Some(TokenKind::Eq),
        ',' => Some(TokenKind::Comma),
        '?' => Some(TokenKind::Question),
        '(' => Some(TokenKind::ParenOpen),
        ')' => Some(TokenKind::ParenClose),
        '[' => Some(TokenKind::SquareOpen),
        ']' => Some(TokenKind::SquareClose),
        '{' => Some(TokenKind::BraceOpen),
        '}' => Some(TokenKind::BraceClose),
        '.' => Some(TokenKind::Dot),
        ':' => Some(TokenKind::Colon),
        ';' => Some(TokenKind::Semicolon),
        '@' => Some(TokenKind::At),
        _ => None,
    }
}

/// The operators of two chars.
pub open spec fn op2(a: char, b: char) -> Option<TokenKind> {
    match (a, b) {
        ('+', '=') => Some(TokenKind::PlusEq),
        ('+', '+') => Some(TokenKind::PlusPlus),
        ('-', '=') => Some(TokenKind::MinusEq),
        ('-', '-') => Some(TokenKind::MinusMinus),
        ('*', '=') => Some(TokenKind::MultEq),
        ('/', '=') => Some(TokenKind::DivEq),
        ('%', '=') => Some(TokenKind::ModEq),
        ('&', '&') => Some(TokenKind::And),
        ('|', '|') => Some(TokenKind::Or),
        ('<', '<') => Some(TokenKind::ShiftLeft),
        ('>', '>') => Some(TokenKind::ShiftRight),
        ('<', '=') => Some(TokenKind::Le),
        ('>', '=') => Some(TokenKind::Ge),
        ('=', '=') => Some(TokenKind::EqEq),
        ('!', '=') => Some(TokenKind::Ne),
        ('<', '-') => Some(TokenKind::Newslot),
        ('<', '/') => Some(TokenKind::AttrOpen),
        ('/', '>') => Some(TokenKind::AttrClose),
        (':', ':') => Some(TokenKind::Scope),
        _ => None,
    }
}

/// The operators of three chars.
pub open spec fn op3(a: char, b: char, c: char) -> Option<TokenKind> {
    match (a, b, c) {
        ('<', '=', '>') => Some(TokenKind::Spaceship),
        ('>', '>', '>') => Some(TokenKind::UShiftRight),
        ('.', '.', '.') => Some(TokenKind::DotDotDot),
        _ => None,
    }
}

/// The two-char operator that the chars at `i` and `i + 1` spell, if any.
pub open spec fn op2_at(src: Seq<char>, i: int) -> Option<TokenKind> {
    match char_at(src, i + 1) {
        Some(b) => op2(src[i], b),
        None => None,
    }
}

/// The three-char operator that the chars from `i` to `i + 2` spell, if any.
pub open spec fn op3_at(src: Seq<char>, i: int) -> Option<TokenKind> {
    match (char_at(src, i + 1), char_at(src, i + 2)) {
        (Some(b), Some(c)) => op3(src[i], b, c),
        _ => None,
    }
}

/// The kind of a token result.
pub open spec fn ok_kind(r: LResult) -> Option<TokenKind> {
    match r {
        Ok(token) => Some(token.kind),
        Err(_) => None,
    }
}

/// The kind of an error result.
pub open spec fn err_kind(r: LResult) -> Option<LexerErrorKind> {
    match r {
        Ok(_) => None,
        Err(error) => Some(error.kind),
    }
}

/// The lexer refuses exactly whitespace, newlines, `/*` and `@"`: at any
/// other char it reads a lexeme.
pub proof fn law_supported_input(st: LexerState)
    requires
        st.pos < st.src.len(),
    ensures
        ({
            let i = st.pos as int;
            let c = st.src[i];
            let next = char_at(st.src, i + 1);
            step(st) is None <==> (is_blank(c) || (c == '/' && next == Some('*')) || (c == '@'
                && next == Some('"')))
        }),
{
}

/// At an ASCII letter or `_` the lexer reads the longest run of ASCII
/// letters, digits and `_`, and yields the keyword the run spells, or else an
/// identifier holding the run; a run that spells a keyword never becomes an
/// identifier.
pub proof fn law_identifier_is_longest_run(st: LexerState)
    requires
        st.pos < st.src.len(),
        ident_head(st.src[st.pos as int]),
    ensures
        step(st) matches Some((r, next)) && {
            let i = st.pos as int;
            let j = next.pos as int;
            let text = st.src.subrange(i, j);
            &&& i < j <= st.src.len()
            &&& forall|k: int| i < k < j ==> ident_tail(#[trigger] st.src[k])
            &&& j < st.src.len() ==> !ident_tail(st.src[j])
            &&& ok_kind(r) matches Some(kind) && {
                ||| kind == TokenKind::Ident(smol_str_of(text)) && !is_keyword_spelling(text)
                ||| keyword_spelling(kind) == Some(text)
            }
            &&& is_keyword_spelling(text) ==> !(ok_kind(r)->0 is Ident)
        },
{
    let s = st.src;
    let i = st.pos as int;
    lemma_scan_bounds(s, i);
    lemma_ident_end_bounds(s, i + 1);
    let (r, next) = step(st).unwrap();
    let text = s.subrange(i, next.pos as int);
    if is_keyword_spelling(text) {
        let kind = choose|kind: TokenKind| #[trigger] keyword_spelling(kind) == Some(text);
        assert(keyword_spelling(kind) == Some(text));
    }
}

/// At an operator char, the lexer reads the longest operator that starts
/// there: three chars if they spell one, else two if they spell one, else
/// the one char. The exceptions are `//`, which starts a comment, and `..`
/// not followed by a third `.`, which is an error.
pub proof fn law_operator_longest_match(st: LexerState)
    requires
        st.pos < st.src.len(),
        op1(st.src[st.pos as int]) is Some,
        ({
            let i = st.pos as int;
            let c = st.src[i];
            let next = char_at(st.src, i + 1);
            &&& !(c == '/' && (next == Some('/') || next == Some('*')))
            &&& !(c == '@' && next == Some('"'))
            &&& !(c == '.' && next == Some('.') && char_at(st.src, i + 2) != Some('.'))
        }),
    ensures
        step(st) matches Some((r, next)) && {
            let i = st.pos as int;
            let j = next.pos as int;
            &&& op3_at(st.src, i) is Some ==> ok_kind(r) == op3_at(st.src, i) && j == i + 3
            &&& op3_at(st.src, i) is None && op2_at(st.src, i) is Some ==> ok_kind(r) == op2_at(
                st.src,
                i,
            ) && j == i + 2
            &&& op3_at(st.src, i) is None && op2_at(st.src, i) is None ==> ok_kind(r) == op1(
                st.src[i],
            ) && j == i + 1
        },
{
    lemma_scan_bounds(st.src, st.pos as int);
}

/// `//` or `#` starts a line comment at its first char, which runs up to the
/// first newline after it or to the end of the text, and holds those chars.
pub proof fn law_comment_runs_to_end_of_line(st: LexerState)
    requires
        st.pos < st.src.len(),
        ({
            let i = st.pos as int;
            st.src[i] == '#' || (st.src[i] == '/' && char_at(st.src, i + 1) == Some('/'))
        }),
    ensures
        step(st) matches Some((r, next)) && {
            let i = st.pos as int;
            let j = next.pos as int;
            &&& i < j <= st.src.len()
            &&& forall|k: int| i <= k < j ==> #[trigger] st.src[k] != '\n'
            &&& j < st.src.len() ==> st.src[j] == '\n'
            &&& ok_kind(r) == Some(TokenKind::LineComment(smol_str_of(st.src.subrange(i, j))))
        },
{
    let s = st.src;
    let i = st.pos as int;
    lemma_scan_bounds(s, i);
    lemma_line_end_bounds(s, i + 1);
}

/// A char that starts no identifier, operator or comment, and is no
/// whitespace, is an error of its own: the error names the char, and lexing
/// goes on at the next char.
pub proof fn law_unexpected_char_alone(st: LexerState)
    requires
        st.pos < st.src.len(),
        ({
            let c = st.src[st.pos as int];
            !ident_head(c) && op1(c) is None && c != '#' && !is_blank(c)
        }),
    ensures
        step(st) matches Some((r, next)) && {
            &&& err_kind(r) == Some(LexerErrorKind::UnexpectedChar(st.src[st.pos as int]))
            &&& next.pos == st.pos + 1
        },
{
}

/// Every error the lexer yields is either an unexpected char, which names
/// the char where the lexer stood and covers that char alone, or the invalid
/// token `..`, which covers two dots not followed by a third.
pub proof fn law_errors(st: LexerState)
    requires
        st.pos < st.src.len(),
        step(st) matches Some((r, _)) && r is Err,
    ensures
        step(st) matches Some((r, next)) && {
            let i = st.pos as int;
            let c = st.src[i];
            ||| {
                &&& err_kind(r) == Some(LexerErrorKind::UnexpectedChar(c))
                &&& next.pos == i + 1
                &&& !ident_head(c) && op1(c) is None && c != '#' && !is_blank(c)
            }
            ||| {
                &&& err_kind(r) == Some(
                    LexerErrorKind::InvalidToken(smol_str_of(seq!['.', '.'])),
                )
                &&& next.pos == i + 2
                &&& c == '.' && char_at(st.src, i + 1) == Some('.')
                &&& char_at(st.src, i + 2) != Some('.')
            }
        },
{
    reveal_strlit("..");
    assert(".."@ =~= seq!['.', '.']);
    lemma_scan_bounds(st.src, st.pos as int);
}

} // verus!
