use squirrel_lexer::lexer::{Lexer, LResult, LexerError, LexerErrorKind, Position, Token, TokenKind};

fn assert_stream_eq(src: &str, expected: Vec<LResult>) {
    let vec_source: Vec<LResult> = Lexer::new(src).collect_any();
    assert_eq!(vec_source, expected);
}

fn token(kind: TokenKind, start: (usize, usize, usize), end: (usize, usize, usize)) -> LResult {
    Ok(Token::new(
        kind,
        Position::new(start.0, start.1, start.2),
        Position::new(end.0, end.1, end.2),
    ))
}

fn eof(start: usize, line: usize, column: usize, end: usize) -> LResult {
    token(TokenKind::Eof, (start, line, column), (end, line, column))
}

fn error(
    kind: LexerErrorKind,
    start: (usize, usize, usize),
    end: (usize, usize, usize),
) -> LResult {
    Err(LexerError::new(
        kind,
        Position::new(start.0, start.1, start.2),
        Position::new(end.0, end.1, end.2),
    ))
}

#[test]
fn empty() {
    let mut lexer = Lexer::new("");
    assert_eq!(lexer.next_token(), eof(0, 1, 1, 0));
    assert_eq!(lexer.next_token(), eof(0, 1, 1, 0));
}

#[test]
fn idents() {
    // Unused variable
    assert_stream_eq("_", vec![token(TokenKind::Ident("_".into()), (0, 1, 1), (0, 1, 1)), eof(0, 1, 1, 0)]);
    assert_stream_eq("f", vec![token(TokenKind::Ident("f".into()), (0, 1, 1), (0, 1, 1)), eof(0, 1, 1, 0)]);
    assert_stream_eq("F", vec![token(TokenKind::Ident("F".into()), (0, 1, 1), (0, 1, 1)), eof(0, 1, 1, 0)]);
    assert_stream_eq("f1", vec![token(TokenKind::Ident("f1".into()), (0, 1, 1), (1, 1, 2)), eof(1, 1, 2, 1)]);
    assert_stream_eq("_1", vec![token(TokenKind::Ident("_1".into()), (0, 1, 1), (1, 1, 2)), eof(1, 1, 2, 1)]);
    assert_stream_eq("__", vec![token(TokenKind::Ident("__".into()), (0, 1, 1), (1, 1, 2)), eof(1, 1, 2, 1)]);
    // General variable
    assert_stream_eq("foo", vec![token(TokenKind::Ident("foo".into()), (0, 1, 1), (2, 1, 3)), eof(2, 1, 3, 2)]);
    assert_stream_eq("__fo", vec![token(TokenKind::Ident("__fo".into()), (0, 1, 1), (3, 1, 4)), eof(3, 1, 4, 3)]);
    assert_stream_eq("__2fo", vec![token(TokenKind::Ident("__2fo".into()), (0, 1, 1), (4, 1, 5)), eof(4, 1, 5, 4)]);
    // PascalCase
    assert_stream_eq("FooBar", vec![token(TokenKind::Ident("FooBar".into()), (0, 1, 1), (5, 1, 6)), eof(5, 1, 6, 5)]);
    assert_stream_eq("fOo2BaR", vec![token(TokenKind::Ident("fOo2BaR".into()), (0, 1, 1), (6, 1, 7)), eof(6, 1, 7, 6)]);
    // camelCase
    assert_stream_eq("fooBarBa", vec![token(TokenKind::Ident("fooBarBa".into()), (0, 1, 1), (7, 1, 8)), eof(7, 1, 8, 7)]);
    // SCREAMING_SNAKE_CASE
    assert_stream_eq("HALF_LIFE", vec![token(TokenKind::Ident("HALF_LIFE".into()), (0, 1, 1), (8, 1, 9)), eof(8, 1, 9, 8)]);
    // snake_case
    assert_stream_eq("portal_two", vec![token(TokenKind::Ident("portal_two".into()), (0, 1, 1), (9, 1, 10)), eof(9, 1, 10, 9)]);
    // A general script function beginning with "_"
    assert_stream_eq("__DumpScope", vec![token(TokenKind::Ident("__DumpScope".into()), (0, 1, 1), (10, 1, 11)), eof(10, 1, 11, 10)]);
    assert_stream_eq("__0foobarbaz", vec![token(TokenKind::Ident("__0foobarbaz".into()), (0, 1, 1), (11, 1, 12)), eof(11, 1, 12, 11)]);
    assert_stream_eq("___0123456789", vec![token(TokenKind::Ident("___0123456789".into()), (0, 1, 1), (12, 1, 13)), eof(12, 1, 13, 12)]);
}

#[test]
fn keywords() {
    assert_stream_eq("base", vec![token(TokenKind::Base, (0, 1, 1), (3, 1, 4)), eof(3, 1, 4, 3)]);
    assert_stream_eq("break", vec![token(TokenKind::Break, (0, 1, 1), (4, 1, 5)), eof(4, 1, 5, 4)]);
    assert_stream_eq("case", vec![token(TokenKind::Case, (0, 1, 1), (3, 1, 4)), eof(3, 1, 4, 3)]);
    assert_stream_eq("catch", vec![token(TokenKind::Catch, (0, 1, 1), (4, 1, 5)), eof(4, 1, 5, 4)]);
    assert_stream_eq("class", vec![token(TokenKind::Class, (0, 1, 1), (4, 1, 5)), eof(4, 1, 5, 4)]);
    assert_stream_eq("clone", vec![token(TokenKind::Clone, (0, 1, 1), (4, 1, 5)), eof(4, 1, 5, 4)]);
    assert_stream_eq("const", vec![token(TokenKind::Const, (0, 1, 1), (4, 1, 5)), eof(4, 1, 5, 4)]);
    assert_stream_eq("constructor", vec![token(TokenKind::Constructor, (0, 1, 1), (10, 1, 11)), eof(10, 1, 11, 10)]);
    assert_stream_eq("continue", vec![token(TokenKind::Continue, (0, 1, 1), (7, 1, 8)), eof(7, 1, 8, 7)]);
    assert_stream_eq("default", vec![token(TokenKind::Default, (0, 1, 1), (6, 1, 7)), eof(6, 1, 7, 6)]);
    assert_stream_eq("delete", vec![token(TokenKind::Delete, (0, 1, 1), (5, 1, 6)), eof(5, 1, 6, 5)]);
    assert_stream_eq("do", vec![token(TokenKind::Do, (0, 1, 1), (1, 1, 2)), eof(1, 1, 2, 1)]);
    assert_stream_eq("else", vec![token(TokenKind::Else, (0, 1, 1), (3, 1, 4)), eof(3, 1, 4, 3)]);
    assert_stream_eq("enum", vec![token(TokenKind::Enum, (0, 1, 1), (3, 1, 4)), eof(3, 1, 4, 3)]);
    assert_stream_eq("extends", vec![token(TokenKind::Extends, (0, 1, 1), (6, 1, 7)), eof(6, 1, 7, 6)]);
    assert_stream_eq("false", vec![token(TokenKind::False, (0, 1, 1), (4, 1, 5)), eof(4, 1, 5, 4)]);
    assert_stream_eq("__FILE__", vec![token(TokenKind::File, (0, 1, 1), (7, 1, 8)), eof(7, 1, 8, 7)]);
    assert_stream_eq("for", vec![token(TokenKind::For, (0, 1, 1), (2, 1, 3)), eof(2, 1, 3, 2)]);
    assert_stream_eq("foreach", vec![token(TokenKind::Foreach, (0, 1, 1), (6, 1, 7)), eof(6, 1, 7, 6)]);
    assert_stream_eq("function", vec![token(TokenKind::Function, (0, 1, 1), (7, 1, 8)), eof(7, 1, 8, 7)]);
    assert_stream_eq("if", vec![token(TokenKind::If, (0, 1, 1), (1, 1, 2)), eof(1, 1, 2, 1)]);
    assert_stream_eq("in", vec![token(TokenKind::In, (0, 1, 1), (1, 1, 2)), eof(1, 1, 2, 1)]);
    assert_stream_eq("instanceof", vec![token(TokenKind::Instanceof, (0, 1, 1), (9, 1, 10)), eof(9, 1, 10, 9)]);
    assert_stream_eq("__LINE__", vec![token(TokenKind::Line, (0, 1, 1), (7, 1, 8)), eof(7, 1, 8, 7)]);
    assert_stream_eq("local", vec![token(TokenKind::Local, (0, 1, 1), (4, 1, 5)), eof(4, 1, 5, 4)]);
    assert_stream_eq("null", vec![token(TokenKind::Null, (0, 1, 1), (3, 1, 4)), eof(3, 1, 4, 3)]);
    assert_stream_eq("rawcall", vec![token(TokenKind::Rawcall, (0, 1, 1), (6, 1, 7)), eof(6, 1, 7, 6)]);
    assert_stream_eq("resume", vec![token(TokenKind::Resume, (0, 1, 1), (5, 1, 6)), eof(5, 1, 6, 5)]);
    assert_stream_eq("return", vec![token(TokenKind::Return, (0, 1, 1), (5, 1, 6)), eof(5, 1, 6, 5)]);
    assert_stream_eq("static", vec![token(TokenKind::Static, (0, 1, 1), (5, 1, 6)), eof(5, 1, 6, 5)]);
    assert_stream_eq("switch", vec![token(TokenKind::Switch, (0, 1, 1), (5, 1, 6)), eof(5, 1, 6, 5)]);
    assert_stream_eq("this", vec![token(TokenKind::This, (0, 1, 1), (3, 1, 4)), eof(3, 1, 4, 3)]);
    assert_stream_eq("throw", vec![token(TokenKind::Throw, (0, 1, 1), (4, 1, 5)), eof(4, 1, 5, 4)]);
    assert_stream_eq("true", vec![token(TokenKind::True, (0, 1, 1), (3, 1, 4)), eof(3, 1, 4, 3)]);
    assert_stream_eq("try", vec![token(TokenKind::Try, (0, 1, 1), (2, 1, 3)), eof(2, 1, 3, 2)]);
    assert_stream_eq("typeof", vec![token(TokenKind::Typeof, (0, 1, 1), (5, 1, 6)), eof(5, 1, 6, 5)]);
    assert_stream_eq("while", vec![token(TokenKind::While, (0, 1, 1), (4, 1, 5)), eof(4, 1, 5, 4)]);
    assert_stream_eq("yield", vec![token(TokenKind::Yield, (0, 1, 1), (4, 1, 5)), eof(4, 1, 5, 4)]);
}

#[test]
fn symbols() {
    assert_stream_eq("+", vec![token(TokenKind::Plus, (0, 1, 1), (0, 1, 1)), eof(0, 1, 1, 0)]);
    assert_stream_eq("+=", vec![token(TokenKind::PlusEq, (0, 1, 1), (1, 1, 2)), eof(1, 1, 2, 1)]);
    assert_stream_eq("++", vec![token(TokenKind::PlusPlus, (0, 1, 1), (1, 1, 2)), eof(1, 1, 2, 1)]);
    assert_stream_eq("-", vec![token(TokenKind::Minus, (0, 1, 1), (0, 1, 1)), eof(0, 1, 1, 0)]);
    assert_stream_eq("-=", vec![token(TokenKind::MinusEq, (0, 1, 1), (1, 1, 2)), eof(1, 1, 2, 1)]);
    assert_stream_eq("--", vec![token(TokenKind::MinusMinus, (0, 1, 1), (1, 1, 2)), eof(1, 1, 2, 1)]);
    assert_stream_eq("*", vec![token(TokenKind::Mult, (0, 1, 1), (0, 1, 1)), eof(0, 1, 1, 0)]);
    assert_stream_eq("*=", vec![token(TokenKind::MultEq, (0, 1, 1), (1, 1, 2)), eof(1, 1, 2, 1)]);
    assert_stream_eq("/", vec![token(TokenKind::Div, (0, 1, 1), (0, 1, 1)), eof(0, 1, 1, 0)]);
    assert_stream_eq("/=", vec![token(TokenKind::DivEq, (0, 1, 1), (1, 1, 2)), eof(1, 1, 2, 1)]);
    assert_stream_eq("%", vec![token(TokenKind::Mod, (0, 1, 1), (0, 1, 1)), eof(0, 1, 1, 0)]);
    assert_stream_eq("%=", vec![token(TokenKind::ModEq, (0, 1, 1), (1, 1, 2)), eof(1, 1, 2, 1)]);

    assert_stream_eq("&", vec![token(TokenKind::BitAnd, (0, 1, 1), (0, 1, 1)), eof(0, 1, 1, 0)]);
    assert_stream_eq("|", vec![token(TokenKind::BitOr, (0, 1, 1), (0, 1, 1)), eof(0, 1, 1, 0)]);
    assert_stream_eq("^", vec![token(TokenKind::BitXor, (0, 1, 1), (0, 1, 1)), eof(0, 1, 1, 0)]);
    assert_stream_eq("~", vec![token(TokenKind::BitNot, (0, 1, 1), (0, 1, 1)), eof(0, 1, 1, 0)]);

    assert_stream_eq("&&", vec![token(TokenKind::And, (0, 1, 1), (1, 1, 2)), eof(1, 1, 2, 1)]);
    assert_stream_eq("||", vec![token(TokenKind::Or, (0, 1, 1), (1, 1, 2)), eof(1, 1, 2, 1)]);
    assert_stream_eq("!", vec![token(TokenKind::Not, (0, 1, 1), (0, 1, 1)), eof(0, 1, 1, 0)]);

    assert_stream_eq("<<", vec![token(TokenKind::ShiftLeft, (0, 1, 1), (1, 1, 2)), eof(1, 1, 2, 1)]);
    assert_stream_eq(">>", vec![token(TokenKind::ShiftRight, (0, 1, 1), (1, 1, 2)), eof(1, 1, 2, 1)]);
    assert_stream_eq(">>>", vec![token(TokenKind::UShiftRight, (0, 1, 1), (2, 1, 3)), eof(2, 1, 3, 2)]);

    assert_stream_eq("<", vec![token(TokenKind::Lt, (0, 1, 1), (0, 1, 1)), eof(0, 1, 1, 0)]);
    assert_stream_eq("<=", vec![token(TokenKind::Le, (0, 1, 1), (1, 1, 2)), eof(1, 1, 2, 1)]);
    assert_stream_eq(">", vec![token(TokenKind::Gt, (0, 1, 1), (0, 1, 1)), eof(0, 1, 1, 0)]);
    assert_stream_eq(">=", vec![token(TokenKind::Ge, (0, 1, 1), (1, 1, 2)), eof(1, 1, 2, 1)]);
    assert_stream_eq("==", vec![token(TokenKind::EqEq, (0, 1, 1), (1, 1, 2)), eof(1, 1, 2, 1)]);
    assert_stream_eq("!=", vec![token(TokenKind::Ne, (0, 1, 1), (1, 1, 2)), eof(1, 1, 2, 1)]);
    assert_stream_eq("<=>", vec![token(TokenKind::Spaceship, (0, 1, 1), (2, 1, 3)), eof(2, 1, 3, 2)]);

    assert_stream_eq("=", vec![token(TokenKind::Eq, (0, 1, 1), (0, 1, 1)), eof(0, 1, 1, 0)]);
    assert_stream_eq("<-", vec![token(TokenKind::Newslot, (0, 1, 1), (1, 1, 2)), eof(1, 1, 2, 1)]);
    assert_stream_eq(",", vec![token(TokenKind::Comma, (0, 1, 1), (0, 1, 1)), eof(0, 1, 1, 0)]);
    assert_stream_eq("?", vec![token(TokenKind::Question, (0, 1, 1), (0, 1, 1)), eof(0, 1, 1, 0)]);

    assert_stream_eq("(", vec![token(TokenKind::ParenOpen, (0, 1, 1), (0, 1, 1)), eof(0, 1, 1, 0)]);
    assert_stream_eq(")", vec![token(TokenKind::ParenClose, (0, 1, 1), (0, 1, 1)), eof(0, 1, 1, 0)]);
    assert_stream_eq("[", vec![token(TokenKind::SquareOpen, (0, 1, 1), (0, 1, 1)), eof(0, 1, 1, 0)]);
    assert_stream_eq("]", vec![token(TokenKind::SquareClose, (0, 1, 1), (0, 1, 1)), eof(0, 1, 1, 0)]);
    assert_stream_eq("{", vec![token(TokenKind::BraceOpen, (0, 1, 1), (0, 1, 1)), eof(0, 1, 1, 0)]);
    assert_stream_eq("}", vec![token(TokenKind::BraceClose, (0, 1, 1), (0, 1, 1)), eof(0, 1, 1, 0)]);
    assert_stream_eq("</", vec![token(TokenKind::AttrOpen, (0, 1, 1), (1, 1, 2)), eof(1, 1, 2, 1)]);
    assert_stream_eq("/>", vec![token(TokenKind::AttrClose, (0, 1, 1), (1, 1, 2)), eof(1, 1, 2, 1)]);
    assert_stream_eq(".", vec![token(TokenKind::Dot, (0, 1, 1), (0, 1, 1)), eof(0, 1, 1, 0)]);
    assert_stream_eq("...", vec![token(TokenKind::DotDotDot, (0, 1, 1), (2, 1, 3)), eof(2, 1, 3, 2)]);
    assert_stream_eq(":", vec![token(TokenKind::Colon, (0, 1, 1), (0, 1, 1)), eof(0, 1, 1, 0)]);
    assert_stream_eq(";", vec![token(TokenKind::Semicolon, (0, 1, 1), (0, 1, 1)), eof(0, 1, 1, 0)]);
    assert_stream_eq("::", vec![token(TokenKind::Scope, (0, 1, 1), (1, 1, 2)), eof(1, 1, 2, 1)]);
    assert_stream_eq("@", vec![token(TokenKind::At, (0, 1, 1), (0, 1, 1)), eof(0, 1, 1, 0)]);
}

#[test]
fn unexpected_symbol() {
    assert_stream_eq("ä", vec![
        error(LexerErrorKind::UnexpectedChar('ä'), (0, 1, 1), (1, 1, 1)),
        eof(0, 1, 1, 1)]);
    assert_stream_eq("ä松🐿", vec![
        // 2 bytes
        error(LexerErrorKind::UnexpectedChar('ä'), (0, 1, 1), (1, 1, 1)),
        // 3 bytes
        error(LexerErrorKind::UnexpectedChar('松'), (2, 1, 2), (4, 1, 2)),
        // 4 bytes
        error(LexerErrorKind::UnexpectedChar('🐿'), (5, 1, 3), (8, 1, 3)),
        eof(5, 1, 3, 8)]);
}

#[test]
fn invalid_token() {
    assert_stream_eq("..", vec![
        error(LexerErrorKind::InvalidToken("..".into()), (0, 1, 1), (1, 1, 2)),
        eof(1, 1, 2, 1)]);
}

#[test]
fn line_comments() {
    assert_stream_eq("//", vec![
        token(TokenKind::LineComment("//".into()), (0, 1, 1), (1, 1, 2)),
        eof(1, 1, 2, 1)]);
    assert_stream_eq("// comment", vec![
        token(TokenKind::LineComment("// comment".into()), (0, 1, 1), (9, 1, 10)),
        eof(9, 1, 10, 9)]);
    assert_stream_eq("// chloë", vec![
        token(TokenKind::LineComment("// chloë".into()), (0, 1, 1), (8, 1, 8)),
        eof(7, 1, 8, 8)]);
    assert_stream_eq("#", vec![
        token(TokenKind::LineComment("#".into()), (0, 1, 1), (0, 1, 1)),
        eof(0, 1, 1, 0)]);
    assert_stream_eq("# comment", vec![
        token(TokenKind::LineComment("# comment".into()), (0, 1, 1), (8, 1, 9)),
        eof(8, 1, 9, 8)]);
    assert_stream_eq("# chloë", vec![
        token(TokenKind::LineComment("# chloë".into()), (0, 1, 1), (7, 1, 7)),
        eof(6, 1, 7, 7)]);
}
