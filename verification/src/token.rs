//! Tokens, source positions and lexer errors.
use smol_str::SmolStr;
use vstd::prelude::*;

verus! {

/// A position in the source text.
#[derive(Debug, PartialEq)]
pub struct Position {
    /// The byte offset of this position.
    pub byte_pos: usize,
    /// The line number of this position.
    pub line: usize,
    /// The column number of this position.
    pub column: usize,
}

impl Position {
    /// Creates a new `Position` from its byte offset, line and column.
    pub fn new(byte_pos: usize, line: usize, column: usize) -> (r: Self)
        ensures
            r == (Position { byte_pos, line, column }),
    {
        Self { byte_pos, line, column }
    }
}

/// What one call of the lexer yields: a token, or an error.
pub type LResult = Result<Token, LexerError>;

/// A token together with the positions of its first and last byte.
#[derive(Debug, PartialEq)]
pub struct Token {
    /// The kind of this token.
    pub kind: TokenKind,
    pub start: Position,
    pub end: Position,
}

impl Token {
    /// Creates a new `Token` with the specified parameters.
    pub fn new(kind: TokenKind, start: Position, end: Position) -> (r: Self)
        ensures
            r == (Token { kind, start, end }),
    {
        Self { kind, start, end }
    }
}

/// Describes the kind of [`Token`] and possibly the value that it contains.
///
/// For example, an `Ident` token contains a `String` value (its name),
/// but a `Base` token has no value.
#[derive(Debug, PartialEq)]
#[non_exhaustive]
pub enum TokenKind {
    /// An identifier.
    Ident(SmolStr),
    /// A line comment beginning with either `//` or `#`.
    LineComment(SmolStr),

    /// The `base` keyword.
    Base,
    /// The `break` keyword.
    Break,
    /// The `case` keyword.
    Case,
    /// The `catch` keyword.
    Catch,
    /// The `class` keyword.
    Class,
    /// The `clone` keyword.
    Clone,
    /// The `const` keyword.
    Const,
    /// The `constructor` keyword.
    Constructor,
    /// The `continue` keyword.
    Continue,
    /// The `default` keyword.
    Default,
    /// The `delete` keyword.
    Delete,
    /// The `do` keyword.
    Do,
    /// The `else` keyword.
    Else,
    /// The `enum` keyword.
    Enum,
    /// The `extends` keyword.
    Extends,
    /// The `false` keyword.
    False,
    /// The `__FILE__` keyword.
    File,
    /// The `for` keyword.
    For,
    /// The `foreach` keyword.
    Foreach,
    /// The `function` keyword.
    Function,
    /// The `if` keyword.
    If,
    /// The `in` keyword.
    In,
    /// The `instanceof` keyword.
    Instanceof,
    /// The `__LINE__` keyword.
    Line,
    /// The `local` keyword.
    Local,
    /// The `null` keyword.
    Null,
    /// The `rawcall` keyword.
    Rawcall,
    /// The `resume` keyword.
    Resume,
    /// The `return` keyword.
    Return,
    /// The `static` keyword.
    Static,
    /// The `switch` keyword.
    Switch,
    /// The `this` keyword.
    This,
    /// The `throw` keyword.
    Throw,
    /// The `true` keyword.
    True,
    /// The `try` keyword.
    Try,
    /// The `typeof` keyword.
    Typeof,
    /// The `while` keyword.
    While,
    /// The `yield` keyword.
    Yield,

    /// `+`
    Plus,
    /// `+=`
    PlusEq,
    /// `++`
    PlusPlus,
    /// `-`
    Minus,
    /// `-=`
    MinusEq,
    /// `--`
    MinusMinus,
    /// `*`
    Mult,
    /// `*=`
    MultEq,
    /// `/`
    Div,
    /// `/=`
    DivEq,
    /// `%`
    Mod,
    /// `%=`
    ModEq,

    /// `&`
    BitAnd,
    /// `|`
    BitOr,
    /// `^`
    BitXor,
    /// `~`
    BitNot,

    /// `&&`
    And,
    /// `||`
    Or,
    /// `!`
    Not,

    /// `<<`
    ShiftLeft,
    /// `>>`
    ShiftRight,
    /// `>>>`
    UShiftRight,

    /// `<`
    Lt,
    /// `<=`
    Le,
    /// `>`
    Gt,
    /// `>=`
    Ge,
    /// `==`
    EqEq,
    /// `!=`
    Ne,
    /// `<=>`
    Spaceship,

    /// `=`
    Eq,
    /// `<-`
    Newslot,
    /// `,`
    Comma,
    /// `?`
    Question,

    /// An opening parenthesis.
    ParenOpen,
    /// A closing parenthesis.
    ParenClose,
    /// An opening square bracket.
    SquareOpen,
    /// A closing square bracket.
    SquareClose,
    /// An opening brace.
    BraceOpen,
    /// A closing brace.
    BraceClose,
    /// `</`
    AttrOpen,
    /// `/>`
    AttrClose,
    /// `.`
    Dot,
    /// `...`
    DotDotDot,
    /// `:`
    Colon,
    /// `;`
    Semicolon,
    /// `::`
    Scope,
    /// `@`
    At,

    /// End of file.
    Eof,
}

/// An error of the lexer, with the positions of the offending text.
#[derive(Debug, PartialEq)]
pub struct LexerError {
    pub kind: LexerErrorKind,
    pub start: Position,
    pub end: Position,
}

impl LexerError {
    /// Creates a new `LexerError` with the specified parameters.
    pub fn new(kind: LexerErrorKind, start: Position, end: Position) -> (r: Self)
        ensures
            r == (LexerError { kind, start, end }),
    {
        Self { kind, start, end }
    }
}

/// Describes the kind of [`LexerError`] and provides additional information if any.
#[derive(Debug, PartialEq)]
pub enum LexerErrorKind {
    /// An unexpected character was encountered.
    UnexpectedChar(char),
    /// An invalid token was encountered.
    InvalidToken(SmolStr),
}

} // verus!
