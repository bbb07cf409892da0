//! The kinds of token that the language has.

use vstd::prelude::*;

verus! {

#[derive(Debug, Clone, Copy, PartialEq, Eq, Structural)]
pub enum TokenKind {
    // Keywords
    Paraan,
    Ang,
    Maiba,
    Ibalik,
    Bagay,
    Itupad,
    Kung,
    KungDi,
    KungWala,
    Sa,
    Identifier,
    // Literals
    IntLit,
    FloatLit,
    StringLit,
    ByteStringLit,
    // Delimiters and punctuation
    LeftBrace,
    RightBrace,
    LeftParen,
    RightParen,
    LeftBracket,
    RightBracket,
    Colon,
    ColonColon,
    Comma,
    Dot,
    DotDot,
    DotDotEqual,
    SemiColon,
    ThinArrow,
    ThickArrow,
    Plus,
    Minus,
    Star,
    Slash,
    Percent,
    Amper,
    At,
    Question,
    Bang,
    // Assignment operators
    Equal,
    PlusEqual,
    MinusEqual,
    StarEqual,
    SlashEqual,
    PercentEqual,
    // Equality operators
    EqualEqual,
    BangEqual,
    // Relational operators
    Greater,
    GreaterEqual,
    Lesser,
    LesserEqual,
    Eof,
}

} // verus!
