//! A token: a lexeme with its kind and the place where it starts.

use vstd::prelude::*;
use crate::lexer::token_kind::TokenKind;
use crate::text::copy_str;

verus! {

#[derive(Debug, PartialEq, Eq)]
pub struct Token {
    lexeme: String,
    kind: TokenKind,
    line: usize,
    column: usize,
}

/// A token as plain mathematical data.
pub struct TokenView {
    pub lexeme: Seq<char>,
    pub kind: TokenKind,
    pub line: usize,
    pub column: usize,
}

impl View for Token {
    type V = TokenView;

    closed spec fn view(&self) -> TokenView {
        TokenView { lexeme: self.lexeme@, kind: self.kind, line: self.line, column: self.column }
    }
}

/// The views of a sequence of tokens, in order.
pub open spec fn tokens_view(v: Seq<Token>) -> Seq<TokenView> {
    v.map_values(|t: Token| t@)
}

pub proof fn lemma_tokens_view_push(v: Seq<Token>, t: Token)
    ensures
        tokens_view(v.push(t)) == tokens_view(v).push(t@),
{
    assert(tokens_view(v.push(t)) =~= tokens_view(v).push(t@));
}

impl Token {
    pub fn new(lexeme: &str, kind: TokenKind, line: usize, column: usize) -> (t: Self)
        ensures
            t@ == (TokenView { lexeme: lexeme@, kind, line, column }),
    {
        Self { lexeme: copy_str(lexeme), kind, line, column }
    }

    pub fn lexeme(&self) -> (s: &str)
        ensures
            s@ == self@.lexeme,
    {
        self.lexeme.as_str()
    }

    pub fn kind(&self) -> (k: &TokenKind)
        ensures
            *k == self@.kind,
    {
        &self.kind
    }

    pub fn line(&self) -> (l: usize)
        ensures
            l == self@.line,
    {
        self.line
    }

    pub fn column(&self) -> (c: usize)
        ensures
            c == self@.column,
    {
        self.column
    }
}

impl Clone for Token {
    fn clone(&self) -> (t: Self)
        ensures
            t@ == self@,
    {
        Self {
            lexeme: self.lexeme.clone(),
            kind: self.kind,
            line: self.line,
            column: self.column,
        }
    }
}

} // verus!
