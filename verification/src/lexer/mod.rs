//! The lexer: from the source text to the tokens of a module.

use vstd::prelude::*;
use vstd::string::StringExecFns;
use crate::error::{CompilerError, ErrorKind, errors_view};
use crate::lexer::rules::{
    CharClass, LexState, at, in_class, keyword_kind, lemma_run_end_bounds, lemma_step_advances,
    lex_from, lex_step, lexed, run_end, scan_string, without_underscores,
};
use crate::lexer::token::{Token, lemma_tokens_view_push, tokens_view};
use crate::lexer::token_kind::TokenKind;
use crate::parser::module::Module;
use crate::text::{chars_of, is_ascii_digit, str_eq, string_of};

pub mod rules;
pub mod token;
pub mod token_kind;

verus! {

pub struct Lexer {
    parent_module: Module,
    chars: Vec<char>,
    tokens: Vec<Token>,
    errors: Vec<CompilerError>,
    start: usize,
    current: usize,
    line: usize,
    column: usize,
    start_column: usize,
}

/// The kind of a keyword, where `lexeme` is one.
pub fn keyword_of(lexeme: &str) -> (r: Option<TokenKind>)
    ensures
        r == keyword_kind(lexeme@),
{
    if str_eq(lexeme, "paraan") {
        Some(TokenKind::Paraan)
    } else if str_eq(lexeme, "ang") {
        Some(TokenKind::Ang)
    } else if str_eq(lexeme, "maiba") {
        Some(TokenKind::Maiba)
    } else if str_eq(lexeme, "ibalik") {
        Some(TokenKind::Ibalik)
    } else if str_eq(lexeme, "bagay") {
        Some(TokenKind::Bagay)
    } else if str_eq(lexeme, "itupad") {
        Some(TokenKind::Itupad)
    } else if str_eq(lexeme, "kung") {
        Some(TokenKind::Kung)
    } else if str_eq(lexeme, "kungdi") {
        Some(TokenKind::KungDi)
    } else if str_eq(lexeme, "kungwala") {
        Some(TokenKind::KungWala)
    } else if str_eq(lexeme, "sa") {
        Some(TokenKind::Sa)
    } else {
        None
    }
}

/// Whether `c` belongs to a run of the given class.
pub fn is_in_class(c: char, class: CharClass) -> (b: bool)
    ensures
        b == in_class(c, class),
{
    match class {
        CharClass::IdentContinue => unicode_ident::is_xid_continue(c),
        CharClass::NumberPart => is_ascii_digit(c) || c == '_',
        CharClass::Blank => c.is_whitespace() && c != '\n',
        CharClass::CommentBody => c != '\n',
    }
}

impl Lexer {
    /// The characters of the source that is lexed.
    pub closed spec fn source(&self) -> Seq<char> {
        self.chars@
    }

    /// The module that the lexer holds, which it hands back when it is done.
    pub closed spec fn module(&self) -> Module {
        self.parent_module
    }

    /// How far lexing has come.
    pub closed spec fn state(&self) -> LexState {
        LexState {
            pos: self.current as int,
            line: self.line,
            column: self.column,
            start_column: self.start_column,
            tokens: tokens_view(self.tokens@),
            errors: errors_view(self.errors@),
        }
    }

    /// Position, line and column stay in step, and the source is short
    /// enough for both to be counted.
    pub closed spec fn wf(&self) -> bool {
        &&& self.chars@ == self.parent_module.source_code@
        &&& self.chars.len() + 2 <= usize::MAX
        &&& self.start <= self.current <= self.chars.len()
        &&& self.column <= self.current + 1
        &&& self.line <= self.current + 1
        &&& self.start_column <= self.current + 1
    }

    spec fn same_input(&self, other: &Self) -> bool {
        &&& self.parent_module == other.parent_module
        &&& self.chars == other.chars
        &&& self.start == other.start
    }

    pub fn new(parent_module: Module) -> (l: Self)
        requires
            parent_module.source_code@.len() + 2 <= usize::MAX,
        ensures
            l.wf(),
            l.module() == parent_module,
            l.source() == parent_module.source_code@,
            l.state() == LexState::initial(),
    {
        let chars = chars_of(parent_module.source_code.as_str());
        let l = Self {
            parent_module,
            chars,
            tokens: Vec::new(),
            errors: Vec::new(),
            start: 0,
            current: 0,
            line: 1,
            column: 1,
            start_column: 1,
        };
        assert(tokens_view(l.tokens@) =~= Seq::empty());
        assert(errors_view(l.errors@) =~= Seq::empty());
        l
    }

    /// Lexes the whole source: the tokens are those of the source, closed by
    /// the one that marks its end.
    pub fn lex(&mut self)
        requires
            old(self).wf(),
        ensures
            final(self).wf(),
            final(self).module() == old(self).module(),
            final(self).source() == old(self).source(),
            final(self).state() == lexed(old(self).source()),
    {
        self.tokens = Vec::new();
        self.errors = Vec::new();
        self.start = 0;
        self.current = 0;
        self.line = 1;
        self.column = 1;
        self.start_column = 1;
        assert(tokens_view(self.tokens@) =~= Seq::empty());
        assert(errors_view(self.errors@) =~= Seq::empty());
        while !self.is_at_end()
            invariant
                self.wf(),
                self.parent_module == old(self).parent_module,
                self.chars == old(self).chars,
                lex_from(self.chars@, self.state()) == lex_from(
                    self.chars@,
                    LexState::initial(),
                ),
            decreases self.chars.len() - self.current,
        {
            proof {
                lemma_step_advances(self.chars@, self.state());
            }
            self.next_token();
        }
        self.add_token(TokenKind::Eof, "Eof");
    }

    /// One step of lexing, from a position inside the source.
    fn next_token(&mut self)
        requires
            old(self).wf(),
            old(self).current < old(self).chars.len(),
        ensures
            final(self).wf(),
            final(self).parent_module == old(self).parent_module,
            final(self).chars == old(self).chars,
            final(self).state() == lex_step(old(self).chars@, old(self).state()),
    {
        self.start = self.current;
        self.start_column = self.column;
        let ch = self.chars[self.current];
        self.advance();
        if ch == '(' {
            self.add_span(TokenKind::LeftParen);
        } else if ch == ')' {
            self.add_span(TokenKind::RightParen);
        } else if ch == '{' {
            self.add_span(TokenKind::LeftBrace);
        } else if ch == '}' {
            self.add_span(TokenKind::RightBrace);
        } else if ch == '[' {
            self.add_span(TokenKind::LeftBracket);
        } else if ch == ']' {
            self.add_span(TokenKind::RightBracket);
        } else if ch == ';' {
            self.add_span(TokenKind::SemiColon);
        } else if ch == ',' {
            self.add_span(TokenKind::Comma);
        } else if ch == '@' {
            self.add_span(TokenKind::At);
        } else if ch == '&' {
            self.add_span(TokenKind::Amper);
        } else if ch == '?' {
            self.add_span(TokenKind::Question);
        } else if ch == '.' {
            if self.match_char('.') {
                self.operator('=', TokenKind::DotDotEqual, TokenKind::DotDot);
            } else {
                self.add_span(TokenKind::Dot);
            }
        } else if ch == ':' {
            self.operator(':', TokenKind::ColonColon, TokenKind::Colon);
        } else if ch == '+' {
            self.operator('=', TokenKind::PlusEqual, TokenKind::Plus);
        } else if ch == '-' {
            if self.match_char('>') {
                self.add_span(TokenKind::ThinArrow);
            } else {
                self.operator('=', TokenKind::MinusEqual, TokenKind::Minus);
            }
        } else if ch == '*' {
            self.operator('=', TokenKind::StarEqual, TokenKind::Star);
        } else if ch == '/' {
            if self.match_char('/') {
                self.skip_run(CharClass::CommentBody);
            } else {
                self.operator('=', TokenKind::SlashEqual, TokenKind::Slash);
            }
        } else if ch == '%' {
            self.operator('=', TokenKind::PercentEqual, TokenKind::Percent);
        } else if ch == '=' {
            if self.match_char('>') {
                self.add_span(TokenKind::ThickArrow);
            } else {
                self.operator('=', TokenKind::EqualEqual, TokenKind::Equal);
            }
        } else if ch == '!' {
            self.operator('=', TokenKind::BangEqual, TokenKind::Bang);
        } else if ch == '>' {
            self.operator('=', TokenKind::GreaterEqual, TokenKind::Greater);
        } else if ch == '<' {
            self.operator('=', TokenKind::LesserEqual, TokenKind::Lesser);
        } else if ch.is_whitespace() && ch != '\n' {
            self.skip_whitespace();
        } else if ch == '\n' {
            self.infer_semicolon();
            self.line = self.line + 1;
            self.column = 1;
        } else if ch == '"' {
            self.lex_string(TokenKind::StringLit);
        } else if ch == 'b' && self.match_char('"') {
            self.lex_string(TokenKind::ByteStringLit);
        } else if ch == 'b' || self.is_identifier_start(ch) {
            self.lex_identifier();
        } else if is_ascii_digit(ch) {
            self.lex_number();
        } else {
            let mut msg = String::new();
            msg.append("Hindi valid na karakter: `");
            msg.push(ch);
            msg.append("`");
            let e = CompilerError::new(msg.as_str(), ErrorKind::Error, self.line, self.start_column)
                .add_note("Siguro ito ay hindi parte ng sintax ng Tol").add_help(
                "Subukan mo itong tanggalin",
            );
            self.report(e);
        }
    }

    /// Puts a `;` after a token that can end a statement.
    fn infer_semicolon(&mut self)
        requires
            old(self).wf(),
            old(self).start_column <= old(self).current,
        ensures
            final(self).wf(),
            final(self).same_input(old(self)),
            final(self).state() == old(self).state().infer_semicolon(),
    {
        let n = self.tokens.len();
        if n > 0 {
            let ends = matches!(
                self.tokens[n - 1].kind(),
                TokenKind::Identifier | TokenKind::RightParen | TokenKind::RightBracket
                    | TokenKind::IntLit | TokenKind::FloatLit | TokenKind::StringLit
                    | TokenKind::ByteStringLit
            );
            assert(tokens_view(self.tokens@).last() == self.tokens@[n - 1]@);
            if ends {
                self.start_column = self.start_column + 1;
                self.add_token(TokenKind::SemiColon, ";");
            }
        }
    }

    fn lex_identifier(&mut self)
        requires
            old(self).wf(),
        ensures
            final(self).wf(),
            final(self).same_input(old(self)),
            final(self).state() == old(self).state().identifier(
                old(self).chars@,
                old(self).start as int,
            ),
    {
        self.skip_run(CharClass::IdentContinue);
        let lexeme = string_of(&self.chars, self.start, self.current);
        match keyword_of(lexeme.as_str()) {
            Some(keyword_kind) => self.add_token(keyword_kind, lexeme.as_str()),
            None => self.add_token(TokenKind::Identifier, lexeme.as_str()),
        }
    }

    fn lex_number(&mut self)
        requires
            old(self).wf(),
        ensures
            final(self).wf(),
            final(self).same_input(old(self)),
            final(self).state() == old(self).state().number(
                old(self).chars@,
                old(self).start as int,
            ),
    {
        let mut is_float = false;
        proof {
            lemma_run_end_bounds(self.chars@, self.current as int, CharClass::NumberPart);
        }
        self.skip_run(CharClass::NumberPart);
        let ghost whole_end = self.current as int;
        assert(whole_end == run_end(old(self).chars@, old(self).current as int, CharClass::NumberPart));
        assert(self.column == old(self).column + (whole_end - old(self).current));
        let dot = match self.peek() {
            Some(c) => c == '.',
            None => false,
        };
        if dot {
            let digit_follows = match self.peek_next() {
                Some(next_ch) => is_ascii_digit(next_ch),
                None => false,
            };
            if digit_follows {
                is_float = true;
                self.advance();
                proof {
                    lemma_run_end_bounds(self.chars@, self.current as int, CharClass::NumberPart);
                }
                self.skip_run(CharClass::NumberPart);
            }
        }
        assert(self.column == old(self).column + (self.current - old(self).current));
        assert(self.state() == old(self).state().moved_to(self.current as int));
        let mut without: String = String::new();
        let mut i: usize = self.start;
        assert(self.chars@.subrange(self.start as int, i as int) =~= Seq::empty());
        while i < self.current
            invariant
                self.start <= i <= self.current <= self.chars.len(),
                without@ == without_underscores(self.chars@.subrange(self.start as int, i as int)),
            decreases self.current - i,
        {
            let c = self.chars[i];
            assert(self.chars@.subrange(self.start as int, i + 1).drop_last()
                =~= self.chars@.subrange(self.start as int, i as int));
            if c != '_' {
                without.push(c);
            }
            i = i + 1;
        }
        let kind = if is_float {
            TokenKind::FloatLit
        } else {
            TokenKind::IntLit
        };
        self.add_token(kind, without.as_str());
    }

    fn lex_string(&mut self, kind: TokenKind)
        requires
            old(self).wf(),
            old(self).start_column <= old(self).current,
        ensures
            final(self).wf(),
            final(self).same_input(old(self)),
            final(self).state() == old(self).state().string(old(self).chars@, kind),
    {
        let mut value = String::new();
        let ghost first = self.state();
        let ghost whole = scan_string(
            self.chars@,
            self.current as int,
            self.line,
            self.column,
            Seq::empty(),
        );
        loop
            invariant
                self.wf(),
                self.same_input(old(self)),
                self.start_column == old(self).start_column,
                self.start_column <= self.current,
                self.state().tokens == first.tokens,
                self.state().errors == first.errors,
                first == old(self).state(),
                whole == scan_string(
                    self.chars@,
                    first.pos,
                    first.line,
                    first.column,
                    Seq::empty(),
                ),
                whole == scan_string(
                    self.chars@,
                    self.current as int,
                    self.line,
                    self.column,
                    value@,
                ),
            decreases self.chars.len() - self.current,
        {
            match self.peek() {
                None => {
                    let e = CompilerError::new(
                        "Ang sinulid ay hindi isinara",
                        ErrorKind::Error,
                        self.line,
                        self.start_column,
                    );
                    self.report(e);
                    return ;
                },
                Some(ch) => {
                    if ch == '"' {
                        self.advance();
                        self.add_token(kind, value.as_str());
                        return ;
                    } else if ch == '\n' {
                        value.push('\n');
                        self.advance();
                        self.line = self.line + 1;
                        self.column = 2;
                    } else if ch == '\\' {
                        self.advance();
                        match self.peek() {
                            Some(esc) => {
                                let unescaped = if esc == 'n' {
                                    '\n'
                                } else if esc == 't' {
                                    '\t'
                                } else if esc == 'r' {
                                    '\r'
                                } else {
                                    esc
                                };
                                value.push(unescaped);
                                self.advance();
                            },
                            None => {
                                let e = CompilerError::new(
                                    "Ang sinulid ay hindi isinara",
                                    ErrorKind::Error,
                                    self.line,
                                    self.start_column,
                                ).add_help("Subukan mog maglagay ng `\"` sa huli");
                                self.report(e);
                                return ;
                            },
                        }
                    } else {
                        value.push(ch);
                        self.advance();
                    }
                },
            }
        }
    }

    /// Adds a token that starts where the current lexeme started.
    fn add_token(&mut self, kind: TokenKind, lexeme: &str)
        requires
            old(self).wf(),
        ensures
            final(self).wf(),
            final(self).same_input(old(self)),
            final(self).state() == old(self).state().add(kind, lexeme@),
    {
        let t = Token::new(lexeme, kind, self.line, self.start_column);
        proof {
            lemma_tokens_view_push(self.tokens@, t);
        }
        self.tokens.push(t);
    }

    /// Adds a token whose lexeme is the source from the start of the
    /// current lexeme to here.
    fn add_span(&mut self, kind: TokenKind)
        requires
            old(self).wf(),
        ensures
            final(self).wf(),
            final(self).same_input(old(self)),
            final(self).state() == old(self).state().add_span(
                old(self).chars@,
                old(self).start as int,
                kind,
            ),
    {
        let lexeme = string_of(&self.chars, self.start, self.current);
        self.add_token(kind, lexeme.as_str());
    }

    /// The token of an operator of one character, or of two where `second`
    /// follows.
    fn operator(&mut self, second: char, long: TokenKind, short: TokenKind)
        requires
            old(self).wf(),
        ensures
            final(self).wf(),
            final(self).same_input(old(self)),
            final(self).state() == old(self).state().operator(
                old(self).chars@,
                old(self).start as int,
                second,
                long,
                short,
            ),
    {
        if self.match_char(second) {
            self.add_span(long);
        } else {
            self.add_span(short);
        }
    }

    /// Records a diagnostic.
    fn report(&mut self, e: CompilerError)
        requires
            old(self).wf(),
        ensures
            final(self).wf(),
            final(self).same_input(old(self)),
            final(self).state() == old(self).state().fail(e@),
    {
        assert(errors_view(self.errors@.push(e)) =~= errors_view(self.errors@).push(e@));
        self.errors.push(e);
    }

    /// Whether a character can start an identifier that is written in
    /// ASCII: a letter or `_`.
    pub fn is_ascii_identifier_start(ch: char) -> (b: bool)
        ensures
            b == (('a' <= ch && ch <= 'z') || ('A' <= ch && ch <= 'Z') || ch == '_'),
    {
        (ch >= 'a' && ch <= 'z') || (ch >= 'A' && ch <= 'Z') || ch == '_'
    }

    /// Whether a character can go on an identifier that is written in
    /// ASCII: a letter, a digit or `_`.
    pub fn is_ascii_identifier_continue(ch: char) -> (b: bool)
        ensures
            b == (('a' <= ch && ch <= 'z') || ('A' <= ch && ch <= 'Z') || ('0' <= ch && ch <= '9')
                || ch == '_'),
    {
        (ch >= 'a' && ch <= 'z') || (ch >= 'A' && ch <= 'Z') || (ch >= '0' && ch <= '9') || ch
            == '_'
    }

    /// Whether a character can start an identifier.
    fn is_identifier_start(&self, ch: char) -> (b: bool)
        ensures
            b == crate::lexer::rules::xid_start(ch),
    {
        unicode_ident::is_xid_start(ch)
    }

    /// Passes the run of the given class that starts here.
    fn skip_run(&mut self, class: CharClass)
        requires
            old(self).wf(),
        ensures
            final(self).wf(),
            final(self).same_input(old(self)),
            final(self).state() == old(self).state().moved_to(
                run_end(old(self).chars@, old(self).current as int, class),
            ),
    {
        let ghost first = self.state();
        while self.current < self.chars.len() && is_in_class(self.chars[self.current], class)
            invariant
                self.wf(),
                self.same_input(old(self)),
                first == old(self).state(),
                first.pos <= self.current,
                self.column == first.column + (self.current - first.pos),
                self.line == first.line,
                self.start_column == first.start_column,
                self.state().tokens == first.tokens,
                self.state().errors == first.errors,
                run_end(self.chars@, self.current as int, class) == run_end(
                    self.chars@,
                    first.pos,
                    class,
                ),
            decreases self.chars.len() - self.current,
        {
            self.current = self.current + 1;
            self.column = self.column + 1;
        }
    }

    fn skip_whitespace(&mut self)
        requires
            old(self).wf(),
        ensures
            final(self).wf(),
            final(self).same_input(old(self)),
            final(self).state() == old(self).state().moved_to(
                run_end(old(self).chars@, old(self).current as int, CharClass::Blank),
            ),
    {
        self.skip_run(CharClass::Blank);
    }

    fn peek(&self) -> (r: Option<char>)
        requires
            self.wf(),
        ensures
            r == at(self.chars@, self.current as int),
    {
        if self.current < self.chars.len() {
            Some(self.chars[self.current])
        } else {
            None
        }
    }

    fn peek_next(&self) -> (r: Option<char>)
        requires
            self.wf(),
        ensures
            r == at(self.chars@, self.current + 1),
    {
        if self.current + 1 < self.chars.len() {
            Some(self.chars[self.current + 1])
        } else {
            None
        }
    }

    /// Passes one character of the current line.
    fn advance(&mut self)
        requires
            old(self).wf(),
            old(self).current < old(self).chars.len(),
        ensures
            final(self).wf(),
            final(self).same_input(old(self)),
            final(self).state() == old(self).state().advance(),
    {
        self.current = self.current + 1;
        self.column = self.column + 1;
    }

    /// Passes the next character where it is `expected`.
    fn match_char(&mut self, expected: char) -> (b: bool)
        requires
            old(self).wf(),
        ensures
            final(self).wf(),
            final(self).same_input(old(self)),
            b == (at(old(self).chars@, old(self).current as int) == Some(expected)),
            final(self).state() == (if b {
                old(self).state().advance()
            } else {
                old(self).state()
            }),
    {
        if self.current < self.chars.len() && self.chars[self.current] == expected {
            self.advance();
            return true;
        }
        false
    }

    fn is_at_end(&self) -> (b: bool)
        requires
            self.wf(),
        ensures
            b == !(self.current < self.chars.len()),
    {
        self.current >= self.chars.len()
    }

    /// Whether lexing has found anything wrong.
    pub fn has_error(&self) -> (b: bool)
        ensures
            b == (self.state().errors.len() > 0),
    {
        self.errors.len() > 0
    }

    /// The diagnostics of lexing, in the order in which they arose.
    pub fn errors(&self) -> (e: &Vec<CompilerError>)
        ensures
            errors_view(e@) == self.state().errors,
    {
        &self.errors
    }

    /// Hands the module back, with the tokens that were lexed.
    pub fn finish(self) -> (m: Module)
        ensures
            tokens_view(m.tokens@) == self.state().tokens,
            m.same_but_tokens(self.module()),
    {
        let mut m = self.parent_module;
        m.tokens = self.tokens;
        m
    }
}

} // verus!
