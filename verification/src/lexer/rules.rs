//! What lexing a source text gives, as mathematics: a state that one step
//! after the other carries from the first character to the last.

use vstd::prelude::*;
use crate::error::{CompilerErrorView, ErrorKind, diagnostic};
use crate::lexer::token::TokenView;
use crate::lexer::token_kind::TokenKind;
use crate::text::is_digit;

verus! {

/// Whether a character has the Unicode property `XID_Start`.
pub uninterp spec fn xid_start(c: char) -> bool;

/// Whether a character has the Unicode property `XID_Continue`.
pub uninterp spec fn xid_continue(c: char) -> bool;

/// Whether a character has the Unicode property `White_Space`.
pub uninterp spec fn white_space(c: char) -> bool;

/// `unicode_ident::is_xid_start` looks the property `XID_Start` up in the
/// crate's tables: its answer depends on the character alone.
pub assume_specification[ unicode_ident::is_xid_start ](ch: char) -> (b: bool)
    ensures
        b == xid_start(ch),
;

/// `unicode_ident::is_xid_continue` looks the property `XID_Continue` up in
/// the crate's tables: its answer depends on the character alone.
pub assume_specification[ unicode_ident::is_xid_continue ](ch: char) -> (b: bool)
    ensures
        b == xid_continue(ch),
;

/// `char::is_whitespace` tells whether the character has the Unicode
/// property `White_Space`.
pub assume_specification[ char::is_whitespace ](c: char) -> (b: bool)
    ensures
        b == white_space(c),
;

/// The kinds of run that the lexer passes over in one go.
#[derive(Debug, Clone, Copy, PartialEq, Eq, Structural)]
pub enum CharClass {
    /// What may follow the first character of an identifier.
    IdentContinue,
    /// Digits and the underscores between them.
    NumberPart,
    /// White space other than the newline.
    Blank,
    /// What a comment holds: anything up to the newline.
    CommentBody,
}

pub open spec fn in_class(c: char, class: CharClass) -> bool {
    match class {
        CharClass::IdentContinue => xid_continue(c),
        CharClass::NumberPart => is_digit(c) || c == '_',
        CharClass::Blank => white_space(c) && c != '\n',
        CharClass::CommentBody => c != '\n',
    }
}

/// The first position from `pos` on whose character is not in `class`, or
/// the end of the source.
pub open spec fn run_end(src: Seq<char>, pos: int, class: CharClass) -> int
    decreases src.len() - pos,
{
    if 0 <= pos < src.len() && in_class(src[pos], class) {
        run_end(src, pos + 1, class)
    } else {
        pos
    }
}

/// The character at `pos`, if the source has one there.
pub open spec fn at(src: Seq<char>, pos: int) -> Option<char> {
    if 0 <= pos < src.len() {
        Some(src[pos])
    } else {
        None
    }
}

/// The next number.
pub open spec fn succ(n: usize) -> usize {
    (n + 1) as usize
}

/// The kind of a keyword, where `lexeme` is one.
pub open spec fn keyword_kind(lexeme: Seq<char>) -> Option<TokenKind> {
    if lexeme == "paraan"@ {
        Some(TokenKind::Paraan)
    } else if lexeme == "ang"@ {
        Some(TokenKind::Ang)
    } else if lexeme == "maiba"@ {
        Some(TokenKind::Maiba)
    } else if lexeme == "ibalik"@ {
        Some(TokenKind::Ibalik)
    } else if lexeme == "bagay"@ {
        Some(TokenKind::Bagay)
    } else if lexeme == "itupad"@ {
        Some(TokenKind::Itupad)
    } else if lexeme == "kung"@ {
        Some(TokenKind::Kung)
    } else if lexeme == "kungdi"@ {
        Some(TokenKind::KungDi)
    } else if lexeme == "kungwala"@ {
        Some(TokenKind::KungWala)
    } else if lexeme == "sa"@ {
        Some(TokenKind::Sa)
    } else {
        None
    }
}

/// `s` without its underscores.
pub open spec fn without_underscores(s: Seq<char>) -> Seq<char>
    decreases s.len(),
{
    if s.len() == 0 {
        Seq::empty()
    } else if s.last() == '_' {
        without_underscores(s.drop_last())
    } else {
        without_underscores(s.drop_last()).push(s.last())
    }
}

/// The character that an escape stands for, given the one after the backslash.
pub open spec fn unescape(c: char) -> char {
    if c == 'n' {
        '\n'
    } else if c == 't' {
        '\t'
    } else if c == 'r' {
        '\r'
    } else {
        c
    }
}

/// Whether a newline after a token of this kind ends a statement.
pub open spec fn ends_statement(kind: TokenKind) -> bool {
    kind == TokenKind::Identifier || kind == TokenKind::RightParen || kind
        == TokenKind::RightBracket || kind == TokenKind::IntLit || kind == TokenKind::FloatLit
        || kind == TokenKind::StringLit || kind == TokenKind::ByteStringLit
}

/// How far lexing has come.
pub struct LexState {
    /// The position of the next character.
    pub pos: int,
    pub line: usize,
    pub column: usize,
    /// The column at which the current lexeme started.
    pub start_column: usize,
    pub tokens: Seq<TokenView>,
    pub errors: Seq<CompilerErrorView>,
}

impl LexState {
    /// Before the first character.
    pub open spec fn initial() -> LexState {
        LexState {
            pos: 0,
            line: 1,
            column: 1,
            start_column: 1,
            tokens: Seq::empty(),
            errors: Seq::empty(),
        }
    }

    /// After one more character of the current line.
    pub open spec fn advance(self) -> LexState {
        LexState { pos: self.pos + 1, column: succ(self.column), ..self }
    }

    /// After every character up to `end`, all of the current line.
    pub open spec fn moved_to(self, end: int) -> LexState {
        LexState { pos: end, column: (self.column + (end - self.pos)) as usize, ..self }
    }

    /// With one more token, which starts where the current lexeme started.
    pub open spec fn add(self, kind: TokenKind, lexeme: Seq<char>) -> LexState {
        LexState {
            tokens: self.tokens.push(
                TokenView { lexeme, kind, line: self.line, column: self.start_column },
            ),
            ..self
        }
    }

    /// With one more token whose lexeme is the source from `start` to here.
    pub open spec fn add_span(self, src: Seq<char>, start: int, kind: TokenKind) -> LexState {
        self.add(kind, src.subrange(start, self.pos))
    }

    /// With one more diagnostic.
    pub open spec fn fail(self, e: CompilerErrorView) -> LexState {
        LexState { errors: self.errors.push(e), ..self }
    }

    /// The token of an operator of one character, or of two where `second`
    /// follows.
    pub open spec fn operator(
        self,
        src: Seq<char>,
        start: int,
        second: char,
        long: TokenKind,
        short: TokenKind,
    ) -> LexState {
        if at(src, self.pos) == Some(second) {
            self.advance().add_span(src, start, long)
        } else {
            self.add_span(src, start, short)
        }
    }

    /// At a newline: where the last token can end a statement, a `;` is put
    /// in, one column after the newline.
    pub open spec fn infer_semicolon(self) -> LexState {
        if self.tokens.len() > 0 && ends_statement(self.tokens.last().kind) {
            LexState { start_column: succ(self.start_column), ..self }.add(
                TokenKind::SemiColon,
                ";"@,
            )
        } else {
            self
        }
    }

    /// After an identifier or keyword that started at `start`.
    pub open spec fn identifier(self, src: Seq<char>, start: int) -> LexState {
        let end = run_end(src, self.pos, CharClass::IdentContinue);
        let lexeme = src.subrange(start, end);
        let kind = match keyword_kind(lexeme) {
            Some(k) => k,
            None => TokenKind::Identifier,
        };
        self.moved_to(end).add(kind, lexeme)
    }

    /// After a number that started at `start`. A `.` belongs to it only
    /// where a digit follows.
    pub open spec fn number(self, src: Seq<char>, start: int) -> LexState {
        let whole_end = run_end(src, self.pos, CharClass::NumberPart);
        let is_float = at(src, whole_end) == Some('.') && at(src, whole_end + 1) is Some
            && is_digit(at(src, whole_end + 1).unwrap());
        let end = if is_float {
            run_end(src, whole_end + 1, CharClass::NumberPart)
        } else {
            whole_end
        };
        let kind = if is_float {
            TokenKind::FloatLit
        } else {
            TokenKind::IntLit
        };
        self.moved_to(end).add(kind, without_underscores(src.subrange(start, end)))
    }

    /// After a string literal whose opening quote has been passed.
    pub open spec fn string(self, src: Seq<char>, kind: TokenKind) -> LexState {
        let scan = scan_string(src, self.pos, self.line, self.column, Seq::empty());
        let after = LexState { pos: scan.pos, line: scan.line, column: scan.column, ..self };
        if scan.closed {
            after.add(kind, scan.value)
        } else if scan.dangling {
            after.fail(
                diagnostic(
                    "Ang sinulid ay hindi isinara"@,
                    ErrorKind::Error,
                    scan.line,
                    self.start_column,
                ).with_help("Subukan mog maglagay ng `\"` sa huli"@),
            )
        } else {
            after.fail(
                diagnostic(
                    "Ang sinulid ay hindi isinara"@,
                    ErrorKind::Error,
                    scan.line,
                    self.start_column,
                ),
            )
        }
    }
}

/// Where the body of a string literal ends, and what it holds.
pub struct StringScan {
    pub pos: int,
    pub line: usize,
    pub column: usize,
    /// The characters of the string, escapes decoded.
    pub value: Seq<char>,
    /// Whether the closing quote was found.
    pub closed: bool,
    /// Whether the source ended right after a backslash.
    pub dangling: bool,
}

pub open spec fn scan_string(
    src: Seq<char>,
    pos: int,
    line: usize,
    column: usize,
    value: Seq<char>,
) -> StringScan
    decreases src.len() - pos,
{
    if !(0 <= pos < src.len()) {
        StringScan { pos, line, column, value, closed: false, dangling: false }
    } else if src[pos] == '"' {
        StringScan { pos: pos + 1, line, column: succ(column), value, closed: true, dangling: false }
    } else if src[pos] == '\n' {
        scan_string(src, pos + 1, succ(line), 2, value.push('\n'))
    } else if src[pos] == '\\' {
        if pos + 1 < src.len() {
            scan_string(
                src,
                pos + 2,
                line,
                succ(succ(column)),
                value.push(unescape(src[pos + 1])),
            )
        } else {
            StringScan {
                pos: pos + 1,
                line,
                column: succ(column),
                value,
                closed: false,
                dangling: true,
            }
        }
    } else {
        scan_string(src, pos + 1, line, succ(column), value.push(src[pos]))
    }
}

/// The diagnostic for a character that starts no token.
pub open spec fn invalid_character(ch: char, line: usize, column: usize) -> CompilerErrorView {
    diagnostic("Hindi valid na karakter: `"@.push(ch) + "`"@, ErrorKind::Error, line, column)
        .with_note("Siguro ito ay hindi parte ng sintax ng Tol"@).with_help(
        "Subukan mo itong tanggalin"@,
    )
}

/// One step of lexing from a position inside the source: the next token, or
/// what is skipped, or a diagnostic.
pub open spec fn lex_step(src: Seq<char>, st: LexState) -> LexState {
    let ch = src[st.pos];
    let start = st.pos;
    let s = LexState { start_column: st.column, ..st }.advance();
    if ch == '(' {
        s.add_span(src, start, TokenKind::LeftParen)
    } else if ch == ')' {
        s.add_span(src, start, TokenKind::RightParen)
    } else if ch == '{' {
        s.add_span(src, start, TokenKind::LeftBrace)
    } else if ch == '}' {
        s.add_span(src, start, TokenKind::RightBrace)
    } else if ch == '[' {
        s.add_span(src, start, TokenKind::LeftBracket)
    } else if ch == ']' {
        s.add_span(src, start, TokenKind::RightBracket)
    } else if ch == ';' {
        s.add_span(src, start, TokenKind::SemiColon)
    } else if ch == ',' {
        s.add_span(src, start, TokenKind::Comma)
    } else if ch == '@' {
        s.add_span(src, start, TokenKind::At)
    } else if ch == '&' {
        s.add_span(src, start, TokenKind::Amper)
    } else if ch == '?' {
        s.add_span(src, start, TokenKind::Question)
    } else if ch == '.' {
        if at(src, s.pos) == Some('.') {
            s.advance().operator(src, start, '=', TokenKind::DotDotEqual, TokenKind::DotDot)
        } else {
            s.add_span(src, start, TokenKind::Dot)
        }
    } else if ch == ':' {
        s.operator(src, start, ':', TokenKind::ColonColon, TokenKind::Colon)
    } else if ch == '+' {
        s.operator(src, start, '=', TokenKind::PlusEqual, TokenKind::Plus)
    } else if ch == '-' {
        if at(src, s.pos) == Some('>') {
            s.advance().add_span(src, start, TokenKind::ThinArrow)
        } else {
            s.operator(src, start, '=', TokenKind::MinusEqual, TokenKind::Minus)
        }
    } else if ch == '*' {
        s.operator(src, start, '=', TokenKind::StarEqual, TokenKind::Star)
    } else if ch == '/' {
        if at(src, s.pos) == Some('/') {
            s.advance().moved_to(run_end(src, s.pos + 1, CharClass::CommentBody))
        } else {
            s.operator(src, start, '=', TokenKind::SlashEqual, TokenKind::Slash)
        }
    } else if ch == '%' {
        s.operator(src, start, '=', TokenKind::PercentEqual, TokenKind::Percent)
    } else if ch == '=' {
        if at(src, s.pos) == Some('>') {
            s.advance().add_span(src, start, TokenKind::ThickArrow)
        } else {
            s.operator(src, start, '=', TokenKind::EqualEqual, TokenKind::Equal)
        }
    } else if ch == '!' {
        s.operator(src, start, '=', TokenKind::BangEqual, TokenKind::Bang)
    } else if ch == '>' {
        s.operator(src, start, '=', TokenKind::GreaterEqual, TokenKind::Greater)
    } else if ch == '<' {
        s.operator(src, start, '=', TokenKind::LesserEqual, TokenKind::Lesser)
    } else if white_space(ch) && ch != '\n' {
        s.moved_to(run_end(src, s.pos, CharClass::Blank))
    } else if ch == '\n' {
        let t = s.infer_semicolon();
        LexState { line: succ(t.line), column: 1, ..t }
    } else if ch == '"' {
        s.string(src, TokenKind::StringLit)
    } else if ch == 'b' && at(src, s.pos) == Some('"') {
        s.advance().string(src, TokenKind::ByteStringLit)
    } else if ch == 'b' || xid_start(ch) {
        s.identifier(src, start)
    } else if is_digit(ch) {
        s.number(src, start)
    } else {
        s.fail(invalid_character(ch, s.line, s.start_column))
    }
}

/// Lexing from a state on, to the end of the source.
pub open spec fn lex_from(src: Seq<char>, st: LexState) -> LexState
    decreases src.len() - st.pos,
{
    if 0 <= st.pos < src.len() {
        proof {
            lemma_step_advances(src, st);
        }
        lex_from(src, lex_step(src, st))
    } else {
        st
    }
}

/// What lexing the whole source gives: its tokens, closed by the token that
/// marks the end, and the diagnostics.
pub open spec fn lexed(src: Seq<char>) -> LexState {
    lex_from(src, LexState::initial()).add(TokenKind::Eof, "Eof"@)
}

/// A run never ends before it starts nor after the source.
pub proof fn lemma_run_end_bounds(src: Seq<char>, pos: int, class: CharClass)
    requires
        0 <= pos <= src.len(),
    ensures
        pos <= run_end(src, pos, class) <= src.len(),
    decreases src.len() - pos,
{
    if pos < src.len() && in_class(src[pos], class) {
        lemma_run_end_bounds(src, pos + 1, class);
    }
}

/// The body of a string ends after where it starts, unless the source ends
/// there, and never after the source.
pub proof fn lemma_scan_string_bounds(
    src: Seq<char>,
    pos: int,
    line: usize,
    column: usize,
    value: Seq<char>,
)
    requires
        0 <= pos <= src.len(),
    ensures
        pos <= scan_string(src, pos, line, column, value).pos <= src.len(),
    decreases src.len() - pos,
{
    if pos < src.len() {
        if src[pos] == '"' {
        } else if src[pos] == '\n' {
            lemma_scan_string_bounds(src, pos + 1, succ(line), 2, value.push('\n'));
        } else if src[pos] == '\\' {
            if pos + 1 < src.len() {
                lemma_scan_string_bounds(
                    src,
                    pos + 2,
                    line,
                    succ(succ(column)),
                    value.push(unescape(src[pos + 1])),
                );
            }
        } else {
            lemma_scan_string_bounds(src, pos + 1, line, succ(column), value.push(src[pos]));
        }
    }
}

/// Every step passes at least one character and stays inside the source.
pub proof fn lemma_step_advances(src: Seq<char>, st: LexState)
    requires
        0 <= st.pos < src.len(),
    ensures
        st.pos < lex_step(src, st).pos <= src.len(),
{
    let s = LexState { start_column: st.column, ..st }.advance();
    lemma_run_end_bounds(src, s.pos, CharClass::IdentContinue);
    lemma_run_end_bounds(src, s.pos, CharClass::Blank);
    lemma_run_end_bounds(src, s.pos, CharClass::NumberPart);
    let whole_end = run_end(src, s.pos, CharClass::NumberPart);
    if whole_end + 1 <= src.len() {
        lemma_run_end_bounds(src, whole_end + 1, CharClass::NumberPart);
    }
    if s.pos + 1 <= src.len() {
        lemma_run_end_bounds(src, s.pos + 1, CharClass::CommentBody);
        lemma_scan_string_bounds(src, s.pos + 1, s.line, succ(s.column), Seq::empty());
    }
    lemma_scan_string_bounds(src, s.pos, s.line, s.column, Seq::empty());
}

/// Whether `after` holds the tokens of `before` and then only tokens that
/// do not mark the end of the source.
pub open spec fn extends_without_eof(before: Seq<TokenView>, after: Seq<TokenView>) -> bool {
    &&& before.len() <= after.len()
    &&& forall|i: int| 0 <= i < before.len() ==> after[i] == before[i]
    &&& forall|i: int| before.len() <= i < after.len() ==> (#[trigger] after[i]).kind != TokenKind::Eof
}

/// Whether `after` is `before`, or `before` with one more token that does
/// not mark the end of the source.
pub open spec fn one_more_at_most(before: Seq<TokenView>, after: Seq<TokenView>) -> bool {
    ||| after == before
    ||| after.len() == before.len() + 1 && after == before.push(after.last())
        && after.last().kind != TokenKind::Eof
}

/// A step of lexing leaves the tokens as they are or adds one, which is no
/// end marker.
pub proof fn lemma_step_adds_one_at_most(src: Seq<char>, st: LexState)
    requires
        0 <= st.pos < src.len(),
    ensures
        one_more_at_most(st.tokens, lex_step(src, st).tokens),
{
    let s = LexState { start_column: st.column, ..st }.advance();
    assert(one_more_at_most(st.tokens, s.identifier(src, st.pos).tokens));
    assert(one_more_at_most(st.tokens, s.number(src, st.pos).tokens));
    assert(one_more_at_most(st.tokens, s.string(src, TokenKind::StringLit).tokens));
    assert(one_more_at_most(st.tokens, s.advance().string(src, TokenKind::ByteStringLit).tokens));
    assert(one_more_at_most(st.tokens, s.infer_semicolon().tokens));
}

/// No step of lexing adds an end marker, nor changes a token that is there.
pub proof fn lemma_step_adds_no_eof(src: Seq<char>, st: LexState)
    requires
        0 <= st.pos < src.len(),
    ensures
        extends_without_eof(st.tokens, lex_step(src, st).tokens),
{
    lemma_step_adds_one_at_most(src, st);
}

/// Lexing on from a state adds no end marker, nor changes a token that is there.
pub proof fn lemma_lex_from_adds_no_eof(src: Seq<char>, st: LexState)
    ensures
        extends_without_eof(st.tokens, lex_from(src, st).tokens),
    decreases src.len() - st.pos,
{
    if 0 <= st.pos < src.len() {
        lemma_step_advances(src, st);
        lemma_step_adds_no_eof(src, st);
        lemma_lex_from_adds_no_eof(src, lex_step(src, st));
    }
}

/// The tokens of every source end with the end marker, and no token before
/// the last is one.
pub proof fn lemma_single_eof(src: Seq<char>)
    ensures
        lexed(src).tokens.len() > 0,
        lexed(src).tokens.last().kind == TokenKind::Eof,
        forall|i: int|
            0 <= i < lexed(src).tokens.len() - 1 ==> (#[trigger] lexed(src).tokens[i]).kind
                != TokenKind::Eof,
{
    lemma_lex_from_adds_no_eof(src, LexState::initial());
}

/// No step of lexing adds more than one token.
pub proof fn lemma_step_adds_one(src: Seq<char>, st: LexState)
    requires
        0 <= st.pos < src.len(),
    ensures
        lex_step(src, st).tokens.len() <= st.tokens.len() + 1,
{
    lemma_step_adds_one_at_most(src, st);
}

/// Lexing on from a state adds one token for each character that is left,
/// at most.
pub proof fn lemma_lex_from_token_count(src: Seq<char>, st: LexState)
    requires
        0 <= st.pos <= src.len(),
    ensures
        lex_from(src, st).tokens.len() <= st.tokens.len() + (src.len() - st.pos),
    decreases src.len() - st.pos,
{
    if st.pos < src.len() {
        lemma_step_advances(src, st);
        lemma_step_adds_one(src, st);
        lemma_lex_from_token_count(src, lex_step(src, st));
    }
}

/// A source has one token for each of its characters at most, and the end
/// marker.
pub proof fn lemma_token_count(src: Seq<char>)
    ensures
        lexed(src).tokens.len() <= src.len() + 1,
{
    lemma_lex_from_token_count(src, LexState::initial());
}

/// Whether `token` is what lexing makes of the characters `passed`: it
/// holds them as they are; or it is a number and holds them without their
/// underscores; or it is a string and they are the string with its quotes;
/// or it is the `;` that stands for a newline.
pub open spec fn spells(token: TokenView, passed: Seq<char>) -> bool {
    ||| token.lexeme == passed
    ||| (token.kind == TokenKind::IntLit || token.kind == TokenKind::FloatLit) && token.lexeme
        == without_underscores(passed)
    ||| token.kind == TokenKind::StringLit && passed.len() >= 2 && passed.first() == '"'
        && passed.last() == '"'
    ||| token.kind == TokenKind::ByteStringLit && passed.len() >= 3 && passed[0] == 'b'
        && passed[1] == '"' && passed.last() == '"'
    ||| token.kind == TokenKind::SemiColon && token.lexeme == ";"@ && passed == seq!['\n']
}

/// Whether a piece of source holds nothing for a token: white space, a
/// newline, or a comment.
pub open spec fn is_blank(piece: Seq<char>) -> bool {
    ||| piece == seq!['\n']
    ||| forall|i: int| 0 <= i < piece.len() ==> white_space(#[trigger] piece[i])
    ||| piece.len() >= 2 && piece[0] == '/' && piece[1] == '/' && forall|i: int|
        0 <= i < piece.len() ==> #[trigger] piece[i] != '\n'
}

/// The string that a scan closes ends with the closing quote.
pub proof fn lemma_scan_string_closes(
    src: Seq<char>,
    pos: int,
    line: usize,
    column: usize,
    value: Seq<char>,
)
    requires
        0 <= pos <= src.len(),
    ensures
        ({
            let scan = scan_string(src, pos, line, column, value);
            scan.closed ==> pos < scan.pos <= src.len() && src[scan.pos - 1] == '"'
        }),
    decreases src.len() - pos,
{
    if pos < src.len() {
        if src[pos] == '"' {
        } else if src[pos] == '\n' {
            lemma_scan_string_closes(src, pos + 1, succ(line), 2, value.push('\n'));
        } else if src[pos] == '\\' {
            if pos + 1 < src.len() {
                lemma_scan_string_closes(
                    src,
                    pos + 2,
                    line,
                    succ(succ(column)),
                    value.push(unescape(src[pos + 1])),
                );
            }
        } else {
            lemma_scan_string_closes(src, pos + 1, line, succ(column), value.push(src[pos]));
        }
    }
}

/// Every character of a run is in the class of the run.
pub proof fn lemma_run_is_in_class(src: Seq<char>, pos: int, class: CharClass, i: int)
    requires
        0 <= pos <= i < run_end(src, pos, class),
    ensures
        i < src.len(),
        in_class(src[i], class),
    decreases src.len() - pos,
{
    if 0 <= pos < src.len() && in_class(src[pos], class) {
        if i > pos {
            lemma_run_is_in_class(src, pos + 1, class, i);
        }
    }
}

/// A step of lexing adds one token at most, which spells the characters
/// that the step passed. Where it adds none, the characters hold nothing
/// for a token, or the step adds a diagnostic.
pub proof fn lemma_step_spells_the_source(src: Seq<char>, st: LexState)
    requires
        0 <= st.pos < src.len(),
    ensures
        ({
            let next = lex_step(src, st);
            let passed = src.subrange(st.pos, next.pos);
            &&& st.pos < next.pos <= src.len()
            &&& next.tokens.len() <= st.tokens.len() + 1
            &&& forall|i: int| 0 <= i < st.tokens.len() ==> next.tokens[i] == st.tokens[i]
            &&& next.tokens.len() == st.tokens.len() + 1 ==> spells(next.tokens.last(), passed)
            &&& next.tokens.len() == st.tokens.len() ==> is_blank(passed) || next.errors.len()
                == st.errors.len() + 1
        }),
{
    lemma_step_advances(src, st);
    let next = lex_step(src, st);
    let passed = src.subrange(st.pos, next.pos);
    let ch = src[st.pos];
    let s = LexState { start_column: st.column, ..st }.advance();
    lemma_scan_string_closes(src, s.pos, s.line, s.column, Seq::empty());
    if s.pos + 1 <= src.len() {
        lemma_scan_string_closes(src, s.pos + 1, s.line, succ(s.column), Seq::empty());
    }
    if ch == '\n' {
        assert(passed =~= seq!['\n']);
    }
    if next.tokens.len() == st.tokens.len() && next.errors.len() != st.errors.len() + 1 {
        if ch == '/' {
            lemma_run_end_bounds(src, s.pos + 1, CharClass::CommentBody);
            assert(passed[0] == '/' && passed[1] == '/');
            assert forall|i: int| 0 <= i < passed.len() implies #[trigger] passed[i] != '\n' by {
                if i >= 2 {
                    lemma_run_is_in_class(src, s.pos + 1, CharClass::CommentBody, st.pos + i);
                }
            }
        } else if ch != '\n' {
            assert forall|i: int| 0 <= i < passed.len() implies white_space(
                #[trigger] passed[i],
            ) by {
                if i >= 1 {
                    lemma_run_is_in_class(src, s.pos, CharClass::Blank, st.pos + i);
                }
            }
        } else {
            assert(passed =~= seq!['\n']);
        }
    }
}

/// Whether the source from `pos` on is, piece after piece, what the tokens
/// from `k` on spell, with pieces between them that hold nothing for a
/// token, and `faults` pieces that no token is made of.
pub open spec fn spelled(src: Seq<char>, pos: int, tokens: Seq<TokenView>, k: int, faults: int)
    -> bool
    decreases src.len() - pos,
{
    if pos >= src.len() {
        k == tokens.len() && faults == 0
    } else {
        exists|end: int|
            #![trigger src.subrange(pos, end)]
            pos < end <= src.len() && ({
                let piece = src.subrange(pos, end);
                ||| 0 <= k < tokens.len() && spells(tokens[k], piece) && spelled(
                    src,
                    end,
                    tokens,
                    k + 1,
                    faults,
                )
                ||| is_blank(piece) && spelled(src, end, tokens, k, faults)
                ||| faults > 0 && spelled(src, end, tokens, k, faults - 1)
            })
    }
}

/// A step of lexing adds a token or a diagnostic or neither, never both.
pub proof fn lemma_step_adds_token_or_fault(src: Seq<char>, st: LexState)
    requires
        0 <= st.pos < src.len(),
    ensures
        ({
            let next = lex_step(src, st);
            &&& forall|i: int| 0 <= i < st.errors.len() ==> next.errors[i] == st.errors[i]
            &&& next.errors.len() == st.errors.len() || (next.errors.len() == st.errors.len() + 1
                && next.tokens.len() == st.tokens.len())
        }),
{
}

/// Lexing on from a state keeps the diagnostics that are there.
pub proof fn lemma_lex_from_keeps_faults(src: Seq<char>, st: LexState)
    ensures
        st.errors.len() <= lex_from(src, st).errors.len(),
    decreases src.len() - st.pos,
{
    if 0 <= st.pos < src.len() {
        lemma_step_advances(src, st);
        lemma_step_adds_token_or_fault(src, st);
        lemma_lex_from_keeps_faults(src, lex_step(src, st));
    }
}

/// What lexing adds from a state on spells the source from there on.
pub proof fn lemma_lex_from_spells_the_source(src: Seq<char>, st: LexState)
    requires
        0 <= st.pos <= src.len(),
    ensures
        spelled(
            src,
            st.pos,
            lex_from(src, st).tokens,
            st.tokens.len() as int,
            lex_from(src, st).errors.len() - st.errors.len(),
        ),
    decreases src.len() - st.pos,
{
    if st.pos < src.len() {
        let next = lex_step(src, st);
        let last = lex_from(src, st);
        lemma_step_spells_the_source(src, st);
        lemma_step_adds_token_or_fault(src, st);
        lemma_lex_from_adds_no_eof(src, next);
        lemma_lex_from_keeps_faults(src, next);
        lemma_lex_from_spells_the_source(src, next);
        let piece = src.subrange(st.pos, next.pos);
        let k = st.tokens.len() as int;
        let faults = last.errors.len() - st.errors.len();
        if next.tokens.len() == st.tokens.len() + 1 {
            assert(last.tokens[k] == next.tokens[k]);
            assert(spells(last.tokens[k], piece));
            assert(spelled(src, next.pos, last.tokens, k + 1, faults));
        } else if next.errors.len() == st.errors.len() + 1 {
            assert(spelled(src, next.pos, last.tokens, k, faults - 1));
        } else {
            assert(is_blank(piece));
            assert(spelled(src, next.pos, last.tokens, k, faults));
        }
    }
}

/// The tokens of a source spell it: the source is, piece after piece, what
/// its tokens before the end marker spell, with white space, newlines and
/// comments between them, and one piece for each diagnostic. A token
/// spells a piece that it holds as it is, but for a number, which holds it
/// without underscores, a string, whose piece is the string with its
/// quotes, and a `;` that stands for a newline.
pub proof fn lemma_tokens_spell_the_source(src: Seq<char>)
    ensures
        spelled(src, 0, lexed(src).tokens.drop_last(), 0, lexed(src).errors.len() as int),
{
    let last = lex_from(src, LexState::initial());
    lemma_lex_from_spells_the_source(src, LexState::initial());
    assert(lexed(src).tokens.drop_last() =~= last.tokens);
}

} // verus!
