//! What parsing gives, as mathematics. Every rule takes the tokens and a
//! state, and gives what it parsed, or the diagnostic, with the state after.

use vstd::prelude::*;
use crate::error::{CompilerErrorView, ErrorKind, diagnostic};
use crate::lexer::rules::succ;
use crate::lexer::token::TokenView;
use crate::lexer::token_kind::TokenKind;
use crate::text::parse_usize_spec;
use crate::toltype::TolTypeView;

verus! {

/// How far parsing has come.
pub struct PState {
    /// The position of the next token.
    pub pos: int,
    /// The id that the next node gets.
    pub next_id: usize,
    /// The diagnostics so far.
    pub errors: Seq<CompilerErrorView>,
}

/// What a rule gives: its result and the state after it.
pub struct Parsed<T> {
    pub result: Result<T, CompilerErrorView>,
    pub state: PState,
}

pub open spec fn ok<T>(value: T, state: PState) -> Parsed<T> {
    Parsed { result: Ok(value), state }
}

pub open spec fn fail<T>(e: CompilerErrorView, state: PState) -> Parsed<T> {
    Parsed { result: Err(e), state }
}

/// A name with its type, as parameters and fields are written.
pub type TypedName = (TokenView, TolTypeView);

impl PState {
    pub open spec fn start() -> PState {
        PState { pos: 0, next_id: 0, errors: Seq::empty() }
    }

    /// Whether only the last token is left, which closes the stream and is
    /// never passed.
    pub open spec fn at_end(self, toks: Seq<TokenView>) -> bool {
        self.pos + 1 >= toks.len()
    }

    /// The next token.
    pub open spec fn peek(self, toks: Seq<TokenView>) -> TokenView {
        toks[self.pos]
    }

    /// The kind of the next token. The token that closes the stream counts
    /// as the end marker.
    pub open spec fn kind(self, toks: Seq<TokenView>) -> TokenKind {
        if self.at_end(toks) {
            TokenKind::Eof
        } else {
            toks[self.pos].kind
        }
    }

    /// How many tokens can still be passed.
    pub open spec fn remaining(self, toks: Seq<TokenView>) -> nat {
        if self.pos + 1 < toks.len() {
            (toks.len() - 1 - self.pos) as nat
        } else {
            0
        }
    }

    /// After the next token, unless it is the last.
    pub open spec fn advance(self, toks: Seq<TokenView>) -> PState {
        if self.at_end(toks) {
            self
        } else {
            PState { pos: self.pos + 1, ..self }
        }
    }

    /// After one id has been given out.
    pub open spec fn fresh(self) -> PState {
        PState { next_id: succ(self.next_id), ..self }
    }

    /// With one more diagnostic.
    pub open spec fn report(self, e: CompilerErrorView) -> PState {
        PState { errors: self.errors.push(e), ..self }
    }

    /// The diagnostic that names what was expected and the lexeme found.
    pub open spec fn expect_err(self, toks: Seq<TokenView>, expected: Seq<char>)
        -> CompilerErrorView {
        diagnostic(
            "Umasa ng "@ + expected + " pero nakita ay "@ + self.peek(toks).lexeme,
            ErrorKind::Error,
            self.peek(toks).line,
            self.peek(toks).column,
        )
    }

    /// Passes the next token where it is of the given kind, and fails with
    /// `err` where it is not.
    pub open spec fn consume(self, toks: Seq<TokenView>, kind: TokenKind, err: CompilerErrorView)
        -> Parsed<TokenView> {
        if self.kind(toks) == kind && !self.at_end(toks) {
            ok(self.peek(toks), self.advance(toks))
        } else {
            fail(err, self)
        }
    }

    /// Passes the next token where it is of the given kind, and fails with
    /// the diagnostic that names `expected` where it is not.
    pub open spec fn expect(self, toks: Seq<TokenView>, kind: TokenKind, expected: Seq<char>)
        -> Parsed<TokenView> {
        self.consume(toks, kind, self.expect_err(toks, expected))
    }

    /// Whether the next token is the word `ako`.
    pub open spec fn next_is_ako(self, toks: Seq<TokenView>) -> bool {
        !self.at_end(toks) && self.peek(toks).lexeme == "ako"@
    }
}

/// Whether a statement can start with a token of this kind: where recovery
/// from an error stops.
pub open spec fn starts_statement(kind: TokenKind) -> bool {
    kind == TokenKind::Paraan || kind == TokenKind::Ang || kind == TokenKind::Ibalik || kind
        == TokenKind::Bagay || kind == TokenKind::Kung || kind == TokenKind::At || kind
        == TokenKind::Itupad || kind == TokenKind::Sa
}

/// Skips tokens up to the next one that starts a statement or is one of
/// `ends`.
pub open spec fn synchronize_until(toks: Seq<TokenView>, st: PState, ends: Seq<TokenKind>)
    -> PState
    decreases st.remaining(toks),
{
    if st.at_end(toks) || ends.contains(st.kind(toks)) || starts_statement(st.kind(toks)) {
        st
    } else {
        synchronize_until(toks, st.advance(toks), ends)
    }
}

/// Skips tokens up to the next one that starts a statement or follows a `;`
/// or a `}`.
pub open spec fn sync_loop(toks: Seq<TokenView>, st: PState) -> PState
    decreases st.remaining(toks),
{
    if st.at_end(toks) || st.pos < 1 || toks[st.pos - 1].kind == TokenKind::SemiColon || toks[st.pos
        - 1].kind == TokenKind::RightBrace || starts_statement(st.kind(toks)) {
        st
    } else {
        sync_loop(toks, st.advance(toks))
    }
}

/// Recovery after a statement that failed: at least one token is skipped,
/// then all up to where a statement may start.
pub open spec fn synchronize(toks: Seq<TokenView>, st: PState) -> PState {
    if st.at_end(toks) {
        st
    } else {
        sync_loop(toks, st.advance(toks))
    }
}

/// The primitive type that a word names.
pub open spec fn primitive_type(word: Seq<char>) -> Option<TolTypeView> {
    if word == "i8"@ {
        Some(TolTypeView::I8)
    } else if word == "i16"@ {
        Some(TolTypeView::I16)
    } else if word == "i32"@ {
        Some(TolTypeView::I32)
    } else if word == "i64"@ {
        Some(TolTypeView::I64)
    } else if word == "isukat"@ {
        Some(TolTypeView::ISukat)
    } else if word == "u8"@ {
        Some(TolTypeView::U8)
    } else if word == "u16"@ {
        Some(TolTypeView::U16)
    } else if word == "u32"@ {
        Some(TolTypeView::U32)
    } else if word == "u64"@ {
        Some(TolTypeView::U64)
    } else if word == "usukat"@ {
        Some(TolTypeView::USukat)
    } else if word == "lutang"@ {
        Some(TolTypeView::Lutang)
    } else if word == "dobletang"@ {
        Some(TolTypeView::DobleTang)
    } else if word == "bool"@ {
        Some(TolTypeView::Bool)
    } else if word == "kar"@ {
        Some(TolTypeView::Kar)
    } else if word == "wala"@ {
        Some(TolTypeView::Wala)
    } else {
        None
    }
}

/// The diagnostic for an array length that is no `usukat`.
pub open spec fn bad_length(tok: TokenView) -> CompilerErrorView {
    diagnostic("Nabigong gawing `usukat` ang "@ + tok.lexeme, ErrorKind::Error, tok.line, tok.column)
        .with_note("Siguraduhing hindi ito negatibong numero"@)
}

/// The length between the brackets of an array type, if one is written.
pub open spec fn parse_array_length(toks: Seq<TokenView>, st: PState) -> Parsed<Option<usize>> {
    if st.kind(toks) == TokenKind::RightBracket {
        ok(None, st)
    } else {
        let lit = st.consume(
            toks,
            TokenKind::IntLit,
            st.expect_err(toks, "literal na integer"@).with_note(
                "Literal na integer lang ang pwede sa loob ng []"@,
            ),
        );
        match lit.result {
            Err(e) => fail(e, lit.state),
            Ok(tok) => match parse_usize_spec(tok.lexeme) {
                Some(n) => ok(Some(n), lit.state),
                None => fail(bad_length(tok), lit.state),
            },
        }
    }
}

/// A type: the name of a primitive, `[N] T` or `[] T`, `*T` or `*maiba T`,
/// or any other word, which names a type that is declared elsewhere.
pub open spec fn parse_type(toks: Seq<TokenView>, st: PState) -> Parsed<TolTypeView>
    decreases st.remaining(toks),
{
    if st.at_end(toks) {
        fail(st.expect_err(toks, "tipo"@), st)
    } else {
        let word = st.peek(toks).lexeme;
        let after = st.advance(toks);
        if primitive_type(word) is Some {
            ok(primitive_type(word).unwrap(), after)
        } else if word == "["@ {
            let len = parse_array_length(toks, after);
            match len.result {
                Err(e) => fail(e, len.state),
                Ok(n) => {
                    let close = len.state.expect(toks, TokenKind::RightBracket, "`]`"@);
                    match close.result {
                        Err(e) => fail(e, close.state),
                        Ok(_) => {
                            let elem = parse_type(toks, close.state);
                            match elem.result {
                                Err(e) => fail(e, elem.state),
                                Ok(t) => ok(TolTypeView::Array(Box::new(t), n), elem.state),
                            }
                        },
                    }
                },
            }
        } else if word == "*"@ {
            if after.kind(toks) == TokenKind::Maiba {
                let target = parse_type(toks, after.advance(toks));
                match target.result {
                    Err(e) => fail(e, target.state),
                    Ok(t) => ok(TolTypeView::MutablePointer(Box::new(t)), target.state),
                }
            } else {
                let target = parse_type(toks, after);
                match target.result {
                    Err(e) => fail(e, target.state),
                    Ok(t) => ok(TolTypeView::Pointer(Box::new(t)), target.state),
                }
            }
        } else {
            ok(TolTypeView::UnknownIdentifier(word), after)
        }
    }
}

/// A type gives back a state at or after the one it started from, with the
/// same ids and diagnostics; where it succeeds, it has passed a token.
pub proof fn lemma_parse_type_bounds(toks: Seq<TokenView>, st: PState)
    ensures
        st.pos <= parse_type(toks, st).state.pos,
        st.pos < toks.len() ==> parse_type(toks, st).state.pos < toks.len(),
        parse_type(toks, st).result is Ok ==> st.pos < parse_type(toks, st).state.pos,
        parse_type(toks, st).state.next_id == st.next_id,
        parse_type(toks, st).state.errors == st.errors,
    decreases st.remaining(toks),
{
    if !st.at_end(toks) {
        let word = st.peek(toks).lexeme;
        let after = st.advance(toks);
        if primitive_type(word) is Some {
        } else if word == "["@ {
            let len = parse_array_length(toks, after);
            if len.result is Ok {
                let close = len.state.expect(toks, TokenKind::RightBracket, "`]`"@);
                if close.result is Ok {
                    lemma_parse_type_bounds(toks, close.state);
                }
            }
        } else if word == "*"@ {
            if after.kind(toks) == TokenKind::Maiba {
                lemma_parse_type_bounds(toks, after.advance(toks));
            } else {
                lemma_parse_type_bounds(toks, after);
            }
        }
    }
}

/// The diagnostic for a parameter list that goes on with neither `,` nor `)`.
pub open spec fn unclosed_params(tok: TokenView) -> CompilerErrorView {
    diagnostic(
        "Hindi naisarado ang `(` o hindi mo nilagyan ng `,`"@,
        ErrorKind::Error,
        tok.line,
        tok.column,
    ).with_note(
        "Ang `)` ay ginagamit sa pagsarado ng mga parameter, ang `,` naman ay ginagamit para ihiwalay ang mga parameter"@,
    )
}

/// The diagnostic for a field list that goes on with neither `,` nor `}`.
pub open spec fn unclosed_fields(tok: TokenView) -> CompilerErrorView {
    diagnostic(
        "Umaaasa ng `,` o `}` pero nakita ay `"@ + tok.lexeme + "`"@,
        ErrorKind::Error,
        tok.line,
        tok.column,
    )
}

/// One `name: type` of a list that `close` ends, with the `,` after it
/// where there is one. `colon_err` is the diagnostic for a missing `:`, and
/// `unclosed` the one for what is neither `,` nor `close`.
pub open spec fn parse_typed_name(
    toks: Seq<TokenView>,
    st: PState,
    close: TokenKind,
    colon_err: CompilerErrorView,
    unclosed: CompilerErrorView,
) -> Parsed<TypedName> {
    let name = st.expect(toks, TokenKind::Identifier, "pangalan"@);
    match name.result {
        Err(e) => fail(e, name.state),
        Ok(tok) => {
            let colon = name.state.consume(toks, TokenKind::Colon, colon_err);
            match colon.result {
                Err(e) => fail(e, colon.state),
                Ok(_) => {
                    let ty = parse_type(toks, colon.state);
                    match ty.result {
                        Err(e) => fail(e, ty.state),
                        Ok(t) => if ty.state.kind(toks) == TokenKind::Comma {
                            ok((tok, t), ty.state.advance(toks))
                        } else if ty.state.kind(toks) != close {
                            fail(unclosed, ty.state)
                        } else {
                            ok((tok, t), ty.state)
                        },
                    }
                },
            }
        },
    }
}

/// The diagnostic for a parameter without `:`.
pub open spec fn param_colon_err(toks: Seq<TokenView>, st: PState) -> CompilerErrorView {
    st.expect_err(toks, "`:`"@).with_help("Lagyan mo ng `:` dito"@).with_note(
        "Ang `:` ay ginagamit sa pag hiwalay ng tipo sa maiiba"@,
    )
}

/// One parameter.
pub open spec fn parse_param(toks: Seq<TokenView>, st: PState) -> Parsed<TypedName> {
    let after_name = st.expect(toks, TokenKind::Identifier, "pangalan"@).state;
    let after_type = parse_type(toks, after_name.advance(toks)).state;
    parse_typed_name(
        toks,
        st,
        TokenKind::RightParen,
        param_colon_err(toks, after_name),
        unclosed_params(after_type.peek(toks)),
    )
}

/// One field of a record.
pub open spec fn parse_field(toks: Seq<TokenView>, st: PState) -> Parsed<TypedName> {
    let after_name = st.expect(toks, TokenKind::Identifier, "pangalan"@).state;
    let after_type = parse_type(toks, after_name.advance(toks)).state;
    parse_typed_name(
        toks,
        st,
        TokenKind::RightBrace,
        after_name.expect_err(toks, "`:`"@),
        unclosed_fields(after_type.peek(toks)),
    )
}

pub proof fn lemma_parse_typed_name_bounds(
    toks: Seq<TokenView>,
    st: PState,
    close: TokenKind,
    colon_err: CompilerErrorView,
    unclosed: CompilerErrorView,
)
    ensures
        ({
            let r = parse_typed_name(toks, st, close, colon_err, unclosed);
            &&& st.pos <= r.state.pos
            &&& st.pos < toks.len() ==> r.state.pos < toks.len()
            &&& r.result is Ok ==> st.pos + 2 < r.state.pos
            &&& r.state.next_id == st.next_id
            &&& r.state.errors == st.errors
        }),
{
    let name = st.expect(toks, TokenKind::Identifier, "pangalan"@);
    if name.result is Ok {
        let colon = name.state.consume(toks, TokenKind::Colon, colon_err);
        if colon.result is Ok {
            lemma_parse_type_bounds(toks, colon.state);
        }
    }
}

/// The parameters up to the `)`, which is not passed.
pub open spec fn params_loop(toks: Seq<TokenView>, st: PState, acc: Seq<TypedName>) -> Parsed<
    Seq<TypedName>,
>
    decreases st.remaining(toks),
{
    if st.kind(toks) == TokenKind::RightParen || !(0 <= st.pos < toks.len()) {
        ok(acc, st)
    } else {
        let p = parse_param(toks, st);
        proof {
            let after_name = st.expect(toks, TokenKind::Identifier, "pangalan"@).state;
            let after_type = parse_type(toks, after_name.advance(toks)).state;
            lemma_parse_typed_name_bounds(
                toks,
                st,
                TokenKind::RightParen,
                param_colon_err(toks, after_name),
                unclosed_params(after_type.peek(toks)),
            );
        }
        match p.result {
            Err(e) => fail(e, p.state),
            Ok(param) => params_loop(toks, p.state, acc.push(param)),
        }
    }
}

/// A parameter list, from after the `(` to before the `)`: `ako` may come
/// first, then `name: type` pairs with `,` between them.
pub open spec fn parse_params(toks: Seq<TokenView>, st: PState) -> Parsed<Seq<TypedName>> {
    let first: Seq<TypedName> = if st.next_is_ako(toks) {
        seq![(st.peek(toks), TolTypeView::AkoType)]
    } else {
        Seq::empty()
    };
    let after_ako = if st.next_is_ako(toks) {
        st.advance(toks)
    } else {
        st
    };
    let after_comma = if after_ako.kind(toks) == TokenKind::Comma {
        after_ako.advance(toks)
    } else {
        after_ako
    };
    params_loop(toks, after_comma, first)
}

/// The fields of a record up to the `}`, which is not passed.
pub open spec fn fields_loop(toks: Seq<TokenView>, st: PState, acc: Seq<TypedName>) -> Parsed<
    Seq<TypedName>,
>
    decreases st.remaining(toks),
{
    if st.kind(toks) == TokenKind::RightBrace || !(0 <= st.pos < toks.len()) {
        ok(acc, st)
    } else {
        let p = parse_field(toks, st);
        proof {
            let after_name = st.expect(toks, TokenKind::Identifier, "pangalan"@).state;
            let after_type = parse_type(toks, after_name.advance(toks)).state;
            lemma_parse_typed_name_bounds(
                toks,
                st,
                TokenKind::RightBrace,
                after_name.expect_err(toks, "`:`"@),
                unclosed_fields(after_type.peek(toks)),
            );
        }
        match p.result {
            Err(e) => fail(e, p.state),
            Ok(field) => fields_loop(toks, p.state, acc.push(field)),
        }
    }
}

/// The fields of a record, braces included.
pub open spec fn parse_bagay_fields(toks: Seq<TokenView>, st: PState) -> Parsed<Seq<TypedName>> {
    let open = st.expect(toks, TokenKind::LeftBrace, "`{`"@);
    match open.result {
        Err(e) => fail(e, open.state),
        Ok(_) => {
            let fields = fields_loop(toks, open.state, Seq::empty());
            match fields.result {
                Err(e) => fail(e, fields.state),
                Ok(f) => ok(f, fields.state.advance(toks)),
            }
        },
    }
}

pub proof fn lemma_params_loop_bounds(toks: Seq<TokenView>, st: PState, acc: Seq<TypedName>)
    ensures
        ({
            let r = params_loop(toks, st, acc);
            &&& st.pos <= r.state.pos
            &&& st.pos < toks.len() ==> r.state.pos < toks.len()
            &&& r.state.next_id == st.next_id
            &&& r.state.errors == st.errors
        }),
    decreases st.remaining(toks),
{
    if st.kind(toks) == TokenKind::RightParen {
    } else {
        let p = parse_param(toks, st);
        let after_name = st.expect(toks, TokenKind::Identifier, "pangalan"@).state;
        let after_type = parse_type(toks, after_name.advance(toks)).state;
        lemma_parse_typed_name_bounds(
            toks,
            st,
            TokenKind::RightParen,
            param_colon_err(toks, after_name),
            unclosed_params(after_type.peek(toks)),
        );
        if p.result is Ok {
            lemma_params_loop_bounds(toks, p.state, acc.push(p.result->Ok_0));
        }
    }
}

pub proof fn lemma_parse_params_bounds(toks: Seq<TokenView>, st: PState)
    ensures
        ({
            let r = parse_params(toks, st);
            &&& st.pos <= r.state.pos
            &&& st.pos < toks.len() ==> r.state.pos < toks.len()
            &&& r.state.next_id == st.next_id
            &&& r.state.errors == st.errors
        }),
{
    let first: Seq<TypedName> = if st.next_is_ako(toks) {
        seq![(st.peek(toks), TolTypeView::AkoType)]
    } else {
        Seq::empty()
    };
    let after_ako = if st.next_is_ako(toks) {
        st.advance(toks)
    } else {
        st
    };
    let after_comma = if after_ako.kind(toks) == TokenKind::Comma {
        after_ako.advance(toks)
    } else {
        after_ako
    };
    lemma_params_loop_bounds(toks, after_comma, first);
}

/// The fields of a record move forward only: ids and diagnostics stay, and
/// the `{` has been passed where they succeeded.
pub proof fn lemma_parse_bagay_fields_bounds(toks: Seq<TokenView>, st: PState)
    ensures
        ({
            let r = parse_bagay_fields(toks, st);
            &&& st.pos <= r.state.pos
            &&& st.pos < toks.len() ==> r.state.pos < toks.len()
            &&& r.state.next_id == st.next_id
            &&& r.state.errors == st.errors
            &&& r.result is Ok ==> st.pos < r.state.pos
        }),
{
    let open = st.expect(toks, TokenKind::LeftBrace, "`{`"@);
    if open.result is Ok {
        lemma_fields_loop_bounds(toks, open.state, Seq::empty());
    }
}

pub proof fn lemma_fields_loop_bounds(toks: Seq<TokenView>, st: PState, acc: Seq<TypedName>)
    ensures
        ({
            let r = fields_loop(toks, st, acc);
            &&& st.pos <= r.state.pos
            &&& st.pos < toks.len() ==> r.state.pos < toks.len()
            &&& r.state.next_id == st.next_id
            &&& r.state.errors == st.errors
        }),
    decreases st.remaining(toks),
{
    if st.kind(toks) == TokenKind::RightBrace || !(0 <= st.pos < toks.len()) {
    } else {
        let p = parse_field(toks, st);
        let after_name = st.expect(toks, TokenKind::Identifier, "pangalan"@).state;
        let after_type = parse_type(toks, after_name.advance(toks)).state;
        lemma_parse_typed_name_bounds(
            toks,
            st,
            TokenKind::RightBrace,
            after_name.expect_err(toks, "`:`"@),
            unclosed_fields(after_type.peek(toks)),
        );
        if p.result is Ok {
            lemma_fields_loop_bounds(toks, p.state, acc.push(p.result->Ok_0));
        }
    }
}

/// Skipping up to where parsing can go on moves forward only, inside the
/// tokens.
pub proof fn lemma_synchronize_until_bounds(toks: Seq<TokenView>, st: PState, ends: Seq<TokenKind>)
    ensures
        ({
            let r = synchronize_until(toks, st, ends);
            &&& st.pos <= r.pos
            &&& st.pos < toks.len() ==> r.pos < toks.len()
            &&& r.next_id == st.next_id
            &&& r.errors == st.errors
        }),
    decreases st.remaining(toks),
{
    if st.at_end(toks) || ends.contains(st.kind(toks)) || starts_statement(st.kind(toks)) {
    } else {
        lemma_synchronize_until_bounds(toks, st.advance(toks), ends);
    }
}

/// Recovery after a statement that failed passes a token, unless only the
/// last is left, and stays inside the tokens.
pub proof fn lemma_synchronize_bounds(toks: Seq<TokenView>, st: PState)
    requires
        0 <= st.pos < toks.len(),
    ensures
        ({
            let r = synchronize(toks, st);
            &&& st.pos <= r.pos < toks.len()
            &&& !st.at_end(toks) ==> st.pos < r.pos
            &&& r.errors == st.errors
        }),
{
    if !st.at_end(toks) {
        lemma_sync_loop_bounds(toks, st.advance(toks));
    }
}

pub proof fn lemma_sync_loop_bounds(toks: Seq<TokenView>, st: PState)
    requires
        0 <= st.pos < toks.len(),
    ensures
        ({
            let r = sync_loop(toks, st);
            &&& st.pos <= r.pos < toks.len()
            &&& r.errors == st.errors
        }),
    decreases st.remaining(toks),
{
    if st.at_end(toks) || st.pos < 1 || toks[st.pos - 1].kind == TokenKind::SemiColon || toks[st.pos
        - 1].kind == TokenKind::RightBrace || starts_statement(st.kind(toks)) {
    } else {
        lemma_sync_loop_bounds(toks, st.advance(toks));
    }
}

} // verus!
