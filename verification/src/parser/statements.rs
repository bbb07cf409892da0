//! The rules for statements and declarations, and for a whole program.
//!
//! A rule that goes on after another one first makes sure that the other
//! has passed a token, so that the definitions are seen to end. The test
//! never fails: `lemma_parse_statement_advances` and the lemmas beside it show
//! that a rule that succeeds has passed one.

use vstd::prelude::*;
use crate::error::{CompilerErrorView, ErrorKind, diagnostic};
use crate::lexer::token::TokenView;
use crate::lexer::token_kind::TokenKind;
use crate::parser::ast::stmt::{KungBranchView, StmtView};
use crate::parser::expressions::{lemma_parse_expression_moves_on, parse_expression};
use crate::parser::grammar::{
    PState, Parsed, fail, lemma_parse_bagay_fields_bounds, lemma_parse_params_bounds,
    lemma_parse_type_bounds, lemma_synchronize_bounds, lemma_synchronize_until_bounds, ok,
    parse_bagay_fields, parse_params, parse_type, synchronize, synchronize_until,
};
use crate::toltype::TolTypeView;

verus! {

/// The diagnostic for a block that the source ends in.
pub open spec fn unclosed_brace(open: TokenView) -> CompilerErrorView {
    diagnostic("Hindi naisarado ang `{`"@, ErrorKind::Error, open.line, open.column)
}

/// The state from which parsing goes on after a statement of a block
/// failed: the diagnostic is kept, and tokens are skipped up to a `}` or to
/// where a statement may start. `from` is where the statement started, and
/// `failed` where it failed: at least one token is passed in all.
pub open spec fn recover(toks: Seq<TokenView>, from: int, failed: PState, e: CompilerErrorView)
    -> PState {
    let skipped = synchronize_until(toks, failed.report(e), seq![TokenKind::RightBrace]);
    if skipped.pos > from {
        skipped
    } else {
        PState { pos: from + 1, ..skipped }
    }
}

/// The return type that may stand between the parameters and the body:
/// `wala` where none is written. An arrow may come before it.
pub open spec fn parse_return_type(toks: Seq<TokenView>, st: PState) -> Parsed<TolTypeView> {
    let after_arrow = if st.kind(toks) == TokenKind::ThinArrow {
        st.advance(toks)
    } else {
        st
    };
    if after_arrow.kind(toks) != TokenKind::LeftBrace {
        parse_type(toks, after_arrow)
    } else {
        ok(TolTypeView::Wala, after_arrow)
    }
}

/// One statement, with the `;` where one has to end it.
pub open spec fn parse_statement(toks: Seq<TokenView>, st: PState) -> Parsed<StmtView>
    decreases st.remaining(toks), 10nat,
{
    let kind = st.kind(toks);
    if kind == TokenKind::Paraan {
        parse_par(toks, st)
    } else if kind == TokenKind::Bagay {
        parse_bagay(toks, st)
    } else if kind == TokenKind::Itupad {
        parse_itupad(toks, st)
    } else if kind == TokenKind::Kung {
        parse_kung(toks, st)
    } else if kind == TokenKind::Sa {
        parse_sa(toks, st)
    } else {
        let inner = if kind == TokenKind::Ang {
            parse_ang(toks, st)
        } else if kind == TokenKind::Ibalik {
            parse_ibalik(toks, st)
        } else {
            parse_expr_stmt(toks, st)
        };
        match inner.result {
            Err(e) => fail(e, inner.state),
            Ok(stmt) => {
                let semi = inner.state.expect(toks, TokenKind::SemiColon, "`;`"@);
                match semi.result {
                    Err(e) => fail(e, semi.state),
                    Ok(_) => ok(stmt, semi.state),
                }
            },
        }
    }
}

/// `paraan name(params) [type] { .. }`.
pub open spec fn parse_par(toks: Seq<TokenView>, st: PState) -> Parsed<StmtView>
    decreases st.remaining(toks), 5nat,
{
    let word = st.expect(toks, TokenKind::Paraan, "par"@);
    match word.result {
        Err(e) => fail(e, word.state),
        Ok(par_tok) => {
            let name = word.state.expect(toks, TokenKind::Identifier, "pangalan"@);
            match name.result {
                Err(e) => fail(e, name.state),
                Ok(par_identifier) => {
                    let open = name.state.consume(
                        toks,
                        TokenKind::LeftParen,
                        name.state.expect_err(toks, "`(`"@).with_help(
                            "Lagyan mo ng `(` dito para simulan ang pag deklara ng mga parameter"@,
                        ),
                    );
                    match open.result {
                        Err(e) => fail(e, open.state),
                        Ok(_) => {
                            let params = parse_params(toks, open.state);
                            match params.result {
                                Err(e) => fail(e, params.state),
                                Ok(ps) => {
                                    let close = params.state.consume(
                                        toks,
                                        TokenKind::RightParen,
                                        params.state.expect_err(toks, "`)`"@).with_help(
                                            "Lagyan mo ng `)` para tapusin ang listahan ng parameter"@,
                                        ),
                                    );
                                    match close.result {
                                        Err(e) => fail(e, close.state),
                                        Ok(_) => {
                                            let ret = parse_return_type(toks, close.state);
                                            proof {
                                                lemma_parse_params_bounds(toks, open.state);
                                                lemma_return_type_bounds(toks, close.state);
                                            }
                                            match ret.result {
                                                Err(e) => fail(e, ret.state),
                                                Ok(return_type) => {
                                                    let body = parse_block(toks, ret.state);
                                                    match body.result {
                                                        Err(e) => fail(e, body.state),
                                                        Ok(block) => ok(
                                                            StmtView::Par {
                                                                par_identifier,
                                                                params: ps,
                                                                return_type,
                                                                block: Box::new(block),
                                                                line: par_tok.line,
                                                                column: par_tok.column,
                                                                id: body.state.next_id,
                                                            },
                                                            body.state.fresh(),
                                                        ),
                                                    }
                                                },
                                            }
                                        },
                                    }
                                },
                            }
                        },
                    }
                },
            }
        },
    }
}

pub proof fn lemma_return_type_bounds(toks: Seq<TokenView>, st: PState)
    ensures
        st.pos <= parse_return_type(toks, st).state.pos,
        st.pos < toks.len() ==> parse_return_type(toks, st).state.pos < toks.len(),
        parse_return_type(toks, st).state.next_id == st.next_id,
        parse_return_type(toks, st).state.errors == st.errors,
{
    let after_arrow = if st.kind(toks) == TokenKind::ThinArrow {
        st.advance(toks)
    } else {
        st
    };
    lemma_parse_type_bounds(toks, after_arrow);
}

/// A method inside an `itupad` block. It is static unless its first
/// parameter is `ako`.
pub open spec fn parse_method(toks: Seq<TokenView>, st: PState) -> Parsed<StmtView>
    decreases st.remaining(toks), 5nat,
{
    let word = st.expect(toks, TokenKind::Paraan, "`paraan`"@);
    match word.result {
        Err(e) => fail(e, word.state),
        Ok(par_tok) => {
            let name = word.state.expect(toks, TokenKind::Identifier, "pangalan"@);
            match name.result {
                Err(e) => fail(e, name.state),
                Ok(met_identifier) => {
                    let open = name.state.expect(toks, TokenKind::LeftParen, "`(`"@);
                    match open.result {
                        Err(e) => fail(e, open.state),
                        Ok(_) => {
                            let is_static = !open.state.next_is_ako(toks);
                            let params = parse_params(toks, open.state);
                            match params.result {
                                Err(e) => fail(e, params.state),
                                Ok(ps) => {
                                    let ret = parse_return_type(toks, params.state.advance(toks));
                                    proof {
                                        lemma_parse_params_bounds(toks, open.state);
                                        lemma_return_type_bounds(toks, params.state.advance(toks));
                                    }
                                    match ret.result {
                                        Err(e) => fail(e, ret.state),
                                        Ok(return_type) => {
                                            let body = parse_block(toks, ret.state);
                                            match body.result {
                                                Err(e) => fail(e, body.state),
                                                Ok(block) => ok(
                                                    StmtView::Method {
                                                        is_static,
                                                        met_identifier,
                                                        params: ps,
                                                        return_type,
                                                        block: Box::new(block),
                                                        line: par_tok.line,
                                                        column: par_tok.column,
                                                        id: body.state.next_id,
                                                    },
                                                    body.state.fresh(),
                                                ),
                                            }
                                        },
                                    }
                                },
                            }
                        },
                    }
                },
            }
        },
    }
}

/// `{ statements }`. A statement that fails leaves its diagnostic, and
/// parsing goes on after it.
pub open spec fn parse_block(toks: Seq<TokenView>, st: PState) -> Parsed<StmtView>
    decreases st.remaining(toks), 5nat,
{
    let open = st.expect(toks, TokenKind::LeftBrace, "`{`"@);
    match open.result {
        Err(e) => fail(e, open.state),
        Ok(brace) => {
            let body = block_loop(toks, open.state, Seq::empty());
            if body.state.at_end(toks) {
                fail(unclosed_brace(brace), body.state)
            } else {
                let close = body.state.expect(toks, TokenKind::RightBrace, "`}`"@);
                match close.result {
                    Err(e) => fail(e, close.state),
                    Ok(_) => ok(
                        StmtView::Block {
                            statements: body.statements,
                            line: brace.line,
                            column: brace.column,
                            id: close.state.next_id,
                        },
                        close.state.fresh(),
                    ),
                }
            }
        },
    }
}

/// The statements of a body, with the state after them.
pub struct Body {
    pub statements: Seq<StmtView>,
    pub state: PState,
}

/// The statements of a block up to its `}` or the end of the tokens.
pub open spec fn block_loop(toks: Seq<TokenView>, st: PState, acc: Seq<StmtView>) -> Body
    decreases st.remaining(toks), 11nat,
{
    if st.at_end(toks) || st.kind(toks) == TokenKind::RightBrace {
        Body { statements: acc, state: st }
    } else {
        let s = parse_statement(toks, st);
        match s.result {
            Ok(stmt) => if s.state.pos > st.pos {
                block_loop(toks, s.state, acc.push(stmt))
            } else {
                Body { statements: acc.push(stmt), state: s.state }
            },
            Err(e) => block_loop(toks, recover(toks, st.pos, s.state, e), acc),
        }
    }
}

/// `ang [maiba] name [: type] = value`.
pub open spec fn parse_ang(toks: Seq<TokenView>, st: PState) -> Parsed<StmtView> {
    let word = st.consume(
        toks,
        TokenKind::Ang,
        st.expect_err(toks, "`ang`"@).with_note(
            "Ginamit ang `ang` para mag-deklara ng bagong pangalan"@,
        ),
    );
    match word.result {
        Err(e) => fail(e, word.state),
        Ok(ang_tok) => {
            let mutable = word.state.kind(toks) == TokenKind::Maiba;
            let after_maiba = if mutable {
                word.state.advance(toks)
            } else {
                word.state
            };
            let name = after_maiba.consume(
                toks,
                TokenKind::Identifier,
                after_maiba.expect_err(toks, "pangalan"@).with_note(
                    "Siguraduhing hindi keyword ang iyong nailagay"@,
                ),
            );
            match name.result {
                Err(e) => fail(e, name.state),
                Ok(ang_identifier) => {
                    let ty = if name.state.kind(toks) == TokenKind::Colon {
                        parse_type(toks, name.state.advance(toks))
                    } else {
                        ok(TolTypeView::Unknown, name.state)
                    };
                    match ty.result {
                        Err(e) => fail(e, ty.state),
                        Ok(ang_type) => {
                            let eq = ty.state.consume(
                                toks,
                                TokenKind::Equal,
                                diagnostic(
                                    "Ang `=` ang maaari dito"@,
                                    ErrorKind::Error,
                                    ty.state.peek(toks).line,
                                    ty.state.peek(toks).column,
                                ),
                            );
                            match eq.result {
                                Err(e) => fail(e, eq.state),
                                Ok(_) => {
                                    let value = parse_expression(toks, eq.state, 0);
                                    match value.result {
                                        Err(e) => fail(e, value.state),
                                        Ok(rhs) => ok(
                                            StmtView::Ang {
                                                mutable,
                                                ang_identifier,
                                                ang_type,
                                                rhs,
                                                line: ang_tok.line,
                                                column: ang_tok.column,
                                                id: value.state.next_id,
                                            },
                                            value.state.fresh(),
                                        ),
                                    }
                                },
                            }
                        },
                    }
                },
            }
        },
    }
}

/// `ibalik value`.
pub open spec fn parse_ibalik(toks: Seq<TokenView>, st: PState) -> Parsed<StmtView> {
    let word = st.expect(toks, TokenKind::Ibalik, "`ibalik`"@);
    match word.result {
        Err(e) => fail(e, word.state),
        Ok(ibalik_tok) => {
            let value = parse_expression(toks, word.state, 0);
            match value.result {
                Err(e) => fail(e, value.state),
                Ok(rhs) => ok(
                    StmtView::Ibalik {
                        rhs,
                        line: ibalik_tok.line,
                        column: ibalik_tok.column,
                        id: value.state.next_id,
                    },
                    value.state.fresh(),
                ),
            }
        },
    }
}

/// An expression that stands as a statement.
pub open spec fn parse_expr_stmt(toks: Seq<TokenView>, st: PState) -> Parsed<StmtView> {
    let start_tok = st.peek(toks);
    let value = parse_expression(toks, st, 0);
    match value.result {
        Err(e) => fail(e, value.state),
        Ok(expr) => ok(
            StmtView::ExprS {
                expr,
                line: start_tok.line,
                column: start_tok.column,
                id: value.state.next_id,
            },
            value.state.fresh(),
        ),
    }
}

/// `bagay Name { field: type, .. }`.
pub open spec fn parse_bagay(toks: Seq<TokenView>, st: PState) -> Parsed<StmtView> {
    let word = st.expect(toks, TokenKind::Bagay, "`bagay`"@);
    match word.result {
        Err(e) => fail(e, word.state),
        Ok(_) => {
            let name = word.state.expect(toks, TokenKind::Identifier, "pangalan"@);
            match name.result {
                Err(e) => fail(e, name.state),
                Ok(bagay_identifier) => {
                    let fields = parse_bagay_fields(toks, name.state);
                    match fields.result {
                        Err(e) => fail(e, fields.state),
                        Ok(f) => ok(
                            StmtView::Bagay {
                                bagay_identifier,
                                fields: f,
                                id: fields.state.next_id,
                            },
                            fields.state.fresh(),
                        ),
                    }
                },
            }
        },
    }
}

/// `itupad Type { methods }`.
pub open spec fn parse_itupad(toks: Seq<TokenView>, st: PState) -> Parsed<StmtView>
    decreases st.remaining(toks), 5nat,
{
    let word = st.expect(toks, TokenKind::Itupad, "`itupad`"@);
    match word.result {
        Err(e) => fail(e, word.state),
        Ok(itupad_tok) => {
            let ty = parse_type(toks, word.state);
            proof {
                lemma_parse_type_bounds(toks, word.state);
            }
            match ty.result {
                Err(e) => fail(e, ty.state),
                Ok(itupad_for) => {
                    let body = parse_itupad_block(toks, ty.state);
                    match body.result {
                        Err(e) => fail(e, body.state),
                        Ok(block) => ok(
                            StmtView::Itupad {
                                itupad_for,
                                itupad_block: Box::new(block),
                                line: itupad_tok.line,
                                column: itupad_tok.column,
                                id: body.state.next_id,
                            },
                            body.state.fresh(),
                        ),
                    }
                },
            }
        },
    }
}

/// `{ methods }`. A method that fails leaves its diagnostic, and parsing
/// goes on after it.
pub open spec fn parse_itupad_block(toks: Seq<TokenView>, st: PState) -> Parsed<StmtView>
    decreases st.remaining(toks), 5nat,
{
    let open = st.expect(toks, TokenKind::LeftBrace, "`{`"@);
    match open.result {
        Err(e) => fail(e, open.state),
        Ok(brace) => {
            let body = itupad_loop(toks, open.state, Seq::empty());
            if body.state.at_end(toks) {
                fail(unclosed_brace(brace), body.state)
            } else {
                let close = body.state.expect(toks, TokenKind::RightBrace, "`}`"@);
                match close.result {
                    Err(e) => fail(e, close.state),
                    Ok(_) => ok(
                        StmtView::ItupadBlock {
                            methods: body.statements,
                            line: brace.line,
                            column: brace.column,
                            id: close.state.next_id,
                        },
                        close.state.fresh(),
                    ),
                }
            }
        },
    }
}

/// The methods of an `itupad` block up to its `}` or the end of the tokens.
pub open spec fn itupad_loop(toks: Seq<TokenView>, st: PState, acc: Seq<StmtView>) -> Body
    decreases st.remaining(toks), 11nat,
{
    if st.at_end(toks) || st.kind(toks) == TokenKind::RightBrace {
        Body { statements: acc, state: st }
    } else {
        let m = parse_method(toks, st);
        match m.result {
            Ok(method) => if m.state.pos > st.pos {
                itupad_loop(toks, m.state, acc.push(method))
            } else {
                Body { statements: acc.push(method), state: m.state }
            },
            Err(e) => itupad_loop(toks, recover(toks, st.pos, m.state, e), acc),
        }
    }
}

/// `sa iterator => name { .. }`.
pub open spec fn parse_sa(toks: Seq<TokenView>, st: PState) -> Parsed<StmtView>
    decreases st.remaining(toks), 5nat,
{
    let word = st.expect(toks, TokenKind::Sa, "`sa`"@);
    match word.result {
        Err(e) => fail(e, word.state),
        Ok(sa_tok) => {
            let it = parse_expression(toks, word.state, 0);
            match it.result {
                Err(e) => fail(e, it.state),
                Ok(iterator) => {
                    let arrow = it.state.expect(toks, TokenKind::ThickArrow, "`=>`"@);
                    match arrow.result {
                        Err(e) => fail(e, arrow.state),
                        Ok(_) => {
                            let name = arrow.state.expect(toks, TokenKind::Identifier, "pangalan"@);
                            match name.result {
                                Err(e) => fail(e, name.state),
                                Ok(bind) => if name.state.pos > st.pos {
                                    let body = parse_block(toks, name.state);
                                    match body.result {
                                        Err(e) => fail(e, body.state),
                                        Ok(block) => ok(
                                            StmtView::Sa {
                                                iterator,
                                                bind,
                                                block: Box::new(block),
                                                line: sa_tok.line,
                                                column: sa_tok.column,
                                                id: body.state.next_id,
                                            },
                                            body.state.fresh(),
                                        ),
                                    }
                                } else {
                                    fail(name.state.expect_err(toks, "`{`"@), name.state)
                                },
                            }
                        },
                    }
                },
            }
        },
    }
}

/// One branch of a conditional: the condition, where `with_condition` says
/// that it has one, and the block.
pub open spec fn parse_branch(toks: Seq<TokenView>, st: PState, with_condition: bool) -> Parsed<
    KungBranchView,
>
    decreases st.remaining(toks), 6nat,
{
    if with_condition {
        let cond = parse_expression(toks, st, 0);
        match cond.result {
            Err(e) => fail(e, cond.state),
            Ok(c) => if cond.state.pos >= st.pos {
                let body = parse_block(toks, cond.state);
                match body.result {
                    Err(e) => fail(e, body.state),
                    Ok(block) => ok(KungBranchView { condition: Some(c), block }, body.state),
                }
            } else {
                fail(cond.state.expect_err(toks, "`{`"@), cond.state)
            },
        }
    } else {
        let body = parse_block(toks, st);
        match body.result {
            Err(e) => fail(e, body.state),
            Ok(block) => ok(KungBranchView { condition: None, block }, body.state),
        }
    }
}

/// The `kungdi` branches that follow, then the `kungwala` branch where
/// there is one.
pub open spec fn kung_loop(toks: Seq<TokenView>, st: PState, acc: Seq<KungBranchView>) -> Parsed<
    Seq<KungBranchView>,
>
    decreases st.remaining(toks), 11nat,
{
    if st.kind(toks) == TokenKind::KungDi {
        let b = parse_branch(toks, st.advance(toks), true);
        match b.result {
            Err(e) => fail(e, b.state),
            Ok(branch) => if b.state.pos > st.pos {
                kung_loop(toks, b.state, acc.push(branch))
            } else {
                ok(acc.push(branch), b.state)
            },
        }
    } else if st.kind(toks) == TokenKind::KungWala {
        let b = parse_branch(toks, st.advance(toks), false);
        match b.result {
            Err(e) => fail(e, b.state),
            Ok(branch) => ok(acc.push(branch), b.state),
        }
    } else {
        ok(acc, st)
    }
}

/// `kung condition { .. }`, with its `kungdi` and `kungwala` branches.
pub open spec fn parse_kung(toks: Seq<TokenView>, st: PState) -> Parsed<StmtView>
    decreases st.remaining(toks), 5nat,
{
    let word = st.expect(toks, TokenKind::Kung, "`kung`"@);
    match word.result {
        Err(e) => fail(e, word.state),
        Ok(kung_tok) => {
            let first = parse_branch(toks, word.state, true);
            match first.result {
                Err(e) => fail(e, first.state),
                Ok(branch) => if first.state.pos > st.pos {
                    let rest = kung_loop(toks, first.state, Seq::empty().push(branch));
                    match rest.result {
                        Err(e) => fail(e, rest.state),
                        Ok(branches) => ok(
                            StmtView::Kung {
                                branches,
                                line: kung_tok.line,
                                column: kung_tok.column,
                                id: rest.state.next_id,
                            },
                            rest.state.fresh(),
                        ),
                    }
                } else {
                    fail(first.state.expect_err(toks, "`{`"@), first.state)
                },
            }
        },
    }
}

/// What is parsed from a state on, up to the end of the tokens.
pub open spec fn program_loop(toks: Seq<TokenView>, st: PState, acc: Seq<StmtView>) -> Body
    decreases st.remaining(toks),
{
    if st.at_end(toks) || st.kind(toks) == TokenKind::Eof {
        Body { statements: acc, state: st }
    } else {
        let s = parse_statement(toks, st);
        match s.result {
            Ok(stmt) => if s.state.pos > st.pos {
                program_loop(toks, s.state, acc.push(stmt))
            } else {
                Body { statements: acc.push(stmt), state: s.state }
            },
            Err(e) => {
                let after = synchronize(toks, s.state.report(e));
                if after.pos > st.pos {
                    program_loop(toks, after, acc)
                } else {
                    Body { statements: acc, state: after }
                }
            },
        }
    }
}

/// The statements of a whole program, with the diagnostics of those that
/// failed.
pub open spec fn parse_program(toks: Seq<TokenView>) -> Body {
    if toks.len() == 0 {
        Body { statements: Seq::empty(), state: PState::start() }
    } else {
        program_loop(toks, PState::start(), Seq::empty())
    }
}

/// Whether a rule that started at `before` and left `after` has moved
/// forward only, inside the tokens.
pub open spec fn advances(toks: Seq<TokenView>, before: PState, after: PState) -> bool {
    before.pos <= after.pos < toks.len()
}

/// A statement moves forward only, and has passed a token where it
/// succeeded.
pub proof fn lemma_parse_statement_advances(toks: Seq<TokenView>, st: PState)
    requires
        0 <= st.pos < toks.len(),
    ensures
        advances(toks, st, parse_statement(toks, st).state),
        parse_statement(toks, st).result is Ok ==> parse_statement(toks, st).state.pos > st.pos,
    decreases st.remaining(toks), 10nat,
{
    let kind = st.kind(toks);
    if kind == TokenKind::Paraan {
        lemma_parse_par_advances(toks, st);
    } else if kind == TokenKind::Bagay {
        lemma_parse_bagay_advances(toks, st);
    } else if kind == TokenKind::Itupad {
        lemma_parse_itupad_advances(toks, st);
    } else if kind == TokenKind::Kung {
        lemma_parse_kung_advances(toks, st);
    } else if kind == TokenKind::Sa {
        lemma_parse_sa_advances(toks, st);
    } else if kind == TokenKind::Ang {
        lemma_parse_ang_advances(toks, st);
    } else if kind == TokenKind::Ibalik {
        lemma_parse_ibalik_advances(toks, st);
    } else {
        lemma_parse_expression_moves_on(toks, st, 0);
    }
}

/// A function moves forward only, and has passed a token where it
/// succeeded.
pub proof fn lemma_parse_par_advances(toks: Seq<TokenView>, st: PState)
    requires
        0 <= st.pos < toks.len(),
    ensures
        advances(toks, st, parse_par(toks, st).state),
        parse_par(toks, st).result is Ok ==> parse_par(toks, st).state.pos > st.pos,
    decreases st.remaining(toks), 5nat,
{
    let word = st.expect(toks, TokenKind::Paraan, "par"@);
    if word.result is Ok {
        let name = word.state.expect(toks, TokenKind::Identifier, "pangalan"@);
        if name.result is Ok {
            let open = name.state.consume(
                toks,
                TokenKind::LeftParen,
                name.state.expect_err(toks, "`(`"@).with_help(
                    "Lagyan mo ng `(` dito para simulan ang pag deklara ng mga parameter"@,
                ),
            );
            if open.result is Ok {
                lemma_parse_params_bounds(toks, open.state);
                let params = parse_params(toks, open.state);
                if params.result is Ok {
                    let close = params.state.consume(
                        toks,
                        TokenKind::RightParen,
                        params.state.expect_err(toks, "`)`"@).with_help(
                            "Lagyan mo ng `)` para tapusin ang listahan ng parameter"@,
                        ),
                    );
                    if close.result is Ok {
                        lemma_return_type_bounds(toks, close.state);
                        let ret = parse_return_type(toks, close.state);
                        if ret.result is Ok {
                            lemma_parse_block_advances(toks, ret.state);
                        }
                    }
                }
            }
        }
    }
}

/// A method moves forward only, and has passed a token where it
/// succeeded.
pub proof fn lemma_parse_method_advances(toks: Seq<TokenView>, st: PState)
    requires
        0 <= st.pos < toks.len(),
    ensures
        advances(toks, st, parse_method(toks, st).state),
        parse_method(toks, st).result is Ok ==> parse_method(toks, st).state.pos > st.pos,
    decreases st.remaining(toks), 5nat,
{
    let word = st.expect(toks, TokenKind::Paraan, "`paraan`"@);
    if word.result is Ok {
        let name = word.state.expect(toks, TokenKind::Identifier, "pangalan"@);
        if name.result is Ok {
            let open = name.state.expect(toks, TokenKind::LeftParen, "`(`"@);
            if open.result is Ok {
                lemma_parse_params_bounds(toks, open.state);
                let params = parse_params(toks, open.state);
                if params.result is Ok {
                    lemma_return_type_bounds(toks, params.state.advance(toks));
                    let ret = parse_return_type(toks, params.state.advance(toks));
                    if ret.result is Ok {
                        lemma_parse_block_advances(toks, ret.state);
                    }
                }
            }
        }
    }
}

/// Recovery inside a block passes the token at which the statement that
/// failed had started.
pub proof fn lemma_recover_advances(
    toks: Seq<TokenView>,
    from: int,
    failed: PState,
    e: CompilerErrorView,
)
    requires
        0 <= from <= failed.pos < toks.len(),
        from + 1 < toks.len(),
    ensures
        from < recover(toks, from, failed, e).pos < toks.len(),
{
    lemma_synchronize_until_bounds(toks, failed.report(e), seq![TokenKind::RightBrace]);
}

/// A block moves forward only, and has passed a token where it succeeded.
pub proof fn lemma_parse_block_advances(toks: Seq<TokenView>, st: PState)
    requires
        0 <= st.pos < toks.len(),
    ensures
        advances(toks, st, parse_block(toks, st).state),
        parse_block(toks, st).result is Ok ==> parse_block(toks, st).state.pos > st.pos,
    decreases st.remaining(toks), 5nat,
{
    let open = st.expect(toks, TokenKind::LeftBrace, "`{`"@);
    if open.result is Ok {
        lemma_block_loop_advances(toks, open.state, Seq::empty());
    }
}

/// The statements of a block move forward only.
pub proof fn lemma_block_loop_advances(toks: Seq<TokenView>, st: PState, acc: Seq<StmtView>)
    requires
        0 <= st.pos < toks.len(),
    ensures
        advances(toks, st, block_loop(toks, st, acc).state),
    decreases st.remaining(toks), 11nat,
{
    if st.at_end(toks) || st.kind(toks) == TokenKind::RightBrace {
    } else {
        lemma_parse_statement_advances(toks, st);
        let s = parse_statement(toks, st);
        match s.result {
            Ok(stmt) => {
                lemma_block_loop_advances(toks, s.state, acc.push(stmt));
            },
            Err(e) => {
                lemma_recover_advances(toks, st.pos, s.state, e);
                lemma_block_loop_advances(toks, recover(toks, st.pos, s.state, e), acc);
            },
        }
    }
}

/// A binding moves forward only, and has passed a token where it
/// succeeded.
pub proof fn lemma_parse_ang_advances(toks: Seq<TokenView>, st: PState)
    requires
        0 <= st.pos < toks.len(),
    ensures
        advances(toks, st, parse_ang(toks, st).state),
        parse_ang(toks, st).result is Ok ==> parse_ang(toks, st).state.pos > st.pos,
{
    let word = st.consume(
        toks,
        TokenKind::Ang,
        st.expect_err(toks, "`ang`"@).with_note(
            "Ginamit ang `ang` para mag-deklara ng bagong pangalan"@,
        ),
    );
    if word.result is Ok {
        let mutable = word.state.kind(toks) == TokenKind::Maiba;
        let after_maiba = if mutable {
            word.state.advance(toks)
        } else {
            word.state
        };
        let name = after_maiba.consume(
            toks,
            TokenKind::Identifier,
            after_maiba.expect_err(toks, "pangalan"@).with_note(
                "Siguraduhing hindi keyword ang iyong nailagay"@,
            ),
        );
        if name.result is Ok {
            lemma_parse_type_bounds(toks, name.state.advance(toks));
            let ty = if name.state.kind(toks) == TokenKind::Colon {
                parse_type(toks, name.state.advance(toks))
            } else {
                ok(TolTypeView::Unknown, name.state)
            };
            if ty.result is Ok {
                let eq = ty.state.consume(
                    toks,
                    TokenKind::Equal,
                    diagnostic(
                        "Ang `=` ang maaari dito"@,
                        ErrorKind::Error,
                        ty.state.peek(toks).line,
                        ty.state.peek(toks).column,
                    ),
                );
                if eq.result is Ok {
                    lemma_parse_expression_moves_on(toks, eq.state, 0);
                }
            }
        }
    }
}

/// A return moves forward only, and has passed a token where it
/// succeeded.
pub proof fn lemma_parse_ibalik_advances(toks: Seq<TokenView>, st: PState)
    requires
        0 <= st.pos < toks.len(),
    ensures
        advances(toks, st, parse_ibalik(toks, st).state),
        parse_ibalik(toks, st).result is Ok ==> parse_ibalik(toks, st).state.pos > st.pos,
{
    let word = st.expect(toks, TokenKind::Ibalik, "`ibalik`"@);
    if word.result is Ok {
        lemma_parse_expression_moves_on(toks, word.state, 0);
    }
}

/// A record moves forward only, and has passed a token where it
/// succeeded.
pub proof fn lemma_parse_bagay_advances(toks: Seq<TokenView>, st: PState)
    requires
        0 <= st.pos < toks.len(),
    ensures
        advances(toks, st, parse_bagay(toks, st).state),
        parse_bagay(toks, st).result is Ok ==> parse_bagay(toks, st).state.pos > st.pos,
{
    let word = st.expect(toks, TokenKind::Bagay, "`bagay`"@);
    if word.result is Ok {
        let name = word.state.expect(toks, TokenKind::Identifier, "pangalan"@);
        if name.result is Ok {
            lemma_parse_bagay_fields_bounds(toks, name.state);
        }
    }
}

/// An `itupad` moves forward only, and has passed a token where it
/// succeeded.
pub proof fn lemma_parse_itupad_advances(toks: Seq<TokenView>, st: PState)
    requires
        0 <= st.pos < toks.len(),
    ensures
        advances(toks, st, parse_itupad(toks, st).state),
        parse_itupad(toks, st).result is Ok ==> parse_itupad(toks, st).state.pos > st.pos,
    decreases st.remaining(toks), 5nat,
{
    let word = st.expect(toks, TokenKind::Itupad, "`itupad`"@);
    if word.result is Ok {
        lemma_parse_type_bounds(toks, word.state);
        let ty = parse_type(toks, word.state);
        if ty.result is Ok {
            let open = ty.state.expect(toks, TokenKind::LeftBrace, "`{`"@);
            if open.result is Ok {
                lemma_itupad_loop_advances(toks, open.state, Seq::empty());
            }
        }
    }
}

/// The methods of an `itupad` block move forward only.
pub proof fn lemma_itupad_loop_advances(toks: Seq<TokenView>, st: PState, acc: Seq<StmtView>)
    requires
        0 <= st.pos < toks.len(),
    ensures
        advances(toks, st, itupad_loop(toks, st, acc).state),
    decreases st.remaining(toks), 11nat,
{
    if st.at_end(toks) || st.kind(toks) == TokenKind::RightBrace {
    } else {
        lemma_parse_method_advances(toks, st);
        let m = parse_method(toks, st);
        match m.result {
            Ok(method) => {
                lemma_itupad_loop_advances(toks, m.state, acc.push(method));
            },
            Err(e) => {
                lemma_recover_advances(toks, st.pos, m.state, e);
                lemma_itupad_loop_advances(toks, recover(toks, st.pos, m.state, e), acc);
            },
        }
    }
}

/// A loop moves forward only, and has passed a token where it succeeded.
pub proof fn lemma_parse_sa_advances(toks: Seq<TokenView>, st: PState)
    requires
        0 <= st.pos < toks.len(),
    ensures
        advances(toks, st, parse_sa(toks, st).state),
        parse_sa(toks, st).result is Ok ==> parse_sa(toks, st).state.pos > st.pos,
    decreases st.remaining(toks), 5nat,
{
    let word = st.expect(toks, TokenKind::Sa, "`sa`"@);
    if word.result is Ok {
        lemma_parse_expression_moves_on(toks, word.state, 0);
        let it = parse_expression(toks, word.state, 0);
        if it.result is Ok {
            let arrow = it.state.expect(toks, TokenKind::ThickArrow, "`=>`"@);
            if arrow.result is Ok {
                let name = arrow.state.expect(toks, TokenKind::Identifier, "pangalan"@);
                if name.result is Ok {
                    lemma_parse_block_advances(toks, name.state);
                }
            }
        }
    }
}

/// A branch of a conditional moves forward only, and has passed a token
/// where it succeeded.
pub proof fn lemma_parse_branch_advances(toks: Seq<TokenView>, st: PState, with_condition: bool)
    requires
        0 <= st.pos < toks.len(),
    ensures
        advances(toks, st, parse_branch(toks, st, with_condition).state),
        parse_branch(toks, st, with_condition).result is Ok ==> parse_branch(
            toks,
            st,
            with_condition,
        ).state.pos > st.pos,
    decreases st.remaining(toks), 6nat,
{
    if with_condition {
        lemma_parse_expression_moves_on(toks, st, 0);
        let cond = parse_expression(toks, st, 0);
        if cond.result is Ok {
            lemma_parse_block_advances(toks, cond.state);
        }
    } else {
        lemma_parse_block_advances(toks, st);
    }
}

/// The further branches of a conditional move forward only.
pub proof fn lemma_kung_loop_advances(toks: Seq<TokenView>, st: PState, acc: Seq<KungBranchView>)
    requires
        0 <= st.pos < toks.len(),
    ensures
        advances(toks, st, kung_loop(toks, st, acc).state),
    decreases st.remaining(toks), 11nat,
{
    if st.kind(toks) == TokenKind::KungDi {
        lemma_parse_branch_advances(toks, st.advance(toks), true);
        let b = parse_branch(toks, st.advance(toks), true);
        if b.result is Ok {
            lemma_kung_loop_advances(toks, b.state, acc.push(b.result->Ok_0));
        }
    } else if st.kind(toks) == TokenKind::KungWala {
        lemma_parse_branch_advances(toks, st.advance(toks), false);
    }
}

/// A conditional moves forward only, and has passed a token where it
/// succeeded.
pub proof fn lemma_parse_kung_advances(toks: Seq<TokenView>, st: PState)
    requires
        0 <= st.pos < toks.len(),
    ensures
        advances(toks, st, parse_kung(toks, st).state),
        parse_kung(toks, st).result is Ok ==> parse_kung(toks, st).state.pos > st.pos,
    decreases st.remaining(toks), 5nat,
{
    let word = st.expect(toks, TokenKind::Kung, "`kung`"@);
    if word.result is Ok {
        lemma_parse_branch_advances(toks, word.state, true);
        let first = parse_branch(toks, word.state, true);
        if first.result is Ok {
            lemma_kung_loop_advances(toks, first.state, Seq::empty().push(first.result->Ok_0));
        }
    }
}

/// Parsing a program passes every token but the last, unless it meets an
/// end marker before.
pub proof fn lemma_program_loop_ends(toks: Seq<TokenView>, st: PState, acc: Seq<StmtView>)
    requires
        0 <= st.pos < toks.len(),
    ensures
        ({
            let after = program_loop(toks, st, acc).state;
            &&& advances(toks, st, after)
            &&& after.at_end(toks) || after.kind(toks) == TokenKind::Eof
        }),
    decreases st.remaining(toks),
{
    if st.at_end(toks) || st.kind(toks) == TokenKind::Eof {
    } else {
        lemma_parse_statement_advances(toks, st);
        let s = parse_statement(toks, st);
        match s.result {
            Ok(stmt) => {
                lemma_program_loop_ends(toks, s.state, acc.push(stmt));
            },
            Err(e) => {
                lemma_synchronize_bounds(toks, s.state.report(e));
                lemma_program_loop_ends(toks, synchronize(toks, s.state.report(e)), acc);
            },
        }
    }
}

} // verus!
