//! The rules for expressions: operators by binding power, prefix forms,
//! calls, record literals and member access.
//!
//! A rule that goes on after another one first makes sure that the other
//! has passed a token, so that the definitions are seen to end. The test
//! never fails: `lemma_parse_expression_moves_on` and the lemmas beside it show
//! that a rule that succeeds has passed one.

use vstd::prelude::*;
use crate::error::{CompilerErrorView, ErrorKind, diagnostic};
use crate::lexer::token::TokenView;
use crate::lexer::token_kind::TokenKind;
use crate::parser::ast::expr::ExprView;
use crate::parser::grammar::{PState, Parsed, fail, ok};

verus! {

/// How tightly an operator binds; 0 for what is no operator.
pub open spec fn binding_power(kind: TokenKind) -> int {
    if kind == TokenKind::Equal {
        1
    } else if kind == TokenKind::DotDot || kind == TokenKind::DotDotEqual {
        2
    } else if kind == TokenKind::Plus || kind == TokenKind::Minus {
        3
    } else if kind == TokenKind::Star || kind == TokenKind::Slash {
        4
    } else if kind == TokenKind::Dot || kind == TokenKind::ColonColon {
        5
    } else if kind == TokenKind::LeftParen || kind == TokenKind::Bang {
        6
    } else {
        0
    }
}

/// Whether an operator groups to the right.
pub open spec fn groups_right(kind: TokenKind) -> bool {
    kind == TokenKind::Equal
}

/// The binding power that the right operand of an operator is parsed with.
pub open spec fn right_power(kind: TokenKind) -> int {
    if groups_right(kind) {
        binding_power(kind) - 1
    } else {
        binding_power(kind)
    }
}

/// The diagnostic for an argument list that the source ends in.
pub open spec fn unclosed_paren(line: usize, column: usize) -> CompilerErrorView {
    diagnostic("Ang `(` ay di naisarado"@, ErrorKind::Error, line, column)
}

/// An expression whose operators all bind more tightly than `precedence`.
pub open spec fn parse_expression(toks: Seq<TokenView>, st: PState, precedence: int) -> Parsed<
    ExprView,
>
    decreases st.remaining(toks), 1nat,
{
    let first = nud(toks, st);
    match first.result {
        Err(e) => fail(e, first.state),
        Ok(left) => if first.state.pos > st.pos && !st.at_end(toks) {
            expr_loop(toks, first.state, left, precedence)
        } else {
            ok(left, first.state)
        },
    }
}

/// The operators that follow `left`, as long as they bind more tightly than
/// `precedence`.
pub open spec fn expr_loop(toks: Seq<TokenView>, st: PState, left: ExprView, precedence: int)
    -> Parsed<ExprView>
    decreases st.remaining(toks), 6nat,
{
    if st.at_end(toks) || !(0 <= st.pos) || binding_power(st.peek(toks).kind) <= precedence {
        ok(left, st)
    } else {
        let next = led(toks, st.advance(toks), st.peek(toks), left);
        match next.result {
            Err(e) => fail(e, next.state),
            Ok(joined) => if next.state.pos > st.pos {
                expr_loop(toks, next.state, joined, precedence)
            } else {
                ok(joined, next.state)
            },
        }
    }
}

/// An expression that starts with a token of its own: a literal, a name, a
/// group in parentheses, `@name(..)`, `&e`, `&maiba e`, `*e` or `[e, ..]`.
pub open spec fn nud(toks: Seq<TokenView>, st: PState) -> Parsed<ExprView>
    decreases st.remaining(toks), 0nat,
{
    let tok = st.peek(toks);
    let after = st.advance(toks);
    if st.at_end(toks) || !(0 <= st.pos) {
        fail(st.expect_err(toks, "expresyon"@), st)
    } else if tok.kind == TokenKind::IntLit {
        ok(ExprView::IntLit { token: tok, id: after.next_id }, after.fresh())
    } else if tok.kind == TokenKind::FloatLit {
        ok(ExprView::FloatLit { token: tok, id: after.next_id }, after.fresh())
    } else if tok.kind == TokenKind::StringLit {
        ok(ExprView::StringLit { token: tok, id: after.next_id }, after.fresh())
    } else if tok.kind == TokenKind::ByteStringLit {
        ok(ExprView::ByteStringLit { token: tok, id: after.next_id }, after.fresh())
    } else if tok.kind == TokenKind::Identifier {
        ok(ExprView::Identifier { token: tok, id: after.next_id }, after.fresh())
    } else if tok.kind == TokenKind::LeftParen {
        let inner = parse_expression(toks, after, 0);
        match inner.result {
            Err(e) => fail(e, inner.state),
            Ok(e) => {
                let close = inner.state.consume(
                    toks,
                    TokenKind::RightParen,
                    inner.state.expect_err(toks, "`)`"@).with_help("Lagyan mo ng `)`"@),
                );
                match close.result {
                    Err(err) => fail(err, close.state),
                    Ok(_) => ok(e, close.state),
                }
            },
        }
    } else if tok.kind == TokenKind::At {
        let name = after.peek(toks);
        let open = after.advance(toks).expect(toks, TokenKind::LeftParen, "`(`"@);
        match open.result {
            Err(e) => fail(e, open.state),
            Ok(_) => {
                let args = parse_args(toks, open.state, name.line, name.column);
                match args.result {
                    Err(e) => fail(e, args.state),
                    Ok(a) => ok(
                        ExprView::MagicFnCall { name, args: a, id: args.state.next_id },
                        args.state.fresh(),
                    ),
                }
            },
        }
    } else if tok.kind == TokenKind::Amper {
        if after.kind(toks) == TokenKind::Maiba {
            let right = parse_expression(toks, after.advance(toks), 0);
            match right.result {
                Err(e) => fail(e, right.state),
                Ok(of) => ok(
                    ExprView::MutableAddressOf {
                        of: Box::new(of),
                        line: tok.line,
                        column: tok.column,
                        id: right.state.next_id,
                    },
                    right.state.fresh(),
                ),
            }
        } else {
            let right = parse_expression(toks, after, 0);
            match right.result {
                Err(e) => fail(e, right.state),
                Ok(of) => ok(
                    ExprView::AddressOf {
                        of: Box::new(of),
                        line: tok.line,
                        column: tok.column,
                        id: right.state.next_id,
                    },
                    right.state.fresh(),
                ),
            }
        }
    } else if tok.kind == TokenKind::Star {
        let right = parse_expression(toks, after, 0);
        match right.result {
            Err(e) => fail(e, right.state),
            Ok(r) => ok(
                ExprView::Deref {
                    right: Box::new(r),
                    line: tok.line,
                    column: tok.column,
                    id: right.state.next_id,
                },
                right.state.fresh(),
            ),
        }
    } else if tok.kind == TokenKind::LeftBracket {
        let elements = list_loop(toks, after, Seq::empty(), TokenKind::RightBracket, "`]` o `,`"@);
        match elements.result {
            Err(e) => fail(e, elements.state),
            Ok(items) => {
                let close = elements.state.expect(toks, TokenKind::RightBracket, "`}`"@);
                match close.result {
                    Err(e) => fail(e, close.state),
                    Ok(_) => ok(
                        ExprView::Array {
                            elements: items,
                            line: tok.line,
                            column: tok.column,
                            id: close.state.next_id,
                        },
                        close.state.fresh(),
                    ),
                }
            },
        }
    } else {
        fail(st.expect_err(toks, "expresyon"@), st)
    }
}

/// Expressions with `,` between them, up to `close` or the end of the
/// tokens. What follows an expression and is neither is an error that
/// names `expected`.
pub open spec fn list_loop(
    toks: Seq<TokenView>,
    st: PState,
    acc: Seq<ExprView>,
    close: TokenKind,
    expected: Seq<char>,
) -> Parsed<Seq<ExprView>>
    decreases st.remaining(toks), 2nat,
{
    if st.at_end(toks) || st.kind(toks) == close {
        ok(acc, st)
    } else {
        let item = parse_expression(toks, st, 0);
        match item.result {
            Err(e) => fail(e, item.state),
            Ok(e) => if item.state.kind(toks) == TokenKind::Comma {
                if item.state.pos >= st.pos {
                    list_loop(toks, item.state.advance(toks), acc.push(e), close, expected)
                } else {
                    ok(acc.push(e), item.state)
                }
            } else if item.state.kind(toks) != close {
                fail(item.state.expect_err(toks, expected), item.state)
            } else {
                ok(acc.push(e), item.state)
            },
        }
    }
}

/// The arguments of a call, from after the `(` to after the `)`.
pub open spec fn parse_args(toks: Seq<TokenView>, st: PState, line: usize, column: usize)
    -> Parsed<Seq<ExprView>>
    decreases st.remaining(toks), 3nat,
{
    let args = list_loop(toks, st, Seq::empty(), TokenKind::RightParen, "`,` o `)`"@);
    match args.result {
        Err(e) => fail(e, args.state),
        Ok(a) => if args.state.at_end(toks) {
            fail(unclosed_paren(line, column), args.state)
        } else {
            let close = args.state.expect(toks, TokenKind::RightParen, "`)`"@);
            match close.result {
                Err(e) => fail(e, close.state),
                Ok(_) => ok(a, close.state),
            }
        },
    }
}

/// What an operator makes of the expression to its left. The operator
/// itself has been passed.
pub open spec fn led(toks: Seq<TokenView>, st: PState, op: TokenView, left: ExprView) -> Parsed<
    ExprView,
>
    decreases st.remaining(toks), 5nat,
{
    if op.kind == TokenKind::Dot {
        parse_member_access(toks, st, left)
    } else if op.kind == TokenKind::LeftParen {
        parse_fncall(toks, st, left, op.line, op.column)
    } else if op.kind == TokenKind::Bang {
        parse_struct_expr(toks, st, left, op.line, op.column)
    } else if op.kind == TokenKind::ColonColon {
        parse_scope_resolution(toks, st, left, op.line, op.column)
    } else {
        let right = parse_expression(toks, st, right_power(op.kind));
        match right.result {
            Err(e) => fail(e, right.state),
            Ok(r) => {
                let id = right.state.next_id;
                let after = right.state.fresh();
                if op.kind == TokenKind::DotDot {
                    ok(
                        ExprView::RangeExclusive {
                            start: Box::new(left),
                            end: Box::new(r),
                            line: op.line,
                            column: op.column,
                            id,
                        },
                        after,
                    )
                } else if op.kind == TokenKind::DotDotEqual {
                    ok(
                        ExprView::RangeInclusive {
                            start: Box::new(left),
                            end: Box::new(r),
                            line: op.line,
                            column: op.column,
                            id,
                        },
                        after,
                    )
                } else if op.kind == TokenKind::Equal {
                    ok(
                        ExprView::Assign {
                            left: Box::new(left),
                            right: Box::new(r),
                            line: op.line,
                            column: op.column,
                            id,
                        },
                        after,
                    )
                } else {
                    ok(
                        ExprView::Binary { op, left: Box::new(left), right: Box::new(r), id },
                        after,
                    )
                }
            },
        }
    }
}

/// `left.member`, from after the `.`.
pub open spec fn parse_member_access(toks: Seq<TokenView>, st: PState, left: ExprView) -> Parsed<
    ExprView,
> {
    let id = st.next_id;
    let member = st.fresh().expect(toks, TokenKind::Identifier, "pangalan"@);
    match member.result {
        Err(e) => fail(e, member.state),
        Ok(m) => ok(
            ExprView::MemberAccess {
                left: Box::new(left),
                member: m,
                line: m.line,
                column: m.column,
                id,
            },
            member.state,
        ),
    }
}

/// `left::field`, from after the `::`.
pub open spec fn parse_scope_resolution(
    toks: Seq<TokenView>,
    st: PState,
    left: ExprView,
    line: usize,
    column: usize,
) -> Parsed<ExprView> {
    let field = st.expect(toks, TokenKind::Identifier, "pangalan"@);
    match field.result {
        Err(e) => fail(e, field.state),
        Ok(f) => ok(
            ExprView::ScopeResolution {
                left: Box::new(left),
                field: f,
                line,
                column,
                id: field.state.next_id,
            },
            field.state.fresh(),
        ),
    }
}

/// `callee(args)`, from after the `(`.
pub open spec fn parse_fncall(
    toks: Seq<TokenView>,
    st: PState,
    callee: ExprView,
    line: usize,
    column: usize,
) -> Parsed<ExprView>
    decreases st.remaining(toks), 4nat,
{
    let args = parse_args(toks, st, line, column);
    match args.result {
        Err(e) => fail(e, args.state),
        Ok(a) => ok(
            ExprView::FnCall {
                callee: Box::new(callee),
                args: a,
                line,
                column,
                id: args.state.next_id,
            },
            args.state.fresh(),
        ),
    }
}

/// The `name: value` pairs of a record literal up to the `)`, which is not
/// passed.
pub open spec fn struct_loop(toks: Seq<TokenView>, st: PState, acc: Seq<(TokenView, ExprView)>)
    -> Parsed<Seq<(TokenView, ExprView)>>
    decreases st.remaining(toks), 2nat,
{
    if st.kind(toks) == TokenKind::RightParen {
        ok(acc, st)
    } else {
        let name = st.expect(toks, TokenKind::Identifier, "pangalan"@);
        match name.result {
            Err(e) => fail(e, name.state),
            Ok(n) => {
                let colon = name.state.expect(toks, TokenKind::Colon, "`:`"@);
                match colon.result {
                    Err(e) => fail(e, colon.state),
                    Ok(_) => {
                        let value = parse_expression(toks, colon.state, 0);
                        match value.result {
                            Err(e) => fail(e, value.state),
                            Ok(v) => if value.state.kind(toks) == TokenKind::Comma {
                                if value.state.pos >= st.pos {
                                    struct_loop(toks, value.state.advance(toks), acc.push((n, v)))
                                } else {
                                    ok(acc.push((n, v)), value.state)
                                }
                            } else if value.state.kind(toks) != TokenKind::RightParen {
                                fail(value.state.expect_err(toks, "`}` o `,`"@), value.state)
                            } else {
                                ok(acc.push((n, v)), value.state)
                            },
                        }
                    },
                }
            },
        }
    }
}

/// `callee!(name: value, ..)`, from after the `!`.
pub open spec fn parse_struct_expr(
    toks: Seq<TokenView>,
    st: PState,
    callee: ExprView,
    line: usize,
    column: usize,
) -> Parsed<ExprView>
    decreases st.remaining(toks), 4nat,
{
    let open = st.expect(toks, TokenKind::LeftParen, "`(`"@);
    match open.result {
        Err(e) => fail(e, open.state),
        Ok(_) => {
            let fields = struct_loop(toks, open.state, Seq::empty());
            match fields.result {
                Err(e) => fail(e, fields.state),
                Ok(f) => if fields.state.at_end(toks) {
                    fail(unclosed_paren(line, column), fields.state)
                } else {
                    let close = fields.state.expect(toks, TokenKind::RightParen, "`)`"@);
                    match close.result {
                        Err(e) => fail(e, close.state),
                        Ok(_) => ok(
                            ExprView::Struct {
                                callee: Box::new(callee),
                                fields: f,
                                line,
                                column,
                                id: close.state.next_id,
                            },
                            close.state.fresh(),
                        ),
                    }
                },
            }
        },
    }
}

/// Whether a rule that started at `before` and left `after` has moved
/// forward only, inside the tokens, and has kept ids and diagnostics as a
/// rule for expressions does: it gives out ids and records no diagnostic.
pub open spec fn moves_on(toks: Seq<TokenView>, before: PState, after: PState) -> bool {
    &&& before.pos <= after.pos < toks.len()
    &&& after.errors == before.errors
}

/// An expression that starts with a token of its own moves on, and has
/// passed a token where it succeeded.
pub proof fn lemma_nud_moves_on(toks: Seq<TokenView>, st: PState)
    requires
        0 <= st.pos < toks.len(),
    ensures
        moves_on(toks, st, nud(toks, st).state),
        nud(toks, st).result is Ok ==> nud(toks, st).state.pos > st.pos,
    decreases st.remaining(toks), 0nat,
{
    let tok = st.peek(toks);
    let after = st.advance(toks);
    if st.at_end(toks) {
    } else if tok.kind == TokenKind::LeftParen {
        lemma_parse_expression_moves_on(toks, after, 0);
    } else if tok.kind == TokenKind::At {
        let open = after.advance(toks).expect(toks, TokenKind::LeftParen, "`(`"@);
        if open.result is Ok {
            lemma_parse_args_moves_on(toks, open.state, after.peek(toks).line, after.peek(toks).column);
        }
    } else if tok.kind == TokenKind::Amper {
        if after.kind(toks) == TokenKind::Maiba {
            lemma_parse_expression_moves_on(toks, after.advance(toks), 0);
        } else {
            lemma_parse_expression_moves_on(toks, after, 0);
        }
    } else if tok.kind == TokenKind::Star {
        lemma_parse_expression_moves_on(toks, after, 0);
    } else if tok.kind == TokenKind::LeftBracket {
        lemma_list_loop_moves_on(toks, after, Seq::empty(), TokenKind::RightBracket, "`]` o `,`"@);
    }
}

/// An expression moves on, and has passed a token where it succeeded.
pub proof fn lemma_parse_expression_moves_on(toks: Seq<TokenView>, st: PState, precedence: int)
    requires
        0 <= st.pos < toks.len(),
    ensures
        moves_on(toks, st, parse_expression(toks, st, precedence).state),
        parse_expression(toks, st, precedence).result is Ok ==> parse_expression(
            toks,
            st,
            precedence,
        ).state.pos > st.pos,
    decreases st.remaining(toks), 1nat,
{
    lemma_nud_moves_on(toks, st);
    let first = nud(toks, st);
    if first.result is Ok {
        lemma_expr_loop_moves_on(toks, first.state, first.result->Ok_0, precedence);
    }
}

/// The operators that follow an expression move on.
pub proof fn lemma_expr_loop_moves_on(
    toks: Seq<TokenView>,
    st: PState,
    left: ExprView,
    precedence: int,
)
    requires
        0 <= st.pos < toks.len(),
    ensures
        moves_on(toks, st, expr_loop(toks, st, left, precedence).state),
    decreases st.remaining(toks), 6nat,
{
    if st.at_end(toks) || binding_power(st.peek(toks).kind) <= precedence {
    } else {
        lemma_led_moves_on(toks, st.advance(toks), st.peek(toks), left);
        let next = led(toks, st.advance(toks), st.peek(toks), left);
        if next.result is Ok {
            lemma_expr_loop_moves_on(toks, next.state, next.result->Ok_0, precedence);
        }
    }
}

/// What an operator makes of the expression to its left moves on.
pub proof fn lemma_led_moves_on(toks: Seq<TokenView>, st: PState, op: TokenView, left: ExprView)
    requires
        0 <= st.pos < toks.len(),
    ensures
        moves_on(toks, st, led(toks, st, op, left).state),
    decreases st.remaining(toks), 5nat,
{
    if op.kind == TokenKind::Dot {
    } else if op.kind == TokenKind::LeftParen {
        lemma_parse_args_moves_on(toks, st, op.line, op.column);
    } else if op.kind == TokenKind::Bang {
        lemma_parse_struct_expr_moves_on(toks, st, left, op.line, op.column);
    } else if op.kind == TokenKind::ColonColon {
    } else {
        lemma_parse_expression_moves_on(toks, st, right_power(op.kind));
    }
}

/// A list of expressions moves on.
pub proof fn lemma_list_loop_moves_on(
    toks: Seq<TokenView>,
    st: PState,
    acc: Seq<ExprView>,
    close: TokenKind,
    expected: Seq<char>,
)
    requires
        0 <= st.pos < toks.len(),
    ensures
        moves_on(toks, st, list_loop(toks, st, acc, close, expected).state),
    decreases st.remaining(toks), 2nat,
{
    if st.at_end(toks) || st.kind(toks) == close {
    } else {
        lemma_parse_expression_moves_on(toks, st, 0);
        let item = parse_expression(toks, st, 0);
        if item.result is Ok && item.state.kind(toks) == TokenKind::Comma {
            lemma_list_loop_moves_on(
                toks,
                item.state.advance(toks),
                acc.push(item.result->Ok_0),
                close,
                expected,
            );
        }
    }
}

/// The arguments of a call move on, and have passed the `)` where they
/// succeeded.
pub proof fn lemma_parse_args_moves_on(toks: Seq<TokenView>, st: PState, line: usize, column: usize)
    requires
        0 <= st.pos < toks.len(),
    ensures
        moves_on(toks, st, parse_args(toks, st, line, column).state),
        parse_args(toks, st, line, column).result is Ok ==> parse_args(
            toks,
            st,
            line,
            column,
        ).state.pos > st.pos,
    decreases st.remaining(toks), 3nat,
{
    lemma_list_loop_moves_on(toks, st, Seq::empty(), TokenKind::RightParen, "`,` o `)`"@);
}

/// The fields of a record literal move on.
pub proof fn lemma_struct_loop_moves_on(
    toks: Seq<TokenView>,
    st: PState,
    acc: Seq<(TokenView, ExprView)>,
)
    requires
        0 <= st.pos < toks.len(),
    ensures
        moves_on(toks, st, struct_loop(toks, st, acc).state),
    decreases st.remaining(toks), 2nat,
{
    if st.kind(toks) == TokenKind::RightParen {
    } else {
        let name = st.expect(toks, TokenKind::Identifier, "pangalan"@);
        if name.result is Ok {
            let colon = name.state.expect(toks, TokenKind::Colon, "`:`"@);
            if colon.result is Ok {
                lemma_parse_expression_moves_on(toks, colon.state, 0);
                let value = parse_expression(toks, colon.state, 0);
                if value.result is Ok && value.state.kind(toks) == TokenKind::Comma {
                    lemma_struct_loop_moves_on(
                        toks,
                        value.state.advance(toks),
                        acc.push((name.result->Ok_0, value.result->Ok_0)),
                    );
                }
            }
        }
    }
}

/// A record literal moves on.
pub proof fn lemma_parse_struct_expr_moves_on(
    toks: Seq<TokenView>,
    st: PState,
    callee: ExprView,
    line: usize,
    column: usize,
)
    requires
        0 <= st.pos < toks.len(),
    ensures
        moves_on(toks, st, parse_struct_expr(toks, st, callee, line, column).state),
    decreases st.remaining(toks), 4nat,
{
    let open = st.expect(toks, TokenKind::LeftParen, "`(`"@);
    if open.result is Ok {
        lemma_struct_loop_moves_on(toks, open.state, Seq::empty());
    }
}

} // verus!
