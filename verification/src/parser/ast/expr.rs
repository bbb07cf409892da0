//! Expressions. Every node carries the id by which later stages key what
//! they learn of it.

use vstd::prelude::*;
use vstd::string::StringExecFns;
use crate::lexer::token::{Token, TokenView};
use crate::text::copy_str;

verus! {

#[derive(Debug, PartialEq)]
pub enum Expr {
    IntLit { token: Token, id: usize },
    FloatLit { token: Token, id: usize },
    StringLit { token: Token, id: usize },
    ByteStringLit { token: Token, id: usize },
    Identifier { token: Token, id: usize },
    Binary { op: Token, left: Box<Expr>, right: Box<Expr>, id: usize },
    Assign { left: Box<Expr>, right: Box<Expr>, line: usize, column: usize, id: usize },
    FnCall { callee: Box<Expr>, args: Vec<Expr>, line: usize, column: usize, id: usize },
    MagicFnCall { name: Token, args: Vec<Expr>, id: usize },
    MemberAccess { left: Box<Expr>, member: Token, line: usize, column: usize, id: usize },
    ScopeResolution { left: Box<Expr>, field: Token, line: usize, column: usize, id: usize },
    Struct {
        callee: Box<Expr>,
        fields: Vec<(Token, Expr)>,
        line: usize,
        column: usize,
        id: usize,
    },
    Array { elements: Vec<Expr>, line: usize, column: usize, id: usize },
    RangeExclusive { start: Box<Expr>, end: Box<Expr>, line: usize, column: usize, id: usize },
    RangeInclusive { start: Box<Expr>, end: Box<Expr>, line: usize, column: usize, id: usize },
    AddressOf { of: Box<Expr>, line: usize, column: usize, id: usize },
    MutableAddressOf { of: Box<Expr>, line: usize, column: usize, id: usize },
    Deref { right: Box<Expr>, line: usize, column: usize, id: usize },
}

/// An expression as plain mathematical data.
pub enum ExprView {
    IntLit { token: TokenView, id: usize },
    FloatLit { token: TokenView, id: usize },
    StringLit { token: TokenView, id: usize },
    ByteStringLit { token: TokenView, id: usize },
    Identifier { token: TokenView, id: usize },
    Binary { op: TokenView, left: Box<ExprView>, right: Box<ExprView>, id: usize },
    Assign { left: Box<ExprView>, right: Box<ExprView>, line: usize, column: usize, id: usize },
    FnCall { callee: Box<ExprView>, args: Seq<ExprView>, line: usize, column: usize, id: usize },
    MagicFnCall { name: TokenView, args: Seq<ExprView>, id: usize },
    MemberAccess {
        left: Box<ExprView>,
        member: TokenView,
        line: usize,
        column: usize,
        id: usize,
    },
    ScopeResolution {
        left: Box<ExprView>,
        field: TokenView,
        line: usize,
        column: usize,
        id: usize,
    },
    Struct {
        callee: Box<ExprView>,
        fields: Seq<(TokenView, ExprView)>,
        line: usize,
        column: usize,
        id: usize,
    },
    Array { elements: Seq<ExprView>, line: usize, column: usize, id: usize },
    RangeExclusive {
        start: Box<ExprView>,
        end: Box<ExprView>,
        line: usize,
        column: usize,
        id: usize,
    },
    RangeInclusive {
        start: Box<ExprView>,
        end: Box<ExprView>,
        line: usize,
        column: usize,
        id: usize,
    },
    AddressOf { of: Box<ExprView>, line: usize, column: usize, id: usize },
    MutableAddressOf { of: Box<ExprView>, line: usize, column: usize, id: usize },
    Deref { right: Box<ExprView>, line: usize, column: usize, id: usize },
}

pub open spec fn expr_view(e: Expr) -> ExprView
    decreases e,
{
    match e {
        Expr::IntLit { token, id } => ExprView::IntLit { token: token@, id },
        Expr::FloatLit { token, id } => ExprView::FloatLit { token: token@, id },
        Expr::StringLit { token, id } => ExprView::StringLit { token: token@, id },
        Expr::ByteStringLit { token, id } => ExprView::ByteStringLit { token: token@, id },
        Expr::Identifier { token, id } => ExprView::Identifier { token: token@, id },
        Expr::Binary { op, left, right, id } => ExprView::Binary {
            op: op@,
            left: Box::new(expr_view(*left)),
            right: Box::new(expr_view(*right)),
            id,
        },
        Expr::Assign { left, right, line, column, id } => ExprView::Assign {
            left: Box::new(expr_view(*left)),
            right: Box::new(expr_view(*right)),
            line,
            column,
            id,
        },
        Expr::FnCall { callee, args, line, column, id } => ExprView::FnCall {
            callee: Box::new(expr_view(*callee)),
            args: exprs_view(args@),
            line,
            column,
            id,
        },
        Expr::MagicFnCall { name, args, id } => ExprView::MagicFnCall {
            name: name@,
            args: exprs_view(args@),
            id,
        },
        Expr::MemberAccess { left, member, line, column, id } => ExprView::MemberAccess {
            left: Box::new(expr_view(*left)),
            member: member@,
            line,
            column,
            id,
        },
        Expr::ScopeResolution { left, field, line, column, id } => ExprView::ScopeResolution {
            left: Box::new(expr_view(*left)),
            field: field@,
            line,
            column,
            id,
        },
        Expr::Struct { callee, fields, line, column, id } => ExprView::Struct {
            callee: Box::new(expr_view(*callee)),
            fields: fields_view(fields@),
            line,
            column,
            id,
        },
        Expr::Array { elements, line, column, id } => ExprView::Array {
            elements: exprs_view(elements@),
            line,
            column,
            id,
        },
        Expr::RangeExclusive { start, end, line, column, id } => ExprView::RangeExclusive {
            start: Box::new(expr_view(*start)),
            end: Box::new(expr_view(*end)),
            line,
            column,
            id,
        },
        Expr::RangeInclusive { start, end, line, column, id } => ExprView::RangeInclusive {
            start: Box::new(expr_view(*start)),
            end: Box::new(expr_view(*end)),
            line,
            column,
            id,
        },
        Expr::AddressOf { of, line, column, id } => ExprView::AddressOf {
            of: Box::new(expr_view(*of)),
            line,
            column,
            id,
        },
        Expr::MutableAddressOf { of, line, column, id } => ExprView::MutableAddressOf {
            of: Box::new(expr_view(*of)),
            line,
            column,
            id,
        },
        Expr::Deref { right, line, column, id } => ExprView::Deref {
            right: Box::new(expr_view(*right)),
            line,
            column,
            id,
        },
    }
}

/// The views of a sequence of expressions, in order.
pub open spec fn exprs_view(v: Seq<Expr>) -> Seq<ExprView>
    decreases v,
{
    Seq::new(
        v.len(),
        |i: int|
            if 0 <= i < v.len() {
                expr_view(v[i])
            } else {
                arbitrary()
            },
    )
}

/// The views of the named fields of a record literal, in order.
pub open spec fn fields_view(v: Seq<(Token, Expr)>) -> Seq<(TokenView, ExprView)>
    decreases v,
{
    Seq::new(
        v.len(),
        |i: int|
            if 0 <= i < v.len() {
                (v[i].0@, expr_view(v[i].1))
            } else {
                arbitrary()
            },
    )
}

impl View for Expr {
    type V = ExprView;

    open spec fn view(&self) -> ExprView {
        expr_view(*self)
    }
}

pub proof fn lemma_exprs_view_push(v: Seq<Expr>, e: Expr)
    ensures
        exprs_view(v.push(e)) == exprs_view(v).push(e@),
{
    assert(exprs_view(v.push(e)) =~= exprs_view(v).push(e@));
}

pub proof fn lemma_fields_view_push(v: Seq<(Token, Expr)>, t: Token, e: Expr)
    ensures
        fields_view(v.push((t, e))) == fields_view(v).push((t@, e@)),
{
    assert(fields_view(v.push((t, e))) =~= fields_view(v).push((t@, e@)));
}

impl ExprView {
    /// Whether the expression names a place that can be assigned to.
    pub open spec fn is_lvalue(self) -> bool {
        self is Identifier || self is MemberAccess || self is ScopeResolution || self is Deref
    }

    /// How the expression is written for a reader: a literal or a name as
    /// it is, `left op right` as `(op left right)`, and nothing for all
    /// else.
    pub open spec fn text(self) -> Seq<char>
        decreases self,
    {
        match self {
            ExprView::IntLit { token, .. } => token.lexeme,
            ExprView::FloatLit { token, .. } => token.lexeme,
            ExprView::Identifier { token, .. } => token.lexeme,
            ExprView::Binary { op, left, right, .. } => "("@ + op.lexeme + " "@ + left.text()
                + " "@ + right.text() + ")"@,
            _ => Seq::empty(),
        }
    }

    /// The id of the node.
    pub open spec fn id(self) -> usize {
        match self {
            ExprView::IntLit { id, .. } => id,
            ExprView::FloatLit { id, .. } => id,
            ExprView::StringLit { id, .. } => id,
            ExprView::ByteStringLit { id, .. } => id,
            ExprView::Identifier { id, .. } => id,
            ExprView::Binary { id, .. } => id,
            ExprView::Assign { id, .. } => id,
            ExprView::FnCall { id, .. } => id,
            ExprView::MagicFnCall { id, .. } => id,
            ExprView::MemberAccess { id, .. } => id,
            ExprView::ScopeResolution { id, .. } => id,
            ExprView::Struct { id, .. } => id,
            ExprView::Array { id, .. } => id,
            ExprView::RangeExclusive { id, .. } => id,
            ExprView::RangeInclusive { id, .. } => id,
            ExprView::AddressOf { id, .. } => id,
            ExprView::MutableAddressOf { id, .. } => id,
            ExprView::Deref { id, .. } => id,
        }
    }
}

impl Expr {
    /// How the expression is written for a reader.
    pub fn to_text(&self) -> (s: String)
        ensures
            s@ == self@.text(),
        decreases self,
    {
        match self {
            Expr::IntLit { token, .. } => copy_str(token.lexeme()),
            Expr::FloatLit { token, .. } => copy_str(token.lexeme()),
            Expr::Identifier { token, .. } => copy_str(token.lexeme()),
            Expr::Binary { op, left, right, .. } => {
                let l = left.to_text();
                let r = right.to_text();
                let mut s = copy_str("(");
                s.append(op.lexeme());
                s.append(" ");
                s.append(l.as_str());
                s.append(" ");
                s.append(r.as_str());
                s.append(")");
                s
            },
            _ => String::new(),
        }
    }

    pub fn is_lvalue(&self) -> (b: bool)
        ensures
            b == self@.is_lvalue(),
    {
        matches!(
            self,
            Self::Identifier { .. } | Self::MemberAccess { .. } | Self::ScopeResolution { .. }
                | Self::Deref { .. }
        )
    }
}

} // verus!
