//! Statements and declarations.

use vstd::prelude::*;
use crate::lexer::token::{Token, TokenView};
use crate::parser::ast::expr::{Expr, ExprView};
use crate::toltype::{TolType, TolTypeView};

verus! {

#[derive(Debug, PartialEq)]
pub enum Stmt {
    Program(Vec<Stmt>),
    Par {
        par_identifier: Token,
        params: Vec<(Token, TolType)>,
        return_type: TolType,
        block: Box<Stmt>,
        line: usize,
        column: usize,
        id: usize,
    },
    Method {
        is_static: bool,
        met_identifier: Token,
        params: Vec<(Token, TolType)>,
        return_type: TolType,
        block: Box<Stmt>,
        line: usize,
        column: usize,
        id: usize,
    },
    Ang {
        mutable: bool,
        ang_identifier: Token,
        ang_type: TolType,
        rhs: Expr,
        line: usize,
        column: usize,
        id: usize,
    },
    Ibalik { rhs: Expr, line: usize, column: usize, id: usize },
    ExprS { expr: Expr, line: usize, column: usize, id: usize },
    Bagay { bagay_identifier: Token, fields: Vec<(Token, TolType)>, id: usize },
    Itupad { itupad_for: TolType, itupad_block: Box<Stmt>, line: usize, column: usize, id: usize },
    ItupadBlock { methods: Vec<Stmt>, line: usize, column: usize, id: usize },
    Kung { branches: Vec<KungBranch>, line: usize, column: usize, id: usize },
    Sa { iterator: Expr, bind: Token, block: Box<Stmt>, line: usize, column: usize, id: usize },
    Block { statements: Vec<Stmt>, line: usize, column: usize, id: usize },
}

/// One branch of a conditional: its condition, if it has one, and its body.
#[derive(Debug, PartialEq)]
pub struct KungBranch {
    pub condition: Option<Expr>,
    pub block: Stmt,
}

/// A statement as plain mathematical data.
pub enum StmtView {
    Program(Seq<StmtView>),
    Par {
        par_identifier: TokenView,
        params: Seq<(TokenView, TolTypeView)>,
        return_type: TolTypeView,
        block: Box<StmtView>,
        line: usize,
        column: usize,
        id: usize,
    },
    Method {
        is_static: bool,
        met_identifier: TokenView,
        params: Seq<(TokenView, TolTypeView)>,
        return_type: TolTypeView,
        block: Box<StmtView>,
        line: usize,
        column: usize,
        id: usize,
    },
    Ang {
        mutable: bool,
        ang_identifier: TokenView,
        ang_type: TolTypeView,
        rhs: ExprView,
        line: usize,
        column: usize,
        id: usize,
    },
    Ibalik { rhs: ExprView, line: usize, column: usize, id: usize },
    ExprS { expr: ExprView, line: usize, column: usize, id: usize },
    Bagay { bagay_identifier: TokenView, fields: Seq<(TokenView, TolTypeView)>, id: usize },
    Itupad {
        itupad_for: TolTypeView,
        itupad_block: Box<StmtView>,
        line: usize,
        column: usize,
        id: usize,
    },
    ItupadBlock { methods: Seq<StmtView>, line: usize, column: usize, id: usize },
    Kung { branches: Seq<KungBranchView>, line: usize, column: usize, id: usize },
    Sa {
        iterator: ExprView,
        bind: TokenView,
        block: Box<StmtView>,
        line: usize,
        column: usize,
        id: usize,
    },
    Block { statements: Seq<StmtView>, line: usize, column: usize, id: usize },
}

/// A branch of a conditional as plain mathematical data.
pub struct KungBranchView {
    pub condition: Option<ExprView>,
    pub block: StmtView,
}

/// The views of a list of names with their types, in order.
pub open spec fn params_view(v: Seq<(Token, TolType)>) -> Seq<(TokenView, TolTypeView)> {
    v.map_values(|p: (Token, TolType)| (p.0@, p.1@))
}

pub proof fn lemma_params_view_push(v: Seq<(Token, TolType)>, t: Token, ty: TolType)
    ensures
        params_view(v.push((t, ty))) == params_view(v).push((t@, ty@)),
{
    assert(params_view(v.push((t, ty))) =~= params_view(v).push((t@, ty@)));
}

pub open spec fn stmt_view(s: Stmt) -> StmtView
    decreases s,
{
    match s {
        Stmt::Program(statements) => StmtView::Program(stmts_view(statements@)),
        Stmt::Par { par_identifier, params, return_type, block, line, column, id } => StmtView::Par {
            par_identifier: par_identifier@,
            params: params_view(params@),
            return_type: return_type@,
            block: Box::new(stmt_view(*block)),
            line,
            column,
            id,
        },
        Stmt::Method {
            is_static,
            met_identifier,
            params,
            return_type,
            block,
            line,
            column,
            id,
        } => StmtView::Method {
            is_static,
            met_identifier: met_identifier@,
            params: params_view(params@),
            return_type: return_type@,
            block: Box::new(stmt_view(*block)),
            line,
            column,
            id,
        },
        Stmt::Ang { mutable, ang_identifier, ang_type, rhs, line, column, id } => StmtView::Ang {
            mutable,
            ang_identifier: ang_identifier@,
            ang_type: ang_type@,
            rhs: rhs@,
            line,
            column,
            id,
        },
        Stmt::Ibalik { rhs, line, column, id } => StmtView::Ibalik { rhs: rhs@, line, column, id },
        Stmt::ExprS { expr, line, column, id } => StmtView::ExprS { expr: expr@, line, column, id },
        Stmt::Bagay { bagay_identifier, fields, id } => StmtView::Bagay {
            bagay_identifier: bagay_identifier@,
            fields: params_view(fields@),
            id,
        },
        Stmt::Itupad { itupad_for, itupad_block, line, column, id } => StmtView::Itupad {
            itupad_for: itupad_for@,
            itupad_block: Box::new(stmt_view(*itupad_block)),
            line,
            column,
            id,
        },
        Stmt::ItupadBlock { methods, line, column, id } => StmtView::ItupadBlock {
            methods: stmts_view(methods@),
            line,
            column,
            id,
        },
        Stmt::Kung { branches, line, column, id } => StmtView::Kung {
            branches: branches_view(branches@),
            line,
            column,
            id,
        },
        Stmt::Sa { iterator, bind, block, line, column, id } => StmtView::Sa {
            iterator: iterator@,
            bind: bind@,
            block: Box::new(stmt_view(*block)),
            line,
            column,
            id,
        },
        Stmt::Block { statements, line, column, id } => StmtView::Block {
            statements: stmts_view(statements@),
            line,
            column,
            id,
        },
    }
}

/// The views of a sequence of statements, in order.
pub open spec fn stmts_view(v: Seq<Stmt>) -> Seq<StmtView>
    decreases v,
{
    Seq::new(
        v.len(),
        |i: int|
            if 0 <= i < v.len() {
                stmt_view(v[i])
            } else {
                arbitrary()
            },
    )
}

pub open spec fn branch_view(b: KungBranch) -> KungBranchView
    decreases b,
{
    KungBranchView {
        condition: match b.condition {
            Some(c) => Some(c@),
            None => None,
        },
        block: stmt_view(b.block),
    }
}

/// The views of the branches of a conditional, in order.
pub open spec fn branches_view(v: Seq<KungBranch>) -> Seq<KungBranchView>
    decreases v,
{
    Seq::new(
        v.len(),
        |i: int|
            if 0 <= i < v.len() {
                branch_view(v[i])
            } else {
                arbitrary()
            },
    )
}

impl View for Stmt {
    type V = StmtView;

    open spec fn view(&self) -> StmtView {
        stmt_view(*self)
    }
}

impl View for KungBranch {
    type V = KungBranchView;

    open spec fn view(&self) -> KungBranchView {
        branch_view(*self)
    }
}

pub proof fn lemma_stmts_view_push(v: Seq<Stmt>, s: Stmt)
    ensures
        stmts_view(v.push(s)) == stmts_view(v).push(s@),
{
    assert(stmts_view(v.push(s)) =~= stmts_view(v).push(s@));
}

pub proof fn lemma_branches_view_push(v: Seq<KungBranch>, b: KungBranch)
    ensures
        branches_view(v.push(b)) == branches_view(v).push(b@),
{
    assert(branches_view(v.push(b)) =~= branches_view(v).push(b@));
}

impl StmtView {
    /// Whether the statement declares a record.
    pub open spec fn is_record(self) -> bool {
        self is Bagay
    }
}

} // verus!
