//! What analysing an expression gives, as mathematics: its type, or the
//! diagnostic, and the tables after it.

use vstd::prelude::*;
use vstd::utf8::encode_utf8;
use crate::error::{CompilerErrorView, ErrorKind, diagnostic};
use crate::lexer::token::TokenView;
use crate::lexer::token_kind::TokenKind;
use crate::parser::ast::expr::ExprView;
use crate::symbol::SymbolView;
use crate::symbol::table::field_count;
use crate::toltype::TolTypeView;
use crate::toltype::type_info::TypeInfoView;

verus! {

/// One scope: what its names stand for.
pub type Scope = Map<Seq<char>, SymbolView>;

/// What analysis knows of a module.
pub struct Tables {
    /// The scopes that are open, the innermost last.
    pub scopes: Seq<Scope>,
    /// The named types.
    pub types: Map<Seq<char>, TypeInfoView>,
    /// The types found for nodes, by node id.
    pub inferred: Map<usize, TolTypeView>,
    /// The C names of the array types that are used, in the order in which
    /// they were first met.
    pub arrays: Seq<Seq<char>>,
    /// What the function that is being analysed returns; `Unknown` outside
    /// of any function.
    pub return_type: TolTypeView,
}

/// What a rule of analysis gives: its result and the tables after it.
pub struct Checked<T> {
    pub result: Result<T, CompilerErrorView>,
    pub tables: Tables,
}

pub open spec fn good<T>(value: T, tables: Tables) -> Checked<T> {
    Checked { result: Ok(value), tables }
}

pub open spec fn bad<T>(e: CompilerErrorView, tables: Tables) -> Checked<T> {
    Checked { result: Err(e), tables }
}

/// What the innermost scope that holds `name` says of it.
pub open spec fn lookup(scopes: Seq<Scope>, name: Seq<char>) -> Option<SymbolView>
    decreases scopes.len(),
{
    if scopes.len() == 0 {
        None
    } else if scopes.last().dom().contains(name) {
        Some(scopes.last()[name])
    } else {
        lookup(scopes.drop_last(), name)
    }
}

pub open spec fn undeclared(name: Seq<char>, line: usize, column: usize) -> CompilerErrorView {
    diagnostic("Ang `"@ + name + "` ay hindi na-ideklara"@, ErrorKind::Error, line, column)
}

pub open spec fn already_declared(name: TokenView) -> CompilerErrorView {
    diagnostic(
        "Ang "@ + name.lexeme + " ay naideklara na sa kasalukuyang sakop"@,
        ErrorKind::Error,
        name.line,
        name.column,
    )
}

impl Tables {
    /// What a name stands for, or the diagnostic for one that is not declared.
    pub open spec fn lookup_symbol(self, name: Seq<char>, line: usize, column: usize) -> Result<
        SymbolView,
        CompilerErrorView,
    > {
        match lookup(self.scopes, name) {
            Some(s) => Ok(s),
            None => Err(undeclared(name, line, column)),
        }
    }

    /// Whether `name` can be declared: the innermost scope does not hold it.
    pub open spec fn can_declare(self, name: Seq<char>) -> bool {
        self.scopes.len() > 0 && !self.scopes.last().dom().contains(name)
    }

    /// With `name` declared in the innermost scope.
    pub open spec fn declare(self, name: Seq<char>, symbol: SymbolView) -> Tables {
        Tables {
            scopes: self.scopes.update(
                self.scopes.len() - 1,
                self.scopes.last().insert(name, symbol),
            ),
            ..self
        }
    }

    /// With `name` declared where it can be, unchanged where it cannot.
    pub open spec fn try_declare(self, name: Seq<char>, symbol: SymbolView) -> Tables {
        if self.can_declare(name) {
            self.declare(name, symbol)
        } else {
            self
        }
    }

    /// With one more scope, which is empty.
    pub open spec fn enter_scope(self) -> Tables {
        Tables { scopes: self.scopes.push(Map::empty()), ..self }
    }

    /// Without the innermost scope.
    pub open spec fn exit_scope(self) -> Tables {
        if self.scopes.len() > 0 {
            Tables { scopes: self.scopes.drop_last(), ..self }
        } else {
            self
        }
    }

    /// With the type of a node recorded.
    pub open spec fn record(self, id: usize, t: TolTypeView) -> Tables {
        Tables { inferred: self.inferred.insert(id, t), ..self }
    }

    /// With another return type.
    pub open spec fn returning(self, t: TolTypeView) -> Tables {
        Tables { return_type: t, ..self }
    }

    /// The type that a type as written stands for: a name is looked up
    /// among the named types, anything else stands for itself.
    pub open spec fn resolve_type(self, t: TolTypeView, line: usize, column: usize) -> Result<
        TolTypeView,
        CompilerErrorView,
    > {
        match t {
            TolTypeView::UnknownIdentifier(id) => if self.types.dom().contains(id) {
                Ok(self.types[id].kind)
            } else {
                Err(
                    diagnostic(
                        "Hindi valid na tipo ang `"@ + id + "`"@,
                        ErrorKind::Error,
                        line,
                        column,
                    ),
                )
            },
            _ => Ok(t),
        }
    }

    /// What `left::field` names: a static member of the type that `left`
    /// names.
    pub open spec fn lookup_scope_resolution(
        self,
        left: ExprView,
        field: TokenView,
        line: usize,
        column: usize,
    ) -> Result<SymbolView, CompilerErrorView>
        decreases left,
    {
        match left {
            ExprView::Identifier { token, .. } => if !self.types.dom().contains(token.lexeme) {
                Err(
                    diagnostic(
                        "Hindi narehistro ang `"@ + token.lexeme + "`"@,
                        ErrorKind::Error,
                        line,
                        column,
                    ),
                )
            } else if !self.types[token.lexeme].static_members.dom().contains(field.lexeme) {
                Err(
                    diagnostic(
                        "Walang static na miyembro na `"@ + field.lexeme + "` ang `"@
                            + token.lexeme + "`"@,
                        ErrorKind::Error,
                        field.line,
                        field.column,
                    ),
                )
            } else {
                Ok(self.types[token.lexeme].static_members[field.lexeme])
            },
            ExprView::ScopeResolution { left: inner, field: inner_field, line: l, column: c, .. } => {
                self.lookup_scope_resolution(*inner, inner_field, l, c)
            },
            _ => Err(
                diagnostic("Hindi valid ang nasa kaliwa ng `::"@, ErrorKind::Error, line, column),
            ),
        }
    }
}

/// The type that an unannotated binding gets from the type of its value:
/// number literals get a width, also inside arrays.
pub open spec fn resolve_expr_type(t: TolTypeView) -> TolTypeView
    decreases t,
{
    match t {
        TolTypeView::UnsizedInt => TolTypeView::I32,
        TolTypeView::UnsizedFloat => TolTypeView::DobleTang,
        TolTypeView::Array(inner, len) => TolTypeView::Array(
            Box::new(resolve_expr_type(*inner)),
            len,
        ),
        _ => t,
    }
}

/// The list of array types with those of `t` added, innermost first: each
/// C name once, where the type has one.
pub open spec fn declare_array_types(arrays: Seq<Seq<char>>, t: TolTypeView) -> Seq<Seq<char>>
    decreases t,
{
    match t {
        TolTypeView::Array(inner, _) => {
            let with_inner = declare_array_types(arrays, *inner);
            match t.c_name() {
                Some(name) => if with_inner.contains(name) {
                    with_inner
                } else {
                    with_inner.push(name)
                },
                None => with_inner,
            }
        },
        _ => arrays,
    }
}

pub open spec fn arity_mismatch(line: usize, column: usize) -> CompilerErrorView {
    diagnostic(
        "Ang bilang ng argumento ay hindi pareho sa parameter"@,
        ErrorKind::Error,
        line,
        column,
    )
}

/// The first argument from `i` on that does not fit its parameter.
pub open spec fn first_misfit(args: Seq<TolTypeView>, params: Seq<TolTypeView>, i: int) -> Option<
    int,
>
    decreases args.len() - i,
{
    if i < 0 || i >= args.len() || i >= params.len() {
        None
    } else if !args[i].assignable_to(params[i]) {
        Some(i)
    } else {
        first_misfit(args, params, i + 1)
    }
}

/// Accepts a call with these argument types to these parameter types:
/// there are as many, and each argument fits its parameter.
pub open spec fn check_call(
    args: Seq<TolTypeView>,
    params: Seq<TolTypeView>,
    line: usize,
    column: usize,
) -> Result<(), CompilerErrorView> {
    if args.len() != params.len() {
        Err(arity_mismatch(line, column))
    } else {
        match first_misfit(args, params, 0) {
            Some(i) => Err(args[i].mismatch(params[i], line, column)),
            None => Ok(()),
        }
    }
}

/// The length of a byte string with its closing zero.
pub open spec fn byte_string_len(lexeme: Seq<char>) -> usize {
    let n = encode_utf8(lexeme).len() as usize;
    if n < usize::MAX {
        (n + 1) as usize
    } else {
        usize::MAX
    }
}

pub open spec fn rvalue_error(sign: Seq<char>, line: usize, column: usize) -> CompilerErrorView {
    diagnostic(
        "Hindi pwedeng rvalue ang nasa kanan ng `"@ + sign + "`"@,
        ErrorKind::Error,
        line,
        column,
    ).with_note(
        "Ang rvalue ay tumutukoy sa mga expresyon na makikita mo sa kanan ng assignment (`=`) pero hindi mo makikita sa kaliwa"@,
    ).with_note(
        "Ang halimbawa nito ay mga integer na literal (41, 67) o mga pagtawag ng paraan (tawag())"@,
    )
}

pub open spec fn range_note() -> Seq<char> {
    "Dapat ang simula at wakas ng `..` na operasyon ay may usukat na tipo"@
}

pub open spec fn not_mutable(name: Seq<char>, line: usize, column: usize) -> CompilerErrorView {
    diagnostic("Ang `"@ + name + "` ay hindi `maiba`"@, ErrorKind::Error, line, column).with_help(
        "Subukan mong lagyan ng `maiba` ang deklarasyon nito"@,
    )
}

pub open spec fn is_mutable_error(name: Seq<char>, line: usize, column: usize)
    -> CompilerErrorView {
    diagnostic("Ang `"@ + name + "` ay `maiba`"@, ErrorKind::Error, line, column).with_help(
        "Subukan mong tanggalin ang `maiba` sa deklarasyon nito"@,
    )
}

pub open spec fn empty_array(line: usize, column: usize) -> CompilerErrorView {
    diagnostic(
        "Hindi pwede ang walang laman na array kung walang ibinigay na sukat sa tipo"@,
        ErrorKind::Error,
        line,
        column,
    )
}

pub open spec fn string_unsupported(token: TokenView) -> CompilerErrorView {
    diagnostic(
        "Hindi pa suportado ang literal na sinulid"@,
        ErrorKind::Error,
        token.line,
        token.column,
    )
}

impl ExprView {
    /// The ends of a range and where it stands.
    pub open spec fn range_parts(self) -> Option<(ExprView, ExprView, usize, usize)> {
        match self {
            ExprView::RangeExclusive { start, end, line, column, .. } => Some(
                (*start, *end, line, column),
            ),
            ExprView::RangeInclusive { start, end, line, column, .. } => Some(
                (*start, *end, line, column),
            ),
            _ => None,
        }
    }
}

/// What an expression that names a place or something to call stands for.
pub open spec fn lookup_lvalue(t: Tables, lvalue: ExprView, line: usize, column: usize) -> Checked<
    SymbolView,
>
    decreases lvalue, 3nat,
{
    match lvalue {
        ExprView::Identifier { token, .. } => Checked {
            result: t.lookup_symbol(token.lexeme, token.line, token.column),
            tables: t,
        },
        ExprView::MemberAccess { left, member, line: l, column: c, .. } => lookup_member_access(
            t,
            *left,
            member,
            l,
            c,
        ),
        ExprView::ScopeResolution { left, field, line: l, column: c, .. } => Checked {
            result: t.lookup_scope_resolution(*left, field, l, c),
            tables: t,
        },
        _ => bad(diagnostic("Hindi ito pwedeng tawagin"@, ErrorKind::Error, line, column), t),
    }
}

/// What `left.member` names: a member of the type of `left`.
pub open spec fn lookup_member_access(
    t: Tables,
    left: ExprView,
    member: TokenView,
    line: usize,
    column: usize,
) -> Checked<SymbolView>
    decreases left, 2nat,
{
    let l = analyze_expression(t, left);
    match l.result {
        Err(e) => bad(e, l.tables),
        Ok(left_type) => if !l.tables.types.dom().contains(left_type.text()) {
            bad(
                diagnostic(
                    "Hindi nahanap ang tipong `"@ + left_type.text() + "` sa type table"@,
                    ErrorKind::Error,
                    line,
                    column,
                ),
                l.tables,
            )
        } else if !l.tables.types[left_type.text()].members.dom().contains(member.lexeme) {
            bad(
                diagnostic(
                    "Walang miyembro na `"@ + member.lexeme + "` ang `"@ + left_type.text()
                        + "`"@,
                    ErrorKind::Error,
                    line,
                    column,
                ),
                l.tables,
            )
        } else {
            good(l.tables.types[left_type.text()].members[member.lexeme], l.tables)
        },
    }
}

/// Accepts a place that is a variable declared `maiba`.
pub open spec fn ensure_lvalue_is_mutable(t: Tables, lvalue: ExprView, line: usize, column: usize)
    -> Checked<()>
    decreases lvalue, 4nat,
{
    let s = lookup_lvalue(t, lvalue, line, column);
    match s.result {
        Err(e) => bad(e, s.tables),
        Ok(SymbolView::Var { mutable, .. }) if mutable => good((), s.tables),
        Ok(symbol) => bad(not_mutable(symbol.name(), line, column), s.tables),
    }
}

/// Accepts a place that is a variable not declared `maiba`.
pub open spec fn ensure_lvalue_is_immutable(
    t: Tables,
    lvalue: ExprView,
    line: usize,
    column: usize,
) -> Checked<()>
    decreases lvalue, 4nat,
{
    let s = lookup_lvalue(t, lvalue, line, column);
    match s.result {
        Err(e) => bad(e, s.tables),
        Ok(SymbolView::Var { mutable, .. }) if !mutable => good((), s.tables),
        Ok(symbol) => bad(is_mutable_error(symbol.name(), line, column), s.tables),
    }
}

/// The types of the expressions from `i` on, after those in `acc`.
pub open spec fn analyze_all(t: Tables, es: Seq<ExprView>, i: int, acc: Seq<TolTypeView>)
    -> Checked<Seq<TolTypeView>>
    decreases es, es.len() - i,
{
    if i < 0 || i >= es.len() {
        good(acc, t)
    } else {
        let r = analyze_expression(t, es[i]);
        match r.result {
            Err(e) => bad(e, r.tables),
            Ok(ty) => analyze_all(r.tables, es, i + 1, acc.push(ty)),
        }
    }
}

/// The types of the values of the fields of a record literal from `i` on,
/// after those in `acc`.
pub open spec fn analyze_fields(
    t: Tables,
    fields: Seq<(TokenView, ExprView)>,
    i: int,
    acc: Seq<TolTypeView>,
) -> Checked<Seq<TolTypeView>>
    decreases fields, fields.len() - i,
{
    if i < 0 || i >= fields.len() {
        good(acc, t)
    } else {
        let r = analyze_expression(t, fields[i].1);
        match r.result {
            Err(e) => bad(e, r.tables),
            Ok(ty) => analyze_fields(r.tables, fields, i + 1, acc.push(ty)),
        }
    }
}

/// Checks the elements of an array literal from `i` on against the type of
/// the first.
pub open spec fn analyze_elements(t: Tables, es: Seq<ExprView>, i: int, first: TolTypeView, line: usize, column: usize)
    -> Checked<()>
    decreases es, es.len() - i,
{
    if i < 0 || i >= es.len() {
        good((), t)
    } else {
        let r = analyze_expression(t, es[i]);
        match r.result {
            Err(e) => bad(e, r.tables),
            Ok(ty) => if ty.assignable_to(first) {
                analyze_elements(r.tables, es, i + 1, first, line, column)
            } else {
                bad(ty.mismatch(first, line, column), r.tables)
            },
        }
    }
}

/// The type of an expression.
pub open spec fn analyze_expression(t: Tables, e: ExprView) -> Checked<TolTypeView>
    decreases e, 1nat,
{
    match e {
        ExprView::IntLit { .. } => good(TolTypeView::UnsizedInt, t),
        ExprView::FloatLit { .. } => good(TolTypeView::UnsizedFloat, t),
        ExprView::StringLit { token, .. } => bad(string_unsupported(token), t),
        ExprView::ByteStringLit { token, .. } => good(
            TolTypeView::Array(Box::new(TolTypeView::U8), Some(byte_string_len(token.lexeme))),
            t,
        ),
        ExprView::Identifier { token, .. } => match t.lookup_symbol(
            token.lexeme,
            token.line,
            token.column,
        ) {
            Err(err) => bad(err, t),
            Ok(s) => good(s.value_type(), t),
        },
        ExprView::Binary { .. } => analyze_binary(t, e),
        ExprView::Assign { .. } => analyze_assign(t, e),
        ExprView::FnCall { .. } => analyze_fncall(t, e),
        ExprView::MagicFnCall { .. } => analyze_magic_fncall(t, e),
        ExprView::MemberAccess { left, member, line, column, .. } => {
            let s = lookup_member_access(t, *left, member, line, column);
            match s.result {
                Err(err) => bad(err, s.tables),
                Ok(symbol) => good(symbol.value_type(), s.tables),
            }
        },
        ExprView::ScopeResolution { left, field, line, column, .. } => {
            match t.lookup_scope_resolution(*left, field, line, column) {
                Err(err) => bad(err, t),
                Ok(symbol) => good(symbol.value_type(), t),
            }
        },
        ExprView::Struct { .. } => analyze_struct_expr(t, e),
        ExprView::Array { .. } => analyze_array(t, e),
        ExprView::RangeExclusive { .. } => analyze_range(t, e),
        ExprView::RangeInclusive { .. } => analyze_range(t, e),
        ExprView::AddressOf { .. } => analyze_address_of(t, e),
        ExprView::MutableAddressOf { .. } => analyze_mutable_address_of(t, e),
        ExprView::Deref { .. } => analyze_deref(t, e),
    }
}

/// The type of `left op right`: that of the left operand, where `op` is one of
/// `+ - * /` and both operands are numbers of one sort.
pub open spec fn analyze_binary(t: Tables, e: ExprView) -> Checked<TolTypeView>
    decreases e, 0nat,
{
    match e {
        ExprView::Binary { op, left, right, .. } => if op.kind == TokenKind::Plus || op.kind
            == TokenKind::Minus || op.kind == TokenKind::Star || op.kind == TokenKind::Slash {
            let l = analyze_expression(t, *left);
            match l.result {
                Err(err) => bad(err, l.tables),
                Ok(left_type) => {
                    let r = analyze_expression(l.tables, *right);
                    match r.result {
                        Err(err) => bad(err, r.tables),
                        Ok(right_type) => if !left_type.arithmetic_compatible(right_type) {
                            bad(
                                diagnostic(
                                    "Hindi pwede gawin ang `"@ + op.lexeme + "` na operasyon sa `"@
                                        + left_type.text() + "` at `"@ + right_type.text() + "`"@,
                                    ErrorKind::Error,
                                    op.line,
                                    op.column,
                                ),
                                r.tables,
                            )
                        } else {
                            good(left_type, r.tables)
                        },
                    }
                },
            }
        } else {
            bad(
                diagnostic(
                    "Hindi tamang operator `"@ + op.lexeme + "`"@,
                    ErrorKind::Error,
                    op.line,
                    op.column,
                ),
                t,
            )
        },
        _ => good(TolTypeView::Unknown, t),
    }
}

/// The type of an assignment, which is `wala`: the place has to be one that can
/// be assigned to, and the value has to fit it.
pub open spec fn analyze_assign(t: Tables, e: ExprView) -> Checked<TolTypeView>
    decreases e, 0nat,
{
    match e {
        ExprView::Assign { left, right, line, column, .. } => if !left.is_lvalue() {
            bad(
                diagnostic(
                    "Ang nasa kaliwa ng `=` ay hindi isang lvalue"@,
                    ErrorKind::Error,
                    line,
                    column,
                ),
                t,
            )
        } else {
            let m = ensure_lvalue_is_mutable(t, *left, line, column);
            match m.result {
                Err(err) => bad(err, m.tables),
                Ok(_) => {
                    let l = analyze_expression(m.tables, *left);
                    match l.result {
                        Err(err) => bad(err, l.tables),
                        Ok(left_type) => {
                            let r = analyze_expression(l.tables, *right);
                            match r.result {
                                Err(err) => bad(err, r.tables),
                                Ok(right_type) => if right_type.assignable_to(left_type) {
                                    good(TolTypeView::Wala, r.tables)
                                } else {
                                    bad(right_type.mismatch(left_type, line, column), r.tables)
                                },
                            }
                        },
                    }
                },
            }
        },
        _ => good(TolTypeView::Unknown, t),
    }
}

/// The type of a call: what the function or method returns. A method called on
/// a value gets the value as its first argument.
pub open spec fn analyze_fncall(t: Tables, e: ExprView) -> Checked<TolTypeView>
    decreases e, 0nat,
{
    match e {
        ExprView::FnCall { callee, args, line, column, .. } => {
            let a = analyze_all(t, args, 0, Seq::empty());
            match a.result {
                Err(err) => bad(err, a.tables),
                Ok(arg_types) => {
                    let receiver = match *callee {
                        ExprView::MemberAccess { left, .. } => {
                            let l = analyze_expression(a.tables, *left);
                            match l.result {
                                Err(err) => bad::<Seq<TolTypeView>>(err, l.tables),
                                Ok(left_type) => good(arg_types.insert(0, left_type), l.tables),
                            }
                        },
                        _ => good(arg_types, a.tables),
                    };
                    match receiver.result {
                        Err(err) => bad(err, receiver.tables),
                        Ok(all_types) => {
                            let c = lookup_lvalue(receiver.tables, *callee, line, column);
                            match c.result {
                                Err(err) => bad(err, c.tables),
                                Ok(SymbolView::Paraan { param_types, return_type, .. }) => {
                                    match check_call(all_types, param_types, line, column) {
                                        Err(err) => bad(err, c.tables),
                                        Ok(_) => good(return_type, c.tables),
                                    }
                                },
                                Ok(SymbolView::Method { param_types, return_type, .. }) => {
                                    match check_call(all_types, param_types, line, column) {
                                        Err(err) => bad(err, c.tables),
                                        Ok(_) => good(return_type, c.tables),
                                    }
                                },
                                Ok(_) => bad(
                                    diagnostic(
                                        "Invalid ang tigatawag ng paraan"@,
                                        ErrorKind::Error,
                                        line,
                                        column,
                                    ),
                                    c.tables,
                                ),
                            }
                        },
                    }
                },
            }
        },
        _ => good(TolTypeView::Unknown, t),
    }
}

/// The type of a call of something that the language itself provides.
pub open spec fn analyze_magic_fncall(t: Tables, e: ExprView) -> Checked<TolTypeView>
    decreases e, 0nat,
{
    match e {
        ExprView::MagicFnCall { name, args, .. } => {
            let a = analyze_all(t, args, 0, Seq::empty());
            match a.result {
                Err(err) => bad(err, a.tables),
                Ok(arg_types) => match a.tables.lookup_symbol(name.lexeme, name.line, name.column) {
                    Err(err) => bad(err, a.tables),
                    Ok(SymbolView::Paraan { param_types, return_type, .. }) => match check_call(
                        arg_types,
                        param_types,
                        name.line,
                        name.column,
                    ) {
                        Err(err) => bad(err, a.tables),
                        Ok(_) => good(return_type, a.tables),
                    },
                    Ok(_) => bad(
                        diagnostic(
                            "Hindi nahanap ang `"@ + name.lexeme + "`"@,
                            ErrorKind::Error,
                            name.line,
                            name.column,
                        ),
                        a.tables,
                    ),
                },
            }
        },
        _ => good(TolTypeView::Unknown, t),
    }
}

/// The type of a record literal: the record.
pub open spec fn analyze_struct_expr(t: Tables, e: ExprView) -> Checked<TolTypeView>
    decreases e, 0nat,
{
    match e {
        ExprView::Struct { callee, fields, line, column, .. } => {
            let f = analyze_fields(t, fields, 0, Seq::empty());
            match f.result {
                Err(err) => bad(err, f.tables),
                Ok(field_types) => {
                    let c = match *callee {
                        ExprView::Identifier { .. } => lookup_lvalue(f.tables, *callee, line, column),
                        ExprView::MemberAccess { .. } => lookup_lvalue(
                            f.tables,
                            *callee,
                            line,
                            column,
                        ),
                        ExprView::ScopeResolution { .. } => lookup_lvalue(
                            f.tables,
                            *callee,
                            line,
                            column,
                        ),
                        _ => bad(
                            diagnostic(
                                "Hindi ito pwede i-construct"@,
                                ErrorKind::Error,
                                line,
                                column,
                            ),
                            f.tables,
                        ),
                    };
                    match c.result {
                        Err(err) => bad(err, c.tables),
                        Ok(SymbolView::Bagay { name }) => match check_record(
                            c.tables.types,
                            name,
                            fields,
                            field_types,
                            line,
                            column,
                        ) {
                            Err(err) => bad(err, c.tables),
                            Ok(_) => good(TolTypeView::Bagay(name), c.tables),
                        },
                        Ok(_) => bad(not_a_record(line, column), c.tables),
                    }
                },
            }
        },
        _ => good(TolTypeView::Unknown, t),
    }
}

/// The type of an array literal, which is recorded for its node: an array of as
/// many elements as it has, of the type of the first.
pub open spec fn analyze_array(t: Tables, e: ExprView) -> Checked<TolTypeView>
    decreases e, 0nat,
{
    match e {
        ExprView::Array { elements, line, column, id } => if elements.len() == 0 {
            bad(empty_array(line, column), t)
        } else {
            let first = analyze_expression(t, elements[0]);
            match first.result {
                Err(err) => bad(err, first.tables),
                Ok(assumed) => {
                    let rest = analyze_elements(first.tables, elements, 1, assumed, line, column);
                    match rest.result {
                        Err(err) => bad(err, rest.tables),
                        Ok(_) => {
                            let resulting = TolTypeView::Array(
                                Box::new(assumed),
                                Some(elements.len() as usize),
                            );
                            good(resulting, rest.tables.record(id, resulting))
                        },
                    }
                },
            }
        },
        _ => good(TolTypeView::Unknown, t),
    }
}

/// The type of `&place`.
pub open spec fn analyze_address_of(t: Tables, e: ExprView) -> Checked<TolTypeView>
    decreases e, 0nat,
{
    match e {
        ExprView::AddressOf { of, line, column, .. } => if !of.is_lvalue() {
            bad(rvalue_error("&"@, line, column), t)
        } else {
            let o = analyze_expression(t, *of);
            match o.result {
                Err(err) => bad(err, o.tables),
                Ok(of_type) => good(TolTypeView::Pointer(Box::new(of_type)), o.tables),
            }
        },
        _ => good(TolTypeView::Unknown, t),
    }
}

/// The type of `&maiba place`.
pub open spec fn analyze_mutable_address_of(t: Tables, e: ExprView) -> Checked<TolTypeView>
    decreases e, 0nat,
{
    match e {
        ExprView::MutableAddressOf { of, line, column, .. } => if !of.is_lvalue() {
            bad(rvalue_error("&"@, line, column), t)
        } else {
            let m = ensure_lvalue_is_mutable(t, *of, line, column);
            match m.result {
                Err(err) => bad(err, m.tables),
                Ok(_) => {
                    let o = analyze_expression(m.tables, *of);
                    match o.result {
                        Err(err) => bad(err, o.tables),
                        Ok(of_type) => good(
                            TolTypeView::MutablePointer(Box::new(of_type)),
                            o.tables,
                        ),
                    }
                },
            }
        },
        _ => good(TolTypeView::Unknown, t),
    }
}

/// The type of `*place`.
pub open spec fn analyze_deref(t: Tables, e: ExprView) -> Checked<TolTypeView>
    decreases e, 0nat,
{
    match e {
        ExprView::Deref { right, line, column, .. } => if !right.is_lvalue() {
            bad(rvalue_error("*"@, line, column), t)
        } else {
            let r = analyze_expression(t, *right);
            match r.result {
                Err(err) => bad(err, r.tables),
                Ok(TolTypeView::Pointer(inner)) => good(*inner, r.tables),
                Ok(right_type) => bad(
                    diagnostic(
                        "Ang nasa kanan ng `*` ay hindi isang pointer, kundi ito ay `"@
                            + right_type.text() + "`"@,
                        ErrorKind::Error,
                        line,
                        column,
                    ),
                    r.tables,
                ),
            }
        },
        _ => good(TolTypeView::Unknown, t),
    }
}

/// The type of a range: both ends have to fit `usukat`, which is the type
/// of the range.
pub open spec fn analyze_range(t: Tables, range: ExprView) -> Checked<TolTypeView>
    decreases range, 0nat,
{
    match range.range_parts() {
        None => good(TolTypeView::USukat, t),
        Some((start, end, line, column)) => {
            let l = analyze_expression(t, start);
            match l.result {
                Err(err) => bad(err, l.tables),
                Ok(left_type) => {
                    let r = analyze_expression(l.tables, end);
                    match r.result {
                        Err(err) => bad(err, r.tables),
                        Ok(right_type) => if !left_type.assignable_to(TolTypeView::USukat) {
                            bad(
                                left_type.mismatch(TolTypeView::USukat, line, column).with_note(
                                    range_note(),
                                ),
                                r.tables,
                            )
                        } else if !right_type.assignable_to(TolTypeView::USukat) {
                            bad(
                                right_type.mismatch(TolTypeView::USukat, line, column).with_note(
                                    range_note(),
                                ),
                                r.tables,
                            )
                        } else {
                            good(TolTypeView::USukat, r.tables)
                        },
                    }
                },
            }
        },
    }
}

pub open spec fn not_a_record(line: usize, column: usize) -> CompilerErrorView {
    diagnostic("Hindi pwede i-construct ang hindi bagay"@, ErrorKind::Error, line, column)
}

pub open spec fn field_count_mismatch(name: Seq<char>, line: usize, column: usize)
    -> CompilerErrorView {
    diagnostic(
        "Ang bilang ng field ay hindi pareho sa deklarasyon ng `"@ + name + "`"@,
        ErrorKind::Error,
        line,
        column,
    )
}

/// The first field of a record literal from `i` on that the record does
/// not have, or whose value does not fit.
pub open spec fn first_bad_field(
    members: Map<Seq<char>, SymbolView>,
    record: Seq<char>,
    fields: Seq<(TokenView, ExprView)>,
    types: Seq<TolTypeView>,
    i: int,
) -> Option<CompilerErrorView>
    decreases fields.len() - i,
{
    if i < 0 || i >= fields.len() || i >= types.len() {
        None
    } else {
        let tok = fields[i].0;
        if !members.dom().contains(tok.lexeme) {
            Some(
                diagnostic(
                    "Walang field na `"@ + tok.lexeme + "` ang `"@ + record + "`"@,
                    ErrorKind::Error,
                    tok.line,
                    tok.column,
                ),
            )
        } else {
            match members[tok.lexeme] {
                SymbolView::Var { tol_type, .. } => if types[i].assignable_to(tol_type) {
                    first_bad_field(members, record, fields, types, i + 1)
                } else {
                    Some(types[i].mismatch(tol_type, tok.line, tok.column))
                },
                _ => Some(
                    diagnostic(
                        "Hindi field ang `"@ + tok.lexeme + "`"@,
                        ErrorKind::Error,
                        tok.line,
                        tok.column,
                    ),
                ),
            }
        }
    }
}

/// Accepts a record literal: the record is a named type, the literal has as
/// many fields as the record, and each is a field of the record whose type
/// the value fits.
pub open spec fn check_record(
    types: Map<Seq<char>, TypeInfoView>,
    name: Seq<char>,
    fields: Seq<(TokenView, ExprView)>,
    field_types: Seq<TolTypeView>,
    line: usize,
    column: usize,
) -> Result<(), CompilerErrorView> {
    if !types.dom().contains(name) {
        Err(not_a_record(line, column))
    } else if fields.len() != field_count(types[name].members) {
        Err(field_count_mismatch(name, line, column))
    } else {
        match first_bad_field(types[name].members, name, fields, field_types, 0) {
            Some(e) => Err(e),
            None => Ok(()),
        }
    }
}

} // verus!
