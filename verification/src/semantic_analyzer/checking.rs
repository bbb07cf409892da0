//! What analysing statements and a whole program gives, as mathematics.

use vstd::prelude::*;
use crate::error::{CompilerErrorView, ErrorKind, diagnostic};
use crate::lexer::token::TokenView;
use crate::parser::ast::expr::ExprView;
use crate::parser::ast::stmt::{KungBranchView, StmtView};
use crate::semantic_analyzer::typing::{
    Checked, Scope, Tables, already_declared, analyze_expression, bad, declare_array_types, good,
    resolve_expr_type,
};
use crate::symbol::SymbolView;
use crate::toltype::TolTypeView;
use crate::toltype::type_info::{TypeInfoView, bare_type};

verus! {

/// A name with its type.
pub type TypedName = (TokenView, TolTypeView);

/// The scope of what the language itself provides.
pub open spec fn intrinsics() -> Scope {
    let bytes = TolTypeView::Array(Box::new(TolTypeView::U8), None);
    Map::<Seq<char>, SymbolView>::empty().insert(
        "print"@,
        SymbolView::Paraan {
            name: "print"@,
            param_types: seq![bytes],
            return_type: TolTypeView::Wala,
        },
    ).insert(
        "println"@,
        SymbolView::Paraan {
            name: "println"@,
            param_types: seq![bytes],
            return_type: TolTypeView::Wala,
        },
    ).insert(
        "alis"@,
        SymbolView::Paraan {
            name: "alis"@,
            param_types: seq![TolTypeView::I32],
            return_type: TolTypeView::Wala,
        },
    )
}

/// The named types that the language itself provides.
pub open spec fn primitive_types() -> Map<Seq<char>, TypeInfoView> {
    Map::<Seq<char>, TypeInfoView>::empty().insert("i8"@, bare_type(TolTypeView::I8)).insert(
        "i16"@,
        bare_type(TolTypeView::I16),
    ).insert("i32"@, bare_type(TolTypeView::I32)).insert("i64"@, bare_type(TolTypeView::I64)).insert(
        "isukat"@,
        bare_type(TolTypeView::ISukat),
    ).insert("u8"@, bare_type(TolTypeView::U8)).insert("u16"@, bare_type(TolTypeView::U16)).insert(
        "u32"@,
        bare_type(TolTypeView::U32),
    ).insert("u64"@, bare_type(TolTypeView::U64)).insert(
        "usukat"@,
        bare_type(TolTypeView::USukat),
    ).insert("lutang"@, bare_type(TolTypeView::Lutang)).insert(
        "dobletang"@,
        bare_type(TolTypeView::DobleTang),
    ).insert("bool"@, bare_type(TolTypeView::Bool)).insert("kar"@, bare_type(TolTypeView::Kar))
}

/// The tables before anything of the program is analysed.
pub open spec fn base_tables() -> Tables {
    Tables {
        scopes: seq![intrinsics()],
        types: primitive_types(),
        inferred: Map::empty(),
        arrays: Seq::empty(),
        return_type: TolTypeView::Unknown,
    }
}

/// The type of an unannotated binding, from its value: the type is
/// recorded for the node `id`.
pub open spec fn infer_type(t: Tables, e: ExprView, id: usize) -> Checked<TolTypeView> {
    let r = analyze_expression(t, e);
    match r.result {
        Err(err) => bad(err, r.tables),
        Ok(ty) => good(resolve_expr_type(ty), r.tables.record(id, resolve_expr_type(ty))),
    }
}

/// The parameters from `i` on with their types resolved, after those in
/// `acc`. `ako` stands for `receiver` where there is one.
pub open spec fn resolve_params(
    t: Tables,
    params: Seq<TypedName>,
    receiver: Option<TolTypeView>,
    i: int,
    acc: Seq<TypedName>,
) -> Result<Seq<TypedName>, CompilerErrorView>
    decreases params.len() - i,
{
    if i < 0 || i >= params.len() {
        Ok(acc)
    } else {
        let (tok, ty) = params[i];
        if ty is AkoType && receiver is Some {
            resolve_params(t, params, receiver, i + 1, acc.push((tok, receiver.unwrap())))
        } else {
            match t.resolve_type(ty, tok.line, tok.column) {
                Err(e) => Err(e),
                Ok(resolved) => resolve_params(t, params, receiver, i + 1, acc.push((tok, resolved))),
            }
        }
    }
}

/// The types of a list of names with types.
pub open spec fn types_of(params: Seq<TypedName>) -> Seq<TolTypeView> {
    params.map_values(|p: TypedName| p.1)
}

/// Declares the names from `i` on as variables that cannot be assigned to.
pub open spec fn declare_names(t: Tables, names: Seq<TypedName>, i: int) -> Checked<()>
    decreases names.len() - i,
{
    if i < 0 || i >= names.len() {
        good((), t)
    } else {
        let (tok, ty) = names[i];
        if t.can_declare(tok.lexeme) {
            declare_names(
                t.declare(
                    tok.lexeme,
                    SymbolView::Var { name: tok.lexeme, mutable: false, tol_type: ty },
                ),
                names,
                i + 1,
            )
        } else {
            bad(already_declared(tok), t)
        }
    }
}

/// Declaring names changes the innermost scope only.
pub proof fn lemma_declare_names_frame(t: Tables, names: Seq<TypedName>, i: int)
    ensures
        ({
            let r = declare_names(t, names, i).tables;
            &&& r.scopes.len() == t.scopes.len()
            &&& r.scopes.drop_last() == t.scopes.drop_last()
            &&& r.types == t.types
            &&& r.inferred == t.inferred
            &&& r.arrays == t.arrays
            &&& r.return_type == t.return_type
        }),
    decreases names.len() - i,
{
    if i < 0 || i >= names.len() {
    } else {
        let (tok, ty) = names[i];
        if t.can_declare(tok.lexeme) {
            let next = t.declare(
                tok.lexeme,
                SymbolView::Var { name: tok.lexeme, mutable: false, tol_type: ty },
            );
            lemma_declare_names_frame(next, names, i + 1);
            assert(next.scopes.drop_last() =~= t.scopes.drop_last());
        }
    }
}

/// Names that are declared in a scope of their own are gone with it.
pub proof fn lemma_declare_names_in_scope(t: Tables, names: Seq<TypedName>)
    ensures
        declare_names(t.enter_scope(), names, 0).tables.exit_scope() == t,
{
    lemma_declare_names_frame(t.enter_scope(), names, 0);
    assert(t.enter_scope().scopes.drop_last() =~= t.scopes);
}

/// The body of a function or method, in a scope of its own that holds the
/// parameters. The return type holds for the body only.
pub open spec fn analyze_function(
    t: Tables,
    params: Seq<TypedName>,
    return_type: TolTypeView,
    block: StmtView,
) -> Checked<()>
    decreases block, 2nat,
{
    let declared = declare_names(t.enter_scope(), params, 0);
    match declared.result {
        Err(e) => bad(e, declared.tables.exit_scope()),
        Ok(_) => {
            let body = analyze_stmt(declared.tables.returning(return_type), block);
            Checked {
                result: body.result,
                tables: body.tables.exit_scope().returning(t.return_type),
            }
        },
    }
}

/// A function: its name is declared where the function stands, then its
/// body is analysed.
pub open spec fn analyze_par(
    t: Tables,
    name: TokenView,
    params: Seq<TypedName>,
    return_type: TolTypeView,
    block: StmtView,
) -> Checked<()>
    decreases block, 3nat,
{
    match resolve_params(t, params, None, 0, Seq::empty()) {
        Err(e) => bad(e, t),
        Ok(resolved) => match t.resolve_type(return_type, name.line, name.column) {
            Err(e) => bad(e, t),
            Ok(resolved_return) => if !t.can_declare(name.lexeme) {
                bad(already_declared(name), t)
            } else {
                analyze_function(
                    t.declare(
                        name.lexeme,
                        SymbolView::Paraan {
                            name: name.lexeme,
                            param_types: types_of(resolved),
                            return_type: resolved_return,
                        },
                    ),
                    resolved,
                    resolved_return,
                    block,
                )
            },
        },
    }
}

/// A method of the type `receiver`: what it stands for, once its body is
/// analysed.
pub open spec fn analyze_method(
    t: Tables,
    receiver: TolTypeView,
    is_static: bool,
    name: TokenView,
    params: Seq<TypedName>,
    return_type: TolTypeView,
    block: StmtView,
) -> Checked<SymbolView>
    decreases block, 3nat,
{
    match resolve_params(t, params, Some(receiver), 0, Seq::empty()) {
        Err(e) => bad(e, t),
        Ok(resolved) => {
            let symbol = SymbolView::Method {
                is_static,
                name: name.lexeme,
                param_types: types_of(resolved),
                return_type,
            };
            if !t.can_declare(name.lexeme) {
                bad(already_declared(name), t)
            } else {
                let body = analyze_function(
                    t.declare(name.lexeme, symbol),
                    resolved,
                    return_type,
                    block,
                );
                match body.result {
                    Err(e) => bad(e, body.tables),
                    Ok(_) => good(symbol, body.tables),
                }
            }
        },
    }
}

/// The type of a binding: the one written, resolved, or the one inferred
/// from the value where none is written.
pub open spec fn binding_type(
    t: Tables,
    ang_type: TolTypeView,
    rhs: ExprView,
    line: usize,
    column: usize,
    id: usize,
) -> Checked<TolTypeView> {
    if ang_type is Unknown {
        infer_type(t, rhs, id)
    } else {
        Checked { result: t.resolve_type(ang_type, line, column), tables: t }
    }
}

/// The type of the value of a binding whose type is `ty`, once the array
/// types of `ty` are noted.
pub open spec fn binding_value(typed: Tables, ty: TolTypeView, rhs: ExprView) -> Checked<
    TolTypeView,
> {
    analyze_expression(Tables { arrays: declare_array_types(typed.arrays, ty), ..typed }, rhs)
}

/// A binding: the value has to fit the type of the binding; then the name
/// is declared with that type.
pub open spec fn analyze_ang(
    t: Tables,
    mutable: bool,
    name: TokenView,
    ang_type: TolTypeView,
    rhs: ExprView,
    line: usize,
    column: usize,
    id: usize,
) -> Checked<()> {
    let typed = binding_type(t, ang_type, rhs, line, column, id);
    match typed.result {
        Err(e) => bad(e, typed.tables),
        Ok(ty) => {
            let value = binding_value(typed.tables, ty, rhs);
            match value.result {
                Err(e) => bad(e, value.tables),
                Ok(rhs_type) => if !rhs_type.assignable_to(ty) {
                    bad(rhs_type.mismatch(ty, line, column), value.tables)
                } else if !value.tables.can_declare(name.lexeme) {
                    bad(already_declared(name), value.tables)
                } else {
                    good(
                        (),
                        value.tables.declare(
                            name.lexeme,
                            SymbolView::Var { name: name.lexeme, mutable, tol_type: ty },
                        ),
                    )
                },
            }
        },
    }
}

/// Wherever a binding is accepted, its value fits its type: the type of
/// the value may be assigned to the type of the binding, and the name
/// stands for a variable of that type afterwards.
pub proof fn lemma_accepted_binding_fits(
    t: Tables,
    mutable: bool,
    name: TokenView,
    ang_type: TolTypeView,
    rhs: ExprView,
    line: usize,
    column: usize,
    id: usize,
)
    requires
        analyze_ang(t, mutable, name, ang_type, rhs, line, column, id).result is Ok,
    ensures
        ({
            let typed = binding_type(t, ang_type, rhs, line, column, id);
            let after = analyze_ang(t, mutable, name, ang_type, rhs, line, column, id).tables;
            &&& typed.result is Ok
            &&& binding_value(typed.tables, typed.result->Ok_0, rhs).result is Ok
            &&& binding_value(typed.tables, typed.result->Ok_0, rhs).result->Ok_0.assignable_to(
                typed.result->Ok_0,
            )
            &&& after.lookup_symbol(name.lexeme, line, column) == Ok::<
                SymbolView,
                CompilerErrorView,
            >(SymbolView::Var { name: name.lexeme, mutable, tol_type: typed.result->Ok_0 })
        }),
{
    let typed = binding_type(t, ang_type, rhs, line, column, id);
    let value = binding_value(typed.tables, typed.result->Ok_0, rhs);
    let after = analyze_ang(t, mutable, name, ang_type, rhs, line, column, id).tables;
    assert(after.scopes.last().dom().contains(name.lexeme));
    reveal_with_fuel(crate::semantic_analyzer::typing::lookup, 2);
}

pub open spec fn return_outside(line: usize, column: usize) -> CompilerErrorView {
    diagnostic("Hindi pwede magbalik sa labas ng paraan"@, ErrorKind::Error, line, column)
}

/// A return: allowed inside a function only, with a value that fits what
/// the function returns.
pub open spec fn analyze_ibalik(t: Tables, rhs: ExprView, line: usize, column: usize) -> Checked<
    (),
> {
    let value = analyze_expression(t, rhs);
    match value.result {
        Err(e) => bad(e, value.tables),
        Ok(ty) => if value.tables.return_type is Unknown {
            bad(return_outside(line, column), value.tables)
        } else if !ty.assignable_to(value.tables.return_type) {
            bad(ty.mismatch(value.tables.return_type, line, column), value.tables)
        } else {
            good((), value.tables)
        },
    }
}

pub open spec fn type_exists(name: TokenView) -> CompilerErrorView {
    diagnostic(
        "Hindi marehistro ang `"@ + name.lexeme + "` dahil may ganitong tipo na"@,
        ErrorKind::Error,
        name.line,
        name.column,
    )
}

pub open spec fn holds_itself(record: Seq<char>, field: TokenView) -> CompilerErrorView {
    diagnostic(
        "Ang `"@ + record + "` ay hindi maaaring maglaman ng sarili nito nang direkta"@,
        ErrorKind::Error,
        field.line,
        field.column,
    )
}

pub open spec fn no_such_type(name: Seq<char>, line: usize, column: usize) -> CompilerErrorView {
    diagnostic("Hindi valid na tipo ang `"@ + name + "`"@, ErrorKind::Error, line, column)
}

/// Declares a record: its name, and its type without members yet.
pub open spec fn declare_bagay(t: Tables, name: TokenView) -> Checked<()> {
    if !t.can_declare(name.lexeme) {
        bad(already_declared(name), t)
    } else {
        let declared = t.declare(name.lexeme, SymbolView::Bagay { name: name.lexeme });
        if declared.types.dom().contains(name.lexeme) {
            bad(type_exists(name), declared)
        } else {
            good(
                (),
                Tables {
                    types: declared.types.insert(
                        name.lexeme,
                        bare_type(TolTypeView::Bagay(name.lexeme)),
                    ),
                    ..declared
                },
            )
        }
    }
}

/// The members of a record with the fields from `i` on added. A field
/// whose type is the record itself stops it.
pub open spec fn add_fields(
    members: Map<Seq<char>, SymbolView>,
    record: Seq<char>,
    fields: Seq<TypedName>,
    i: int,
) -> (Map<Seq<char>, SymbolView>, Option<CompilerErrorView>)
    decreases fields.len() - i,
{
    if i < 0 || i >= fields.len() {
        (members, None)
    } else {
        let (tok, ty) = fields[i];
        if ty == TolTypeView::Bagay(record) {
            (members, Some(holds_itself(record, tok)))
        } else {
            add_fields(
                members.insert(
                    tok.lexeme,
                    SymbolView::Var { name: tok.lexeme, mutable: false, tol_type: ty },
                ),
                record,
                fields,
                i + 1,
            )
        }
    }
}

/// Gives a declared record its fields: their types have to be valid and
/// their names different, and none may hold the record itself.
pub open spec fn define_fields(t: Tables, name: TokenView, fields: Seq<TypedName>) -> Checked<()> {
    match resolve_params(t, fields, None, 0, Seq::empty()) {
        Err(e) => bad(e, t),
        Ok(resolved) => {
            let unique = declare_names(t.enter_scope(), resolved, 0);
            match unique.result {
                Err(e) => bad(e, t),
                Ok(_) => if !t.types.dom().contains(name.lexeme) {
                    bad(no_such_type(name.lexeme, name.line, name.column), t)
                } else {
                    let info = t.types[name.lexeme];
                    let (members, stopped) = add_fields(info.members, name.lexeme, resolved, 0);
                    let after = Tables {
                        types: t.types.insert(name.lexeme, TypeInfoView { members, ..info }),
                        ..t
                    };
                    match stopped {
                        Some(e) => bad(e, after),
                        None => good((), after),
                    }
                },
            }
        },
    }
}

/// A record: declared, then given its fields.
pub open spec fn analyze_bagay(t: Tables, name: TokenView, fields: Seq<TypedName>) -> Checked<()> {
    let declared = declare_bagay(t, name);
    match declared.result {
        Err(e) => bad(e, declared.tables),
        Ok(_) => define_fields(declared.tables, name, fields),
    }
}

/// The methods from `i` on, analysed one after the other; what each
/// stands for is added to `acc`. What is no method is passed over.
pub open spec fn analyze_methods(
    t: Tables,
    receiver: TolTypeView,
    methods: Seq<StmtView>,
    i: int,
    acc: Seq<SymbolView>,
) -> Checked<Seq<SymbolView>>
    decreases methods, methods.len() - i,
{
    if i < 0 || i >= methods.len() {
        good(acc, t)
    } else {
        match methods[i] {
            StmtView::Method { is_static, met_identifier, params, return_type, block, .. } => {
                let m = analyze_method(
                    t,
                    receiver,
                    is_static,
                    met_identifier,
                    params,
                    return_type,
                    *block,
                );
                match m.result {
                    Err(e) => bad(e, m.tables),
                    Ok(symbol) => analyze_methods(m.tables, receiver, methods, i + 1, acc.push(symbol)),
                }
            },
            _ => analyze_methods(t, receiver, methods, i + 1, acc),
        }
    }
}

pub open spec fn method_exists(method: Seq<char>, ty: Seq<char>, line: usize, column: usize)
    -> CompilerErrorView {
    diagnostic(
        "May paraan na na `"@ + method + "` ang tipong `"@ + ty + "`"@,
        ErrorKind::Error,
        line,
        column,
    )
}

/// The entry of a type with the methods from `i` on attached: static ones
/// to its static members, the others to its members. A name that is taken
/// stops it.
pub open spec fn attach_methods(
    info: TypeInfoView,
    ty: Seq<char>,
    methods: Seq<SymbolView>,
    i: int,
    line: usize,
    column: usize,
) -> (TypeInfoView, Option<CompilerErrorView>)
    decreases methods.len() - i,
{
    if i < 0 || i >= methods.len() {
        (info, None)
    } else {
        match methods[i] {
            SymbolView::Method { is_static, name, .. } => if is_static {
                if info.static_members.dom().contains(name) {
                    (info, Some(method_exists(name, ty, line, column)))
                } else {
                    attach_methods(
                        TypeInfoView {
                            static_members: info.static_members.insert(name, methods[i]),
                            ..info
                        },
                        ty,
                        methods,
                        i + 1,
                        line,
                        column,
                    )
                }
            } else {
                if info.members.dom().contains(name) {
                    (info, Some(method_exists(name, ty, line, column)))
                } else {
                    attach_methods(
                        TypeInfoView { members: info.members.insert(name, methods[i]), ..info },
                        ty,
                        methods,
                        i + 1,
                        line,
                        column,
                    )
                }
            },
            _ => attach_methods(info, ty, methods, i + 1, line, column),
        }
    }
}

pub open spec fn type_not_declared(ty: Seq<char>, line: usize, column: usize)
    -> CompilerErrorView {
    diagnostic("Ang tipong "@ + ty + " ay hindi pa na-ideklara"@, ErrorKind::Error, line, column)
}

/// Attaches methods to the type that is named `ty`, which has to be
/// declared.
pub open spec fn attach_to_type(
    t: Tables,
    ty: Seq<char>,
    methods: Seq<SymbolView>,
    line: usize,
    column: usize,
) -> Checked<()> {
    if !t.types.dom().contains(ty) {
        bad(type_not_declared(ty, line, column), t)
    } else {
        let (info, stopped) = attach_methods(t.types[ty], ty, methods, 0, line, column);
        let attached = Tables { types: t.types.insert(ty, info), ..t };
        match stopped {
            Some(e) => bad(e, attached),
            None => good((), attached),
        }
    }
}

/// An `itupad`: its methods are analysed in a scope of their own, then
/// attached to the type.
pub open spec fn analyze_itupad(
    t: Tables,
    itupad_for: TolTypeView,
    block: StmtView,
    line: usize,
    column: usize,
) -> Checked<()>
    decreases block, 4nat,
{
    let inside = t.enter_scope();
    match inside.resolve_type(itupad_for, line, column) {
        Err(e) => bad(e, t),
        Ok(receiver) => {
            let analyzed = match block {
                StmtView::ItupadBlock { methods, .. } => analyze_methods(
                    inside,
                    receiver,
                    methods,
                    0,
                    Seq::empty(),
                ),
                _ => good(Seq::empty(), inside),
            };
            match analyzed.result {
                Err(e) => bad(e, analyzed.tables.exit_scope()),
                Ok(symbols) => attach_to_type(
                    analyzed.tables.exit_scope(),
                    receiver.text(),
                    symbols,
                    line,
                    column,
                ),
            }
        },
    }
}

/// The branches of a conditional from `i` on.
pub open spec fn analyze_branches(t: Tables, branches: Seq<KungBranchView>, i: int) -> Checked<()>
    decreases branches, branches.len() - i,
{
    if i < 0 || i >= branches.len() {
        good((), t)
    } else {
        let cond = match branches[i].condition {
            Some(c) => analyze_expression(t, c),
            None => good(TolTypeView::Wala, t),
        };
        match cond.result {
            Err(e) => bad(e, cond.tables),
            Ok(_) => {
                let body = analyze_stmt(cond.tables, branches[i].block);
                match body.result {
                    Err(e) => bad(e, body.tables),
                    Ok(_) => analyze_branches(body.tables, branches, i + 1),
                }
            },
        }
    }
}

/// A loop over an iterator: the bound name gets the inferred type of the
/// iterator, in a scope that holds the body.
pub open spec fn analyze_sa(t: Tables, iterator: ExprView, bind: TokenView, block: StmtView, id: usize)
    -> Checked<()>
    decreases block, 3nat,
{
    let it = infer_type(t.enter_scope(), iterator, id);
    match it.result {
        Err(e) => bad(e, it.tables.exit_scope()),
        Ok(bind_type) => if !it.tables.can_declare(bind.lexeme) {
            bad(already_declared(bind), it.tables.exit_scope())
        } else {
            let body = analyze_stmt(
                it.tables.declare(
                    bind.lexeme,
                    SymbolView::Var { name: bind.lexeme, mutable: false, tol_type: bind_type },
                ),
                block,
            );
            Checked { result: body.result, tables: body.tables.exit_scope() }
        },
    }
}

/// The statements from `i` on, up to the first that fails.
pub open spec fn analyze_stmts(t: Tables, statements: Seq<StmtView>, i: int) -> Checked<()>
    decreases statements, statements.len() - i,
{
    if i < 0 || i >= statements.len() {
        good((), t)
    } else {
        let s = analyze_stmt(t, statements[i]);
        match s.result {
            Err(e) => bad(e, s.tables),
            Ok(_) => analyze_stmts(s.tables, statements, i + 1),
        }
    }
}

/// One statement.
pub open spec fn analyze_stmt(t: Tables, s: StmtView) -> Checked<()>
    decreases s, 1nat,
{
    match s {
        StmtView::Ang { mutable, ang_identifier, ang_type, rhs, line, column, id } => analyze_ang(
            t,
            mutable,
            ang_identifier,
            ang_type,
            rhs,
            line,
            column,
            id,
        ),
        StmtView::Par { par_identifier, params, return_type, block, .. } => analyze_par(
            t,
            par_identifier,
            params,
            return_type,
            *block,
        ),
        StmtView::Ibalik { rhs, line, column, .. } => analyze_ibalik(t, rhs, line, column),
        StmtView::ExprS { expr, .. } => {
            let r = analyze_expression(t, expr);
            match r.result {
                Err(e) => bad(e, r.tables),
                Ok(_) => good((), r.tables),
            }
        },
        StmtView::Bagay { bagay_identifier, fields, .. } => analyze_bagay(
            t,
            bagay_identifier,
            fields,
        ),
        StmtView::Itupad { itupad_for, itupad_block, line, column, .. } => analyze_itupad(
            t,
            itupad_for,
            *itupad_block,
            line,
            column,
        ),
        StmtView::Kung { branches, .. } => analyze_branches(t, branches, 0),
        StmtView::Sa { iterator, bind, block, id, .. } => analyze_sa(t, iterator, bind, *block, id),
        StmtView::Block { statements, .. } => {
            let body = analyze_stmts(t.enter_scope(), statements, 0);
            Checked { result: body.result, tables: body.tables.exit_scope() }
        },
        StmtView::Program(_) => good((), t),
        StmtView::ItupadBlock { .. } => good((), t),
        StmtView::Method { .. } => good((), t),
    }
}

/// Where the analysis of a program stands: the tables and the diagnostics.
pub struct Analysis {
    pub tables: Tables,
    pub errors: Seq<CompilerErrorView>,
}

impl Analysis {
    /// After a rule: the tables are those that the rule leaves, and its
    /// diagnostic is kept where it failed.
    pub open spec fn after<T>(self, c: Checked<T>) -> Analysis {
        Analysis {
            tables: c.tables,
            errors: match c.result {
                Err(e) => self.errors.push(e),
                Ok(_) => self.errors,
            },
        }
    }
}

/// The first pass over the program: every record from `i` on is declared.
/// `declared` says of each statement before `i` whether it is a record that
/// was declared.
pub struct Declared {
    pub analysis: Analysis,
    pub declared: Seq<bool>,
}

pub open spec fn declare_records(a: Analysis, program: Seq<StmtView>, i: int, declared: Seq<bool>)
    -> Declared
    decreases program.len() - i,
{
    if i < 0 || i >= program.len() {
        Declared { analysis: a, declared }
    } else {
        match program[i] {
            StmtView::Bagay { bagay_identifier, .. } => {
                let d = declare_bagay(a.tables, bagay_identifier);
                declare_records(a.after(d), program, i + 1, declared.push(d.result is Ok))
            },
            _ => declare_records(a, program, i + 1, declared.push(false)),
        }
    }
}

/// The second pass: every record from `i` on that was declared is given
/// its fields.
pub open spec fn define_records(a: Analysis, program: Seq<StmtView>, declared: Seq<bool>, i: int)
    -> Analysis
    decreases program.len() - i,
{
    if i < 0 || i >= program.len() || i >= declared.len() {
        a
    } else {
        match program[i] {
            StmtView::Bagay { bagay_identifier, fields, .. } => if declared[i] {
                define_records(
                    a.after(define_fields(a.tables, bagay_identifier, fields)),
                    program,
                    declared,
                    i + 1,
                )
            } else {
                define_records(a, program, declared, i + 1)
            },
            _ => define_records(a, program, declared, i + 1),
        }
    }
}

/// The last pass: every statement from `i` on that is no record.
pub open spec fn analyze_rest(a: Analysis, program: Seq<StmtView>, i: int) -> Analysis
    decreases program.len() - i,
{
    if i < 0 || i >= program.len() {
        a
    } else if program[i] is Bagay {
        analyze_rest(a, program, i + 1)
    } else {
        analyze_rest(a.after(analyze_stmt(a.tables, program[i])), program, i + 1)
    }
}

/// What analysing a program gives. Records are declared first and given
/// their fields next, so that they may name one another wherever they
/// stand; everything else follows. A statement that fails leaves its
/// diagnostic, and analysis goes on with the next.
pub open spec fn analyzed(program: Seq<StmtView>) -> Analysis {
    let start = Analysis { tables: base_tables(), errors: Seq::empty() };
    let first = declare_records(start, program, 0, Seq::empty());
    let second = define_records(first.analysis, program, first.declared, 0);
    analyze_rest(second, program, 0)
}

} // verus!
