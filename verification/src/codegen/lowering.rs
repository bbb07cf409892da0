//! The C text that a program is lowered to, as mathematics. What cannot
//! be lowered has no text.

use vstd::prelude::*;
use vstd::utf8::encode_utf8;
use crate::lexer::token::TokenView;
use crate::parser::ast::expr::ExprView;
use crate::parser::ast::stmt::{KungBranchView, StmtView};
use crate::text::decimal;
use crate::toltype::TolTypeView;

verus! {

/// The types found for nodes, by node id.
pub type Inferred = Map<usize, TolTypeView>;

/// The C name of the type found for a node.
pub open spec fn inferred_c_name(inferred: Inferred, id: usize) -> Option<Seq<char>> {
    if inferred.dom().contains(id) {
        inferred[id].c_name()
    } else {
        None
    }
}

/// The name of a function in C: `una`, where the program starts, gets a
/// name of its own.
pub open spec fn function_name(name: Seq<char>) -> Seq<char> {
    if name == "una"@ {
        "__TOL_main__"@
    } else {
        name
    }
}

/// The texts of the expressions from `i` on, with `,` between them, after
/// what `acc` holds.
pub open spec fn emit_args(inferred: Inferred, args: Seq<ExprView>, i: int, acc: Seq<char>)
    -> Option<Seq<char>>
    decreases args, args.len() - i,
{
    if i < 0 || i >= args.len() {
        Some(acc)
    } else {
        match emit_expr(inferred, args[i], None) {
            None => None,
            Some(text) => emit_args(
                inferred,
                args,
                i + 1,
                if i > 0 {
                    acc + ","@ + text
                } else {
                    acc + text
                },
            ),
        }
    }
}

/// The fields of a record literal from `i` on, as `.name=value` with `,`
/// between them, after what `acc` holds.
pub open spec fn emit_fields(
    inferred: Inferred,
    fields: Seq<(TokenView, ExprView)>,
    i: int,
    acc: Seq<char>,
) -> Option<Seq<char>>
    decreases fields, fields.len() - i,
{
    if i < 0 || i >= fields.len() {
        Some(acc)
    } else {
        match emit_expr(inferred, fields[i].1, None) {
            None => None,
            Some(text) => emit_fields(
                inferred,
                fields,
                i + 1,
                if i > 0 {
                    acc + ",."@ + fields[i].0.lexeme + "="@ + text
                } else {
                    acc + "."@ + fields[i].0.lexeme + "="@ + text
                },
            ),
        }
    }
}

/// `acc` with `count` more zeros, each after a `,` unless it is the first
/// thing of the list.
pub open spec fn pad_zeros(acc: Seq<char>, count: nat, first: bool) -> Seq<char>
    decreases count,
{
    if count == 0 {
        acc
    } else if first {
        pad_zeros(acc + "0"@, (count - 1) as nat, false)
    } else {
        pad_zeros(acc + ",0"@, (count - 1) as nat, false)
    }
}

/// The text of an expression. `left_type` is the type of the place that
/// the value is for, where that is known.
pub open spec fn emit_expr(inferred: Inferred, e: ExprView, left_type: Option<TolTypeView>)
    -> Option<Seq<char>>
    decreases e, 1nat,
{
    match e {
        ExprView::IntLit { token, .. } => Some(token.lexeme),
        ExprView::FloatLit { token, .. } => Some(token.lexeme),
        ExprView::Identifier { token, .. } => Some(token.lexeme),
        ExprView::ByteStringLit { token, .. } => Some(
            "(TOL_Array_uint8_t){ .data = \""@ + token.lexeme + "\", .len = "@ + decimal(
                (encode_utf8(token.lexeme).len() as usize) as nat,
            ) + " }"@,
        ),
        ExprView::StringLit { .. } => None,
        ExprView::Binary { op, left, right, .. } => match (
            emit_expr(inferred, *left, None),
            emit_expr(inferred, *right, None),
        ) {
            (Some(l), Some(r)) => Some("("@ + l + " "@ + op.lexeme + " "@ + r + ")"@),
            _ => None,
        },
        ExprView::Assign { left, right, .. } => match (
            emit_expr(inferred, *left, None),
            emit_expr(inferred, *right, None),
        ) {
            (Some(l), Some(r)) => Some(l + " = "@ + r),
            _ => None,
        },
        ExprView::FnCall { .. } => emit_fncall(inferred, e),
        ExprView::MemberAccess { left, member, .. } => match emit_expr(inferred, *left, None) {
            Some(l) => Some(l + "."@ + member.lexeme),
            None => None,
        },
        ExprView::ScopeResolution { field, .. } => Some(field.lexeme),
        ExprView::MagicFnCall { .. } => emit_magic_fncall(inferred, e),
        ExprView::Struct { callee, fields, .. } => match (
            emit_expr(inferred, *callee, None),
            emit_fields(inferred, fields, 0, Seq::empty()),
        ) {
            (Some(c), Some(f)) => Some("(struct "@ + c + "){ "@ + f + " }"@),
            _ => None,
        },
        ExprView::Array { .. } => emit_array(inferred, e, left_type),
        ExprView::AddressOf { of, .. } => match emit_expr(inferred, *of, None) {
            Some(x) => Some("(&"@ + x + ")"@),
            None => None,
        },
        ExprView::MutableAddressOf { of, .. } => match emit_expr(inferred, *of, None) {
            Some(x) => Some("(&"@ + x + ")"@),
            None => None,
        },
        ExprView::Deref { right, .. } => match emit_expr(inferred, *right, None) {
            Some(x) => Some("(*"@ + x + ")"@),
            None => None,
        },
        ExprView::RangeExclusive { .. } => None,
        ExprView::RangeInclusive { .. } => None,
    }
}

/// The text of a call. A method that is called on a value gets the value
/// as its first argument.
pub open spec fn emit_fncall(inferred: Inferred, e: ExprView) -> Option<Seq<char>>
    decreases e, 0nat,
{
    match e {
        ExprView::FnCall { callee, args, .. } => match emit_args(inferred, args, 0, Seq::empty()) {
            None => None,
            Some(a) => match *callee {
                ExprView::Identifier { token, .. } => Some(
                    "("@ + token.lexeme + "("@ + a + "))"@,
                ),
                ExprView::MemberAccess { left, member, .. } => match emit_expr(
                    inferred,
                    *left,
                    None,
                ) {
                    None => None,
                    Some(l) => if args.len() > 0 {
                        Some("("@ + member.lexeme + "("@ + l + ", "@ + a + "))"@)
                    } else {
                        Some("("@ + member.lexeme + "("@ + l + "))"@)
                    },
                },
                ExprView::ScopeResolution { field, .. } => Some(field.lexeme + "("@ + a + ")"@),
                _ => None,
            },
        },
        _ => None,
    }
}

/// The text of a call of something that the language itself provides.
pub open spec fn emit_magic_fncall(inferred: Inferred, e: ExprView) -> Option<Seq<char>>
    decreases e, 0nat,
{
    match e {
        ExprView::MagicFnCall { name, args, .. } => match emit_args(
            inferred,
            args,
            0,
            Seq::empty(),
        ) {
            None => None,
            Some(a) => if name.lexeme == "print"@ {
                Some("fputs("@ + a + ", stdout)"@)
            } else if name.lexeme == "println"@ {
                Some("puts("@ + a + ")"@)
            } else if name.lexeme == "alis"@ {
                Some("exit("@ + a + ")"@)
            } else {
                None
            },
        },
        _ => None,
    }
}

/// The type of the elements of an array literal: that of the place that
/// the array is for, or else the one found for the literal.
pub open spec fn element_type(inferred: Inferred, id: usize, left_type: Option<TolTypeView>)
    -> Option<TolTypeView> {
    match left_type {
        Some(TolTypeView::Array(inner, _)) => Some(*inner),
        _ => if inferred.dom().contains(id) {
            match inferred[id] {
                TolTypeView::Array(inner, _) => Some(*inner),
                _ => None,
            }
        } else {
            None
        },
    }
}

/// The length that an array literal of `count` elements is given: that of
/// the place that the array is for, where it has one.
pub open spec fn array_len(count: usize, left_type: Option<TolTypeView>) -> usize {
    match left_type {
        Some(TolTypeView::Array(_, Some(len))) => len,
        _ => count,
    }
}

/// The text of an array literal: its elements, and zeros up to the length
/// of the place that the array is for.
pub open spec fn emit_array(inferred: Inferred, e: ExprView, left_type: Option<TolTypeView>)
    -> Option<Seq<char>>
    decreases e, 0nat,
{
    match e {
        ExprView::Array { elements, id, .. } => {
            let len = array_len(elements.len() as usize, left_type);
            match element_type(inferred, id, left_type) {
                None => None,
                Some(inner) => match (
                    inner.c_name(),
                    emit_args(inferred, elements, 0, "{"@),
                ) {
                    (Some(t), Some(items)) => if len < elements.len() {
                        None
                    } else {
                        Some(
                            "(TOL_Array_"@ + t + "){ .data = ("@ + t + "[])"@ + pad_zeros(
                                items,
                                (len - elements.len()) as nat,
                                elements.len() == 0,
                            ) + "}, .len = "@ + decimal(len as nat) + " }"@,
                        )
                    },
                    _ => None,
                },
            }
        },
        _ => None,
    }
}

/// The parameters from `i` on as `type name`, with `,` between them, after
/// what `acc` holds. `ako` has the type `receiver`.
pub open spec fn emit_param_list(
    params: Seq<(TokenView, TolTypeView)>,
    receiver: Option<TolTypeView>,
    i: int,
    acc: Seq<char>,
) -> Option<Seq<char>>
    decreases params.len() - i,
{
    if i < 0 || i >= params.len() {
        Some(acc)
    } else {
        let ty = if params[i].1 is AkoType {
            receiver
        } else {
            Some(params[i].1)
        };
        match ty {
            None => None,
            Some(t) => match t.c_name() {
                None => None,
                Some(c) => emit_param_list(
                    params,
                    receiver,
                    i + 1,
                    if i > 0 {
                        acc + ","@ + c + " "@ + params[i].0.lexeme
                    } else {
                        acc + c + " "@ + params[i].0.lexeme
                    },
                ),
            },
        }
    }
}

/// The parameter list of a function, parentheses included.
pub open spec fn emit_params(params: Seq<(TokenView, TolTypeView)>, receiver: Option<TolTypeView>)
    -> Option<Seq<char>> {
    match emit_param_list(params, receiver, 0, "("@) {
        Some(list) => Some(list + ")"@),
        None => None,
    }
}

/// The fields of a record from `i` on as `type name;`, after what `acc`
/// holds.
pub open spec fn emit_record_fields(fields: Seq<(TokenView, TolTypeView)>, i: int, acc: Seq<char>)
    -> Option<Seq<char>>
    decreases fields.len() - i,
{
    if i < 0 || i >= fields.len() {
        Some(acc)
    } else {
        match fields[i].1.c_name() {
            None => None,
            Some(c) => emit_record_fields(
                fields,
                i + 1,
                acc + c + " "@ + fields[i].0.lexeme + ";"@,
            ),
        }
    }
}

/// The texts of the statements from `i` on, after what `acc` holds.
pub open spec fn emit_stmts(inferred: Inferred, statements: Seq<StmtView>, i: int, acc: Seq<char>)
    -> Option<Seq<char>>
    decreases statements, statements.len() - i,
{
    if i < 0 || i >= statements.len() {
        Some(acc)
    } else {
        match emit_stmt(inferred, statements[i]) {
            None => None,
            Some(text) => emit_stmts(inferred, statements, i + 1, acc + text),
        }
    }
}

/// The text of a block: its statements between braces.
pub open spec fn emit_block(inferred: Inferred, block: StmtView) -> Option<Seq<char>>
    decreases block, 0nat,
{
    match block {
        StmtView::Block { statements, .. } => match emit_stmts(inferred, statements, 0, "{"@) {
            Some(body) => Some(body + "}"@),
            None => None,
        },
        _ => None,
    }
}

/// The text of a function with the given name in C.
pub open spec fn emit_function(
    inferred: Inferred,
    name: Seq<char>,
    params: Seq<(TokenView, TolTypeView)>,
    return_type: TolTypeView,
    block: StmtView,
    receiver: Option<TolTypeView>,
) -> Option<Seq<char>>
    decreases block, 1nat,
{
    match (return_type.c_name(), emit_params(params, receiver), emit_block(inferred, block)) {
        (Some(t), Some(p), Some(b)) => Some(t + " "@ + name + p + b),
        _ => None,
    }
}

/// The texts of the methods from `i` on of the type `receiver`, after what
/// `acc` holds.
pub open spec fn emit_methods(
    inferred: Inferred,
    methods: Seq<StmtView>,
    receiver: TolTypeView,
    i: int,
    acc: Seq<char>,
) -> Option<Seq<char>>
    decreases methods, methods.len() - i,
{
    if i < 0 || i >= methods.len() {
        Some(acc)
    } else {
        match methods[i] {
            StmtView::Method { met_identifier, params, return_type, block, .. } => {
                match emit_function(
                    inferred,
                    met_identifier.lexeme,
                    params,
                    return_type,
                    *block,
                    Some(receiver),
                ) {
                    None => None,
                    Some(text) => emit_methods(inferred, methods, receiver, i + 1, acc + text),
                }
            },
            _ => None,
        }
    }
}

/// The texts of the branches of a conditional from `i` on, after what
/// `acc` holds: `if`, then `else if` for each further condition, and `else`
/// for a branch without one.
pub open spec fn emit_branches(
    inferred: Inferred,
    branches: Seq<KungBranchView>,
    i: int,
    acc: Seq<char>,
) -> Option<Seq<char>>
    decreases branches, branches.len() - i,
{
    if i < 0 || i >= branches.len() {
        Some(acc)
    } else {
        match emit_block(inferred, branches[i].block) {
            None => None,
            Some(body) => match branches[i].condition {
                Some(c) => match emit_expr(inferred, c, None) {
                    None => None,
                    Some(cond) => emit_branches(
                        inferred,
                        branches,
                        i + 1,
                        if i == 0 {
                            acc + "if ("@ + cond + ")"@ + body
                        } else {
                            acc + "else if ("@ + cond + ")"@ + body
                        },
                    ),
                },
                None => if i == 0 {
                    None
                } else {
                    emit_branches(inferred, branches, i + 1, acc + "else "@ + body)
                },
            },
        }
    }
}

/// The text of a loop over a range.
pub open spec fn emit_sa(inferred: Inferred, s: StmtView) -> Option<Seq<char>>
    decreases s, 0nat,
{
    match s {
        StmtView::Sa { iterator, bind, block, id, .. } => {
            let ends = match iterator {
                ExprView::RangeExclusive { start, end, .. } => Some((*start, *end, " < "@)),
                ExprView::RangeInclusive { start, end, .. } => Some((*start, *end, " <= "@)),
                _ => None,
            };
            match ends {
                None => None,
                Some((start, end, sign)) => match (
                    inferred_c_name(inferred, id),
                    emit_expr(inferred, start, None),
                    emit_expr(inferred, end, None),
                    emit_block(inferred, *block),
                ) {
                    (Some(t), Some(from), Some(to), Some(body)) => Some(
                        "for ("@ + t + " "@ + bind.lexeme + " = "@ + from + "; "@ + bind.lexeme
                            + sign + to + "; "@ + bind.lexeme + "++) "@ + body,
                    ),
                    _ => None,
                },
            }
        },
        _ => None,
    }
}

/// The text of a binding.
pub open spec fn emit_ang(inferred: Inferred, s: StmtView) -> Option<Seq<char>> {
    match s {
        StmtView::Ang { mutable, ang_identifier, ang_type, rhs, id, .. } => {
            let ty = if ang_type is Unknown {
                if inferred.dom().contains(id) {
                    Some(inferred[id])
                } else {
                    None
                }
            } else {
                Some(ang_type)
            };
            match ty {
                None => None,
                Some(t) => match (t.c_name(), emit_expr(inferred, rhs, Some(t))) {
                    (Some(c), Some(value)) => if mutable {
                        Some(c + " "@ + ang_identifier.lexeme + " = "@ + value + ";"@)
                    } else {
                        Some("const "@ + c + " "@ + ang_identifier.lexeme + " = "@ + value + ";"@)
                    },
                    _ => None,
                },
            }
        },
        _ => None,
    }
}

/// The text of a statement.
pub open spec fn emit_stmt(inferred: Inferred, s: StmtView) -> Option<Seq<char>>
    decreases s, 2nat,
{
    match s {
        StmtView::Ang { .. } => emit_ang(inferred, s),
        StmtView::Par { par_identifier, params, return_type, block, .. } => emit_function(
            inferred,
            function_name(par_identifier.lexeme),
            params,
            return_type,
            *block,
            None,
        ),
        StmtView::Ibalik { rhs, .. } => match emit_expr(inferred, rhs, None) {
            Some(value) => Some("return "@ + value + ";"@),
            None => None,
        },
        StmtView::ExprS { expr, .. } => match emit_expr(inferred, expr, None) {
            Some(value) => Some(value + ";"@),
            None => None,
        },
        StmtView::Bagay { bagay_identifier, fields, .. } => match emit_record_fields(
            fields,
            0,
            "typedef struct "@ + bagay_identifier.lexeme + "{"@,
        ) {
            Some(body) => Some(body + "}"@ + bagay_identifier.lexeme + ";"@),
            None => None,
        },
        StmtView::Itupad { itupad_for, itupad_block, .. } => match *itupad_block {
            StmtView::ItupadBlock { methods, .. } => emit_methods(
                inferred,
                methods,
                itupad_for,
                0,
                Seq::empty(),
            ),
            _ => None,
        },
        StmtView::Kung { branches, .. } => emit_branches(inferred, branches, 0, Seq::empty()),
        StmtView::Sa { .. } => emit_sa(inferred, s),
        _ => Some(Seq::empty()),
    }
}

/// The texts of the statements of a program from `i` on that are records,
/// or of those that are not, after what `acc` holds.
pub open spec fn emit_selected(
    inferred: Inferred,
    program: Seq<StmtView>,
    records: bool,
    i: int,
    acc: Seq<char>,
) -> Option<Seq<char>>
    decreases program.len() - i,
{
    if i < 0 || i >= program.len() {
        Some(acc)
    } else if (program[i] is Bagay) == records {
        match emit_stmt(inferred, program[i]) {
            None => None,
            Some(text) => emit_selected(inferred, program, records, i + 1, acc + text),
        }
    } else {
        emit_selected(inferred, program, records, i + 1, acc)
    }
}

/// What names an array type in C starts with.
pub open spec fn array_prefix() -> Seq<char> {
    "TOL_Array_"@
}

/// The definitions of the array types from `i` on, one line each, after
/// what `acc` holds.
pub open spec fn emit_array_structs(arrays: Seq<Seq<char>>, i: int, acc: Seq<char>) -> Option<
    Seq<char>,
>
    decreases arrays.len() - i,
{
    if i < 0 || i >= arrays.len() {
        Some(acc)
    } else if array_prefix().is_prefix_of(arrays[i]) {
        emit_array_structs(
            arrays,
            i + 1,
            acc + "DEFINE_TOL_ARRAY_STRUCT("@ + arrays[i].skip(array_prefix().len() as int)
                + ")\n"@,
        )
    } else {
        None
    }
}

/// The line that brings in what the emitted code needs of this language.
pub open spec fn custom_headers() -> Seq<char> {
    "#include \"tol_helper.h\"\n"@
}

/// What every unit starts with.
pub open spec fn header() -> Seq<char> {
    custom_headers() + "#include <stdio.h>\n#include <stdlib.h>\n"@
}

/// The function that C starts with, which calls the one of the program.
pub open spec fn entry_point() -> Seq<char> {
    "int main(){__TOL_main__();return 0;}"@
}

/// The C text of a whole program: the header, the records, the array
/// types, everything else, and the entry point.
pub open spec fn emitted(inferred: Inferred, arrays: Seq<Seq<char>>, program: Seq<StmtView>)
    -> Option<Seq<char>> {
    match emit_selected(inferred, program, true, 0, header()) {
        None => None,
        Some(records) => match emit_array_structs(arrays, 0, records + "\n"@) {
            None => None,
            Some(types) => match emit_selected(inferred, program, false, 0, types) {
                None => None,
                Some(all) => Some(all + entry_point()),
            },
        },
    }
}

} // verus!
