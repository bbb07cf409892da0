//! The semantic analyzer: names, types and what may be assigned to what.

use std::collections::HashMap;
use vstd::prelude::*;
use vstd::string::StringExecFns;
use crate::error::{CompilerError, CompilerErrorView, ErrorKind, agrees, errors_view};
use crate::lexer::token::Token;
use crate::lexer::token_kind::TokenKind;
use crate::parser::ast::expr::{Expr, ExprView, exprs_view, fields_view};
use crate::parser::ast::stmt::{
    KungBranch, Stmt, branches_view, lemma_params_view_push, params_view, stmts_view,
};
use crate::parser::module::Module;
use crate::semantic_analyzer::growth::grows;
use crate::semantic_analyzer::checking::Analysis;
use crate::semantic_analyzer::typing::{Scope, Tables};
use crate::symbol::{Symbol, SymbolView};
use crate::symbol::table::NameTable;
use crate::text::{copy_str, lemma_strings_view_push, str_eq, strings_view};
use crate::toltype::{TolType, TolTypeView, lemma_types_view_push, types_view};
use crate::toltype::type_info::TypeInfo;

pub mod checking;
pub mod growth;
pub mod typing;

verus! {

pub struct SemanticAnalyzer {
    parent_module: Module,
    errors: Vec<CompilerError>,
    current_func_return_type: TolType,
}

/// The views of a sequence of symbols, in order.
pub open spec fn symbols_view(v: Seq<Symbol>) -> Seq<SymbolView> {
    v.map_values(|s: Symbol| s@)
}

pub proof fn lemma_symbols_view_push(v: Seq<Symbol>, s: Symbol)
    ensures
        symbols_view(v.push(s)) == symbols_view(v).push(s@),
{
    assert(symbols_view(v.push(s)) =~= symbols_view(v).push(s@));
}

/// The scopes of a symbol table, the innermost last.
pub open spec fn scopes_view(v: Seq<NameTable<Symbol>>) -> Seq<Scope> {
    v.map_values(|s: NameTable<Symbol>| s@)
}

/// The types found for nodes, by node id.
pub open spec fn inferred_view(m: Map<usize, TolType>) -> Map<usize, TolTypeView> {
    m.map_values(|t: TolType| t@)
}


/// Accepts a call with these argument types to these parameter types.
pub fn check_call(args: &Vec<TolType>, params: &Vec<TolType>, line: usize, column: usize) -> (r:
    Result<(), CompilerError>)
    ensures
        agrees(
            r,
            typing::check_call(types_view(args@), types_view(params@), line, column),
            |u: ()| u,
        ),
{
    if args.len() != params.len() {
        return Err(
            CompilerError::new(
                "Ang bilang ng argumento ay hindi pareho sa parameter",
                ErrorKind::Error,
                line,
                column,
            ),
        );
    }
    let mut i: usize = 0;
    while i < args.len()
        invariant
            0 <= i <= args.len(),
            args.len() == params.len(),
            typing::first_misfit(types_view(args@), types_view(params@), 0) == typing::first_misfit(
                types_view(args@),
                types_view(params@),
                i as int,
            ),
        decreases args.len() - i,
    {
        match args[i].is_assignment_compatible(&params[i], line, column) {
            Err(e) => {
                return Err(e);
            },
            Ok(_) => {},
        }
        i = i + 1;
    }
    Ok(())
}

/// The type that an unannotated binding gets from the type of its value.
pub fn resolve_expr_type(t: TolType) -> (r: TolType)
    ensures
        r@ == typing::resolve_expr_type(t@),
    decreases t,
{
    match t {
        TolType::UnsizedInt => TolType::I32,
        TolType::UnsizedFloat => TolType::DobleTang,
        TolType::Array(inner, len) => TolType::Array(Box::new(resolve_expr_type(*inner)), len),
        other => other,
    }
}

impl SemanticAnalyzer {
    /// The module that the analyzer holds, which it hands back when it is
    /// done.
    pub closed spec fn module(&self) -> Module {
        self.parent_module
    }

    /// What the analyzer knows.
    pub closed spec fn tables(&self) -> Tables {
        Tables {
            scopes: scopes_view(self.parent_module.symbol_table@),
            types: self.parent_module.type_table@,
            inferred: inferred_view(self.parent_module.inferred_types@),
            arrays: strings_view(self.parent_module.declared_array_types@),
            return_type: self.current_func_return_type@,
        }
    }

    /// The diagnostics so far.
    pub closed spec fn diagnostics(&self) -> Seq<CompilerErrorView> {
        errors_view(self.errors@)
    }

    /// Whether the source, the tokens, the statements and the diagnostics
    /// are those of `before`.
    pub closed spec fn same_program(&self, before: &Self) -> bool {
        &&& self.parent_module.source_code == before.parent_module.source_code
        &&& self.parent_module.source_path == before.parent_module.source_path
        &&& self.parent_module.tokens == before.parent_module.tokens
        &&& self.parent_module.ast == before.parent_module.ast
        &&& self.errors == before.errors
    }

    fn enter_scope(&mut self)
        ensures
            final(self).same_program(old(self)),
            final(self).tables() == old(self).tables().enter_scope(),
    {
        let scope: NameTable<Symbol> = NameTable::new();
        assert(scopes_view(self.parent_module.symbol_table@.push(scope)) =~= scopes_view(
            self.parent_module.symbol_table@,
        ).push(Map::empty()));
        self.parent_module.symbol_table.push(scope);
    }

    fn exit_scope(&mut self)
        ensures
            final(self).same_program(old(self)),
            final(self).tables() == old(self).tables().exit_scope(),
    {
        let _ = self.parent_module.symbol_table.pop();
        assert(old(self).parent_module.symbol_table@.len() > 0 ==> scopes_view(
            self.parent_module.symbol_table@,
        ) =~= scopes_view(old(self).parent_module.symbol_table@).drop_last());
    }

    /// What a name stands for.
    fn lookup_symbol(&self, name: &str, line: usize, column: usize) -> (r: Result<
        Symbol,
        CompilerError,
    >)
        ensures
            agrees(r, self.tables().lookup_symbol(name@, line, column), |s: Symbol| s@),
    {
        let ghost scopes = scopes_view(self.parent_module.symbol_table@);
        let mut i: usize = self.parent_module.symbol_table.len();
        assert(scopes.take(i as int) =~= scopes);
        while i > 0
            invariant
                0 <= i <= self.parent_module.symbol_table.len(),
                scopes == scopes_view(self.parent_module.symbol_table@),
                typing::lookup(scopes, name@) == typing::lookup(scopes.take(i as int), name@),
            decreases i,
        {
            i = i - 1;
            assert(scopes.take(i + 1).drop_last() =~= scopes.take(i as int));
            assert(scopes.take(i + 1).last() == self.parent_module.symbol_table@[i as int]@);
            match self.parent_module.symbol_table[i].get(name) {
                Some(s) => {
                    return Ok(s.clone());
                },
                None => {},
            }
        }
        let mut msg = String::new();
        msg.append("Ang `");
        msg.append(name);
        msg.append("` ay hindi na-ideklara");
        Err(CompilerError::new(msg.as_str(), ErrorKind::Error, line, column))
    }

    /// Declares a name in the innermost scope. Says whether it could: the
    /// scope did not hold the name.
    fn declare_symbol(&mut self, name: &str, symbol: Symbol) -> (b: bool)
        ensures
            final(self).same_program(old(self)),
            b == old(self).tables().can_declare(name@),
            final(self).tables() == old(self).tables().try_declare(name@, symbol@),
    {
        match self.parent_module.symbol_table.pop() {
            None => false,
            Some(scope) => {
                let mut current_scope = scope;
                let ghost rest = self.parent_module.symbol_table@;
                let declared = if !current_scope.contains_key(name) {
                    current_scope.insert(copy_str(name), symbol);
                    true
                } else {
                    false
                };
                self.parent_module.symbol_table.push(current_scope);
                proof {
                    let before = scopes_view(old(self).parent_module.symbol_table@);
                    let after = scopes_view(self.parent_module.symbol_table@);
                    assert(old(self).parent_module.symbol_table@ =~= rest.push(scope));
                    if declared {
                        assert(after =~= before.update(
                            before.len() - 1,
                            before.last().insert(name@, symbol@),
                        ));
                    } else {
                        assert(after =~= before);
                    }
                }
                declared
            },
        }
    }

    fn declared_in_scope_err(&self, name: &Token) -> (e: CompilerError)
        ensures
            e@ == typing::already_declared(name@),
    {
        let mut msg = String::new();
        msg.append("Ang ");
        msg.append(name.lexeme());
        msg.append(" ay naideklara na sa kasalukuyang sakop");
        CompilerError::new(msg.as_str(), ErrorKind::Error, name.line(), name.column())
    }

    /// The type that a type as written stands for.
    fn resolve_type(&self, type_to_resolve: &TolType, line: usize, column: usize) -> (r: Result<
        TolType,
        CompilerError,
    >)
        ensures
            agrees(
                r,
                self.tables().resolve_type(type_to_resolve@, line, column),
                |t: TolType| t@,
            ),
    {
        match type_to_resolve {
            TolType::UnknownIdentifier(id) => match self.parent_module.type_table.get(id.as_str()) {
                Some(info) => Ok(info.kind.clone()),
                None => {
                    let mut msg = String::new();
                    msg.append("Hindi valid na tipo ang `");
                    msg.append(id.as_str());
                    msg.append("`");
                    Err(CompilerError::new(msg.as_str(), ErrorKind::Error, line, column))
                },
            },
            _ => Ok(type_to_resolve.clone()),
        }
    }

    /// Whether the list of array types holds `name`.
    fn knows_array(&self, name: &str) -> (b: bool)
        ensures
            b == self.tables().arrays.contains(name@),
    {
        let mut i: usize = 0;
        while i < self.parent_module.declared_array_types.len()
            invariant
                0 <= i <= self.parent_module.declared_array_types.len(),
                forall|j: int|
                    0 <= j < i ==> strings_view(self.parent_module.declared_array_types@)[j]
                        != name@,
            decreases self.parent_module.declared_array_types.len() - i,
        {
            if str_eq(self.parent_module.declared_array_types[i].as_str(), name) {
                assert(strings_view(self.parent_module.declared_array_types@)[i as int] == name@);
                return true;
            }
            i = i + 1;
        }
        false
    }

    /// Notes the array types of `array_type`, innermost first, each once.
    fn declare_array_types(&mut self, array_type: &TolType)
        ensures
            final(self).same_program(old(self)),
            final(self).tables() == (Tables {
                arrays: typing::declare_array_types(old(self).tables().arrays, array_type@),
                ..old(self).tables()
            }),
            grows(old(self).tables(), final(self).tables()),
        decreases array_type,
    {
        match array_type {
            TolType::Array(inner, _) => {
                self.declare_array_types(inner);
                match array_type.c_name() {
                    Some(array_c) => {
                        if !self.knows_array(array_c.as_str()) {
                            proof {
                                lemma_strings_view_push(
                                    self.parent_module.declared_array_types@,
                                    array_c,
                                );
                            }
                            self.parent_module.declared_array_types.push(array_c);
                        }
                    },
                    None => {},
                }
            },
            _ => {},
        }
    }
}

/// The diagnostic for what cannot stand to the right of `&` or `*`.
fn rvalue_error(sign: &str, line: usize, column: usize) -> (e: CompilerError)
    ensures
        e@ == typing::rvalue_error(sign@, line, column),
{
    let mut msg = String::new();
    msg.append("Hindi pwedeng rvalue ang nasa kanan ng `");
    msg.append(sign);
    msg.append("`");
    CompilerError::new(msg.as_str(), ErrorKind::Error, line, column).add_note(
        "Ang rvalue ay tumutukoy sa mga expresyon na makikita mo sa kanan ng assignment (`=`) pero hindi mo makikita sa kaliwa",
    ).add_note(
        "Ang halimbawa nito ay mga integer na literal (41, 67) o mga pagtawag ng paraan (tawag())",
    )
}

impl SemanticAnalyzer {
    /// The types of the expressions of a list, in order.
    fn analyze_all(&mut self, args: &Vec<Expr>) -> (r: Result<Vec<TolType>, CompilerError>)
        ensures
            final(self).same_program(old(self)),
            agrees(
                r,
                typing::analyze_all(old(self).tables(), exprs_view(args@), 0, Seq::empty()).result,
                |v: Vec<TolType>| types_view(v@),
            ),
            final(self).tables() == typing::analyze_all(
                old(self).tables(),
                exprs_view(args@),
                0,
                Seq::empty(),
            ).tables,
            grows(old(self).tables(), final(self).tables()),
        decreases args, 0nat,
    {
        let mut types: Vec<TolType> = Vec::new();
        assert(types_view(types@) =~= Seq::empty());
        let ghost goal = typing::analyze_all(old(self).tables(), exprs_view(args@), 0, Seq::empty());
        let mut i: usize = 0;
        while i < args.len()
            invariant
                0 <= i <= args.len(),
                self.same_program(old(self)),
                grows(old(self).tables(), self.tables()),
                goal == typing::analyze_all(
                    old(self).tables(),
                    exprs_view(args@),
                    0,
                    Seq::empty(),
                ),
                goal == typing::analyze_all(
                    self.tables(),
                    exprs_view(args@),
                    i as int,
                    types_view(types@),
                ),
            decreases args.len() - i,
        {
            let ghost before = types@;
            match self.analyze_expression(&args[i]) {
                Err(e) => {
                    return Err(e);
                },
                Ok(t) => {
                    proof {
                        lemma_types_view_push(before, t);
                    }
                    types.push(t);
                },
            }
            i = i + 1;
        }
        Ok(types)
    }

    /// The types of the values of the fields of a record literal, in order.
    fn analyze_fields(&mut self, fields: &Vec<(Token, Expr)>) -> (r: Result<
        Vec<TolType>,
        CompilerError,
    >)
        ensures
            final(self).same_program(old(self)),
            agrees(
                r,
                typing::analyze_fields(
                    old(self).tables(),
                    fields_view(fields@),
                    0,
                    Seq::empty(),
                ).result,
                |v: Vec<TolType>| types_view(v@),
            ),
            final(self).tables() == typing::analyze_fields(
                old(self).tables(),
                fields_view(fields@),
                0,
                Seq::empty(),
            ).tables,
            grows(old(self).tables(), final(self).tables()),
        decreases fields, 0nat,
    {
        let mut types: Vec<TolType> = Vec::new();
        assert(types_view(types@) =~= Seq::empty());
        let ghost goal = typing::analyze_fields(
            old(self).tables(),
            fields_view(fields@),
            0,
            Seq::empty(),
        );
        let mut i: usize = 0;
        while i < fields.len()
            invariant
                0 <= i <= fields.len(),
                self.same_program(old(self)),
                grows(old(self).tables(), self.tables()),
                goal == typing::analyze_fields(
                    old(self).tables(),
                    fields_view(fields@),
                    0,
                    Seq::empty(),
                ),
                goal == typing::analyze_fields(
                    self.tables(),
                    fields_view(fields@),
                    i as int,
                    types_view(types@),
                ),
            decreases fields.len() - i,
        {
            let ghost before = types@;
            match self.analyze_expression(&fields[i].1) {
                Err(e) => {
                    return Err(e);
                },
                Ok(t) => {
                    proof {
                        lemma_types_view_push(before, t);
                    }
                    types.push(t);
                },
            }
            i = i + 1;
        }
        Ok(types)
    }

    /// Checks the elements of an array literal after the first against the
    /// type of the first.
    fn analyze_elements(&mut self, elements: &Vec<Expr>, first: &TolType, line: usize, column: usize)
        -> (r: Result<(), CompilerError>)
        ensures
            final(self).same_program(old(self)),
            agrees(
                r,
                typing::analyze_elements(
                    old(self).tables(),
                    exprs_view(elements@),
                    1,
                    first@,
                    line,
                    column,
                ).result,
                |u: ()| u,
            ),
            final(self).tables() == typing::analyze_elements(
                old(self).tables(),
                exprs_view(elements@),
                1,
                first@,
                line,
                column,
            ).tables,
            grows(old(self).tables(), final(self).tables()),
        decreases elements, 0nat,
    {
        let ghost goal = typing::analyze_elements(
            old(self).tables(),
            exprs_view(elements@),
            1,
            first@,
            line,
            column,
        );
        let mut i: usize = 1;
        while i < elements.len()
            invariant
                1 <= i,
                self.same_program(old(self)),
                grows(old(self).tables(), self.tables()),
                goal == typing::analyze_elements(
                    old(self).tables(),
                    exprs_view(elements@),
                    1,
                    first@,
                    line,
                    column,
                ),
                goal == typing::analyze_elements(
                    self.tables(),
                    exprs_view(elements@),
                    i as int,
                    first@,
                    line,
                    column,
                ),
            decreases elements.len() - i,
        {
            let elem_type = match self.analyze_expression(&elements[i]) {
                Err(e) => {
                    return Err(e);
                },
                Ok(t) => t,
            };
            match elem_type.is_assignment_compatible(first, line, column) {
                Err(e) => {
                    return Err(e);
                },
                Ok(_) => {},
            }
            i = i + 1;
        }
        Ok(())
    }

    /// What `left::field` names.
    fn lookup_scope_resolution(&self, left: &Expr, field: &Token, line: usize, column: usize) -> (r:
        Result<Symbol, CompilerError>)
        ensures
            agrees(
                r,
                self.tables().lookup_scope_resolution(left@, field@, line, column),
                |s: Symbol| s@,
            ),
        decreases left,
    {
        match left {
            Expr::Identifier { token, .. } => {
                match self.parent_module.type_table.get(token.lexeme()) {
                    None => {
                        let mut msg = String::new();
                        msg.append("Hindi narehistro ang `");
                        msg.append(token.lexeme());
                        msg.append("`");
                        Err(CompilerError::new(msg.as_str(), ErrorKind::Error, line, column))
                    },
                    Some(type_info) => match type_info.static_members.get(field.lexeme()) {
                        None => {
                            let mut msg = String::new();
                            msg.append("Walang static na miyembro na `");
                            msg.append(field.lexeme());
                            msg.append("` ang `");
                            msg.append(token.lexeme());
                            msg.append("`");
                            Err(
                                CompilerError::new(
                                    msg.as_str(),
                                    ErrorKind::Error,
                                    field.line(),
                                    field.column(),
                                ),
                            )
                        },
                        Some(s) => Ok(s.clone()),
                    },
                }
            },
            Expr::ScopeResolution { left: inner, field: inner_field, line: l, column: c, .. } => {
                self.lookup_scope_resolution(inner, inner_field, *l, *c)
            },
            _ => Err(
                CompilerError::new(
                    "Hindi valid ang nasa kaliwa ng `::",
                    ErrorKind::Error,
                    line,
                    column,
                ),
            ),
        }
    }

    /// What `left.member` names.
    fn lookup_member_access(&mut self, left: &Expr, member: &Token, line: usize, column: usize)
        -> (r: Result<Symbol, CompilerError>)
        ensures
            final(self).same_program(old(self)),
            agrees(
                r,
                typing::lookup_member_access(old(self).tables(), left@, member@, line, column).result,
                |s: Symbol| s@,
            ),
            final(self).tables() == typing::lookup_member_access(
                old(self).tables(),
                left@,
                member@,
                line,
                column,
            ).tables,
            grows(old(self).tables(), final(self).tables()),
        decreases left, 2nat,
    {
        let left_type = match self.analyze_expression(left) {
            Err(e) => {
                return Err(e);
            },
            Ok(t) => t,
        };
        let key = left_type.to_text();
        match self.parent_module.type_table.get(key.as_str()) {
            None => {
                let mut msg = String::new();
                msg.append("Hindi nahanap ang tipong `");
                msg.append(key.as_str());
                msg.append("` sa type table");
                Err(CompilerError::new(msg.as_str(), ErrorKind::Error, line, column))
            },
            Some(type_info) => match type_info.members.get(member.lexeme()) {
                None => {
                    let mut msg = String::new();
                    msg.append("Walang miyembro na `");
                    msg.append(member.lexeme());
                    msg.append("` ang `");
                    msg.append(key.as_str());
                    msg.append("`");
                    Err(CompilerError::new(msg.as_str(), ErrorKind::Error, line, column))
                },
                Some(s) => Ok(s.clone()),
            },
        }
    }

    /// What an expression that names a place or something to call stands
    /// for.
    fn lookup_lvalue(&mut self, lvalue: &Expr, line: usize, column: usize) -> (r: Result<
        Symbol,
        CompilerError,
    >)
        ensures
            final(self).same_program(old(self)),
            agrees(
                r,
                typing::lookup_lvalue(old(self).tables(), lvalue@, line, column).result,
                |s: Symbol| s@,
            ),
            final(self).tables() == typing::lookup_lvalue(
                old(self).tables(),
                lvalue@,
                line,
                column,
            ).tables,
            grows(old(self).tables(), final(self).tables()),
        decreases lvalue, 3nat,
    {
        match lvalue {
            Expr::Identifier { token, .. } => self.lookup_symbol(
                token.lexeme(),
                token.line(),
                token.column(),
            ),
            Expr::MemberAccess { left, member, line: l, column: c, .. } => {
                self.lookup_member_access(left, member, *l, *c)
            },
            Expr::ScopeResolution { left, field, line: l, column: c, .. } => {
                self.lookup_scope_resolution(left, field, *l, *c)
            },
            _ => Err(
                CompilerError::new("Hindi ito pwedeng tawagin", ErrorKind::Error, line, column),
            ),
        }
    }

    /// Accepts a place that is a variable declared `maiba`.
    fn ensure_lvalue_is_mutable(&mut self, lvalue: &Expr, line: usize, column: usize) -> (r: Result<
        (),
        CompilerError,
    >)
        ensures
            final(self).same_program(old(self)),
            agrees(
                r,
                typing::ensure_lvalue_is_mutable(old(self).tables(), lvalue@, line, column).result,
                |u: ()| u,
            ),
            final(self).tables() == typing::ensure_lvalue_is_mutable(
                old(self).tables(),
                lvalue@,
                line,
                column,
            ).tables,
            grows(old(self).tables(), final(self).tables()),
        decreases lvalue, 4nat,
    {
        let lvalue_symbol = match self.lookup_lvalue(lvalue, line, column) {
            Err(e) => {
                return Err(e);
            },
            Ok(s) => s,
        };
        let mutable = match &lvalue_symbol {
            Symbol::Var { mutable, .. } => *mutable,
            _ => false,
        };
        if mutable {
            Ok(())
        } else {
            let mut msg = String::new();
            msg.append("Ang `");
            msg.append(lvalue_symbol.name());
            msg.append("` ay hindi `maiba`");
            Err(
                CompilerError::new(msg.as_str(), ErrorKind::Error, line, column).add_help(
                    "Subukan mong lagyan ng `maiba` ang deklarasyon nito",
                ),
            )
        }
    }

    /// Accepts a place that is a variable not declared `maiba`.
    fn ensure_lvalue_is_immutable(&mut self, lvalue: &Expr, line: usize, column: usize) -> (r:
        Result<(), CompilerError>)
        ensures
            final(self).same_program(old(self)),
            agrees(
                r,
                typing::ensure_lvalue_is_immutable(old(self).tables(), lvalue@, line, column).result,
                |u: ()| u,
            ),
            final(self).tables() == typing::ensure_lvalue_is_immutable(
                old(self).tables(),
                lvalue@,
                line,
                column,
            ).tables,
            grows(old(self).tables(), final(self).tables()),
        decreases lvalue, 4nat,
    {
        let lvalue_symbol = match self.lookup_lvalue(lvalue, line, column) {
            Err(e) => {
                return Err(e);
            },
            Ok(s) => s,
        };
        let immutable = match &lvalue_symbol {
            Symbol::Var { mutable, .. } => !*mutable,
            _ => false,
        };
        if immutable {
            Ok(())
        } else {
            let mut msg = String::new();
            msg.append("Ang `");
            msg.append(lvalue_symbol.name());
            msg.append("` ay `maiba`");
            Err(
                CompilerError::new(msg.as_str(), ErrorKind::Error, line, column).add_help(
                    "Subukan mong tanggalin ang `maiba` sa deklarasyon nito",
                ),
            )
        }
    }

    /// Accepts a record literal for the record `name`.
    fn check_record(
        &self,
        name: &str,
        fields: &Vec<(Token, Expr)>,
        field_types: &Vec<TolType>,
        line: usize,
        column: usize,
    ) -> (r: Result<(), CompilerError>)
        ensures
            agrees(
                r,
                typing::check_record(
                    self.tables().types,
                    name@,
                    fields_view(fields@),
                    types_view(field_types@),
                    line,
                    column,
                ),
                |u: ()| u,
            ),
    {
        let info = match self.parent_module.type_table.get(name) {
            None => {
                return Err(
                    CompilerError::new(
                        "Hindi pwede i-construct ang hindi bagay",
                        ErrorKind::Error,
                        line,
                        column,
                    ),
                );
            },
            Some(info) => info,
        };
        if fields.len() != info.members.field_count() {
            let mut msg = String::new();
            msg.append("Ang bilang ng field ay hindi pareho sa deklarasyon ng `");
            msg.append(name);
            msg.append("`");
            return Err(CompilerError::new(msg.as_str(), ErrorKind::Error, line, column));
        }
        let ghost goal = typing::first_bad_field(
            info.members@,
            name@,
            fields_view(fields@),
            types_view(field_types@),
            0,
        );
        let mut i: usize = 0;
        while i < fields.len() && i < field_types.len()
            invariant
                0 <= i <= fields.len(),
                self.tables().types.dom().contains(name@),
                info@ == self.tables().types[name@],
                fields.len() == crate::symbol::table::field_count(info.members@),
                goal == typing::first_bad_field(
                    info.members@,
                    name@,
                    fields_view(fields@),
                    types_view(field_types@),
                    0,
                ),
                goal == typing::first_bad_field(
                    info.members@,
                    name@,
                    fields_view(fields@),
                    types_view(field_types@),
                    i as int,
                ),
            decreases fields.len() - i,
        {
            let field_tok = &fields[i].0;
            match info.members.get(field_tok.lexeme()) {
                None => {
                    let mut msg = String::new();
                    msg.append("Walang field na `");
                    msg.append(field_tok.lexeme());
                    msg.append("` ang `");
                    msg.append(name);
                    msg.append("`");
                    return Err(
                        CompilerError::new(
                            msg.as_str(),
                            ErrorKind::Error,
                            field_tok.line(),
                            field_tok.column(),
                        ),
                    );
                },
                Some(field_symbol) => match field_symbol {
                    Symbol::Var { tol_type, .. } => {
                        match field_types[i].is_assignment_compatible(
                            tol_type,
                            field_tok.line(),
                            field_tok.column(),
                        ) {
                            Err(e) => {
                                return Err(e);
                            },
                            Ok(_) => {},
                        }
                    },
                    _ => {
                        let mut msg = String::new();
                        msg.append("Hindi field ang `");
                        msg.append(field_tok.lexeme());
                        msg.append("`");
                        return Err(
                            CompilerError::new(
                                msg.as_str(),
                                ErrorKind::Error,
                                field_tok.line(),
                                field_tok.column(),
                            ),
                        );
                    },
                },
            }
            i = i + 1;
        }
        Ok(())
    }
}

/// The type of a byte string: an array of bytes that holds the string and
/// its closing zero.
fn byte_string_type(token: &Token) -> (t: TolType)
    ensures
        t@ == TolTypeView::Array(
            Box::new(TolTypeView::U8),
            Some(typing::byte_string_len(token@.lexeme)),
        ),
{
    let n = token.lexeme().len();
    assert(TolType::U8@ == TolTypeView::U8);
    let len = if n < usize::MAX {
        n + 1
    } else {
        usize::MAX
    };
    TolType::Array(Box::new(TolType::U8), Some(len))
}

impl SemanticAnalyzer {
    /// The type of a name: that of what it stands for.
    fn analyze_identifier(&self, token: &Token) -> (r: Result<TolType, CompilerError>)
        ensures
            agrees(
                r,
                match self.tables().lookup_symbol(token@.lexeme, token@.line, token@.column) {
                    Err(err) => Err::<TolTypeView, CompilerErrorView>(err),
                    Ok(s) => Ok(s.value_type()),
                },
                |t: TolType| t@,
            ),
    {
        match self.lookup_symbol(token.lexeme(), token.line(), token.column()) {
            Err(e) => Err(e),
            Ok(s) => Ok(s.get_type()),
        }
    }

    /// The type of an expression.
    #[verifier::rlimit(80)]
    pub fn analyze_expression(&mut self, expr: &Expr) -> (r: Result<TolType, CompilerError>)
        ensures
            final(self).same_program(old(self)),
            agrees(
                r,
                typing::analyze_expression(old(self).tables(), expr@).result,
                |t: TolType| t@,
            ),
            final(self).tables() == typing::analyze_expression(old(self).tables(), expr@).tables,
            grows(old(self).tables(), final(self).tables()),
        decreases expr, 1nat,
    {
        match expr {
            Expr::IntLit { .. } => Ok(TolType::UnsizedInt),
            Expr::FloatLit { .. } => Ok(TolType::UnsizedFloat),
            Expr::StringLit { token, .. } => Err(
                CompilerError::new(
                    "Hindi pa suportado ang literal na sinulid",
                    ErrorKind::Error,
                    token.line(),
                    token.column(),
                ),
            ),
            Expr::ByteStringLit { token, .. } => Ok(byte_string_type(token)),
            Expr::Identifier { token, .. } => self.analyze_identifier(token),
            Expr::Binary { .. } => self.analyze_binary(expr),
            Expr::Assign { .. } => self.analyze_assign(expr),
            Expr::FnCall { line, column, .. } => self.analyze_fncall(expr, *line, *column),
            Expr::MagicFnCall { .. } => self.analyze_magic_fncall(expr),
            Expr::MemberAccess { .. } => self.analyze_member_access(expr),
            Expr::ScopeResolution { .. } => self.analyze_scope_resolution(expr),
            Expr::Struct { .. } => self.analyze_struct_expr(expr),
            Expr::Array { .. } => self.analyze_array(expr),
            Expr::RangeExclusive { .. } => self.analyze_range(expr),
            Expr::RangeInclusive { .. } => self.analyze_range(expr),
            Expr::AddressOf { .. } => self.analyze_address_of(expr),
            Expr::MutableAddressOf { .. } => self.analyze_mutable_address_of(expr),
            Expr::Deref { .. } => self.analyze_deref(expr),
        }
    }

    /// The type of `&place`.
    fn analyze_address_of(&mut self, expr: &Expr) -> (r: Result<TolType, CompilerError>)
        requires
            expr is AddressOf,
        ensures
            final(self).same_program(old(self)),
            agrees(r, typing::analyze_address_of(old(self).tables(), expr@).result, |t: TolType| t@),
            final(self).tables() == typing::analyze_address_of(old(self).tables(), expr@).tables,
            grows(old(self).tables(), final(self).tables()),
        decreases expr, 0nat,
    {
        match expr {
            Expr::AddressOf { of, line, column, .. } => {
                if !of.is_lvalue() {
                    return Err(rvalue_error("&", *line, *column));
                }
                match self.analyze_expression(of) {
                    Err(e) => Err(e),
                    Ok(of_type) => Ok(TolType::Pointer(Box::new(of_type))),
                }
            },
            _ => Ok(TolType::Unknown),
        }
    }

    /// The type of `&maiba place`.
    fn analyze_mutable_address_of(&mut self, expr: &Expr) -> (r: Result<TolType, CompilerError>)
        requires
            expr is MutableAddressOf,
        ensures
            final(self).same_program(old(self)),
            agrees(
                r,
                typing::analyze_mutable_address_of(old(self).tables(), expr@).result,
                |t: TolType| t@,
            ),
            final(self).tables() == typing::analyze_mutable_address_of(
                old(self).tables(),
                expr@,
            ).tables,
            grows(old(self).tables(), final(self).tables()),
        decreases expr, 0nat,
    {
        match expr {
            Expr::MutableAddressOf { of, line, column, .. } => {
                if !of.is_lvalue() {
                    return Err(rvalue_error("&", *line, *column));
                }
                match self.ensure_lvalue_is_mutable(of, *line, *column) {
                    Err(e) => {
                        return Err(e);
                    },
                    Ok(_) => {},
                }
                match self.analyze_expression(of) {
                    Err(e) => Err(e),
                    Ok(of_type) => Ok(TolType::MutablePointer(Box::new(of_type))),
                }
            },
            _ => Ok(TolType::Unknown),
        }
    }

    /// The type of `*place`.
    fn analyze_deref(&mut self, expr: &Expr) -> (r: Result<TolType, CompilerError>)
        requires
            expr is Deref,
        ensures
            final(self).same_program(old(self)),
            agrees(r, typing::analyze_deref(old(self).tables(), expr@).result, |t: TolType| t@),
            final(self).tables() == typing::analyze_deref(old(self).tables(), expr@).tables,
            grows(old(self).tables(), final(self).tables()),
        decreases expr, 0nat,
    {
        match expr {
            Expr::Deref { right, line, column, .. } => {
                if !right.is_lvalue() {
                    return Err(rvalue_error("*", *line, *column));
                }
                let right_type = match self.analyze_expression(right) {
                    Err(e) => {
                        return Err(e);
                    },
                    Ok(t) => t,
                };
                match right_type {
                    TolType::Pointer(t) => Ok(*t),
                    other => {
                        let mut msg = String::new();
                        msg.append("Ang nasa kanan ng `*` ay hindi isang pointer, kundi ito ay `");
                        other.push_text(&mut msg);
                        msg.append("`");
                        Err(CompilerError::new(msg.as_str(), ErrorKind::Error, *line, *column))
                    },
                }
            },
            _ => Ok(TolType::Unknown),
        }
    }

    /// The type of `left op right`.
    fn analyze_binary(&mut self, expr: &Expr) -> (r: Result<TolType, CompilerError>)
        requires
            expr is Binary,
        ensures
            final(self).same_program(old(self)),
            agrees(
                r,
                typing::analyze_binary(old(self).tables(), expr@).result,
                |t: TolType| t@,
            ),
            final(self).tables() == typing::analyze_binary(old(self).tables(), expr@).tables,
            grows(old(self).tables(), final(self).tables()),
        decreases expr, 0nat,
    {
        match expr {
            Expr::Binary { op, left, right, .. } => {
                let kind = *op.kind();
                if kind == TokenKind::Plus || kind == TokenKind::Minus || kind == TokenKind::Star
                    || kind == TokenKind::Slash {
                    let left_type = match self.analyze_expression(left) {
                        Err(e) => {
                            return Err(e);
                        },
                        Ok(t) => t,
                    };
                    let right_type = match self.analyze_expression(right) {
                        Err(e) => {
                            return Err(e);
                        },
                        Ok(t) => t,
                    };
                    if !left_type.is_arithmetic_compatible(&right_type) {
                        let mut msg = String::new();
                        msg.append("Hindi pwede gawin ang `");
                        msg.append(op.lexeme());
                        msg.append("` na operasyon sa `");
                        left_type.push_text(&mut msg);
                        msg.append("` at `");
                        right_type.push_text(&mut msg);
                        msg.append("`");
                        Err(
                            CompilerError::new(
                                msg.as_str(),
                                ErrorKind::Error,
                                op.line(),
                                op.column(),
                            ),
                        )
                    } else {
                        Ok(left_type)
                    }
                } else {
                    let mut msg = String::new();
                    msg.append("Hindi tamang operator `");
                    msg.append(op.lexeme());
                    msg.append("`");
                    Err(CompilerError::new(msg.as_str(), ErrorKind::Error, op.line(), op.column()))
                }
            },
            _ => Ok(TolType::Unknown),
        }
    }

    /// The type of an assignment.
    fn analyze_assign(&mut self, expr: &Expr) -> (r: Result<TolType, CompilerError>)
        requires
            expr is Assign,
        ensures
            final(self).same_program(old(self)),
            agrees(
                r,
                typing::analyze_assign(old(self).tables(), expr@).result,
                |t: TolType| t@,
            ),
            final(self).tables() == typing::analyze_assign(old(self).tables(), expr@).tables,
            grows(old(self).tables(), final(self).tables()),
        decreases expr, 0nat,
    {
        match expr {
            Expr::Assign { left, right, line, column, .. } => {
                if !left.is_lvalue() {
                    return Err(
                        CompilerError::new(
                            "Ang nasa kaliwa ng `=` ay hindi isang lvalue",
                            ErrorKind::Error,
                            *line,
                            *column,
                        ),
                    );
                }
                match self.ensure_lvalue_is_mutable(left, *line, *column) {
                    Err(e) => {
                        return Err(e);
                    },
                    Ok(_) => {},
                }
                let left_type = match self.analyze_expression(left) {
                    Err(e) => {
                        return Err(e);
                    },
                    Ok(t) => t,
                };
                let right_type = match self.analyze_expression(right) {
                    Err(e) => {
                        return Err(e);
                    },
                    Ok(t) => t,
                };
                match right_type.is_assignment_compatible(&left_type, *line, *column) {
                    Err(e) => Err(e),
                    Ok(_) => Ok(TolType::Wala),
                }
            },
            _ => Ok(TolType::Unknown),
        }
    }

    /// The type of a call.
    fn analyze_fncall(&mut self, fncall: &Expr, line: usize, column: usize) -> (r: Result<
        TolType,
        CompilerError,
    >)
        requires
            fncall matches Expr::FnCall { line: l, column: c, .. } && l == line && c == column,
        ensures
            final(self).same_program(old(self)),
            agrees(
                r,
                typing::analyze_fncall(old(self).tables(), fncall@).result,
                |t: TolType| t@,
            ),
            final(self).tables() == typing::analyze_fncall(old(self).tables(), fncall@).tables,
            grows(old(self).tables(), final(self).tables()),
        decreases fncall, 0nat,
    {
        match fncall {
            Expr::FnCall { callee, args, .. } => {
                let mut arg_types = match self.analyze_all(args) {
                    Err(e) => {
                        return Err(e);
                    },
                    Ok(t) => t,
                };
                assert(callee@ is MemberAccess == (**callee is MemberAccess));
                match &**callee {
                    Expr::MemberAccess { left, .. } => {
                        assert(callee@->MemberAccess_left == left@);
                        let left_type = match self.analyze_expression(left) {
                            Err(e) => {
                                return Err(e);
                            },
                            Ok(t) => t,
                        };
                        assert(types_view(arg_types@.insert(0, left_type)) =~= types_view(
                            arg_types@,
                        ).insert(0, left_type@));
                        arg_types.insert(0, left_type);
                    },
                    _ => {},
                }
                let callee_symbol = match self.lookup_lvalue(callee, line, column) {
                    Err(e) => {
                        return Err(e);
                    },
                    Ok(s) => s,
                };
                match callee_symbol {
                    Symbol::Paraan { param_types, return_type, .. } => {
                        match check_call(&arg_types, &param_types, line, column) {
                            Err(e) => Err(e),
                            Ok(_) => Ok(return_type),
                        }
                    },
                    Symbol::Method { param_types, return_type, .. } => {
                        match check_call(&arg_types, &param_types, line, column) {
                            Err(e) => Err(e),
                            Ok(_) => Ok(return_type),
                        }
                    },
                    _ => Err(
                        CompilerError::new(
                            "Invalid ang tigatawag ng paraan",
                            ErrorKind::Error,
                            line,
                            column,
                        ),
                    ),
                }
            },
            _ => Ok(TolType::Unknown),
        }
    }

    /// The type of a call of something that the language itself provides.
    fn analyze_magic_fncall(&mut self, expr: &Expr) -> (r: Result<TolType, CompilerError>)
        requires
            expr is MagicFnCall,
        ensures
            final(self).same_program(old(self)),
            agrees(
                r,
                typing::analyze_magic_fncall(old(self).tables(), expr@).result,
                |t: TolType| t@,
            ),
            final(self).tables() == typing::analyze_magic_fncall(old(self).tables(), expr@).tables,
            grows(old(self).tables(), final(self).tables()),
        decreases expr, 0nat,
    {
        match expr {
            Expr::MagicFnCall { name, args, .. } => {
                let line = name.line();
                let column = name.column();
                let arg_types = match self.analyze_all(args) {
                    Err(e) => {
                        return Err(e);
                    },
                    Ok(t) => t,
                };
                let sym = match self.lookup_symbol(name.lexeme(), line, column) {
                    Err(e) => {
                        return Err(e);
                    },
                    Ok(s) => s,
                };
                match sym {
                    Symbol::Paraan { param_types, return_type, .. } => {
                        match check_call(&arg_types, &param_types, line, column) {
                            Err(e) => Err(e),
                            Ok(_) => Ok(return_type),
                        }
                    },
                    _ => {
                        let mut msg = String::new();
                        msg.append("Hindi nahanap ang `");
                        msg.append(name.lexeme());
                        msg.append("`");
                        Err(CompilerError::new(msg.as_str(), ErrorKind::Error, line, column))
                    },
                }
            },
            _ => Ok(TolType::Unknown),
        }
    }

    /// The type of `left.member`.
    fn analyze_member_access(&mut self, expr: &Expr) -> (r: Result<TolType, CompilerError>)
        requires
            expr is MemberAccess,
        ensures
            final(self).same_program(old(self)),
            agrees(
                r,
                typing::analyze_expression(old(self).tables(), expr@).result,
                |t: TolType| t@,
            ),
            final(self).tables() == typing::analyze_expression(old(self).tables(), expr@).tables,
            grows(old(self).tables(), final(self).tables()),
        decreases expr, 0nat,
    {
        match expr {
            Expr::MemberAccess { left, member, line, column, .. } => {
                match self.lookup_member_access(left, member, *line, *column) {
                    Err(e) => Err(e),
                    Ok(sym) => Ok(sym.get_type()),
                }
            },
            _ => Ok(TolType::Unknown),
        }
    }

    /// The type of `left::field`.
    fn analyze_scope_resolution(&self, expr: &Expr) -> (r: Result<TolType, CompilerError>)
        requires
            expr is ScopeResolution,
        ensures
            agrees(
                r,
                typing::analyze_expression(self.tables(), expr@).result,
                |t: TolType| t@,
            ),
            self.tables() == typing::analyze_expression(self.tables(), expr@).tables,
    {
        match expr {
            Expr::ScopeResolution { left, field, line, column, .. } => {
                match self.lookup_scope_resolution(left, field, *line, *column) {
                    Err(e) => Err(e),
                    Ok(sym) => Ok(sym.get_type()),
                }
            },
            _ => Ok(TolType::Unknown),
        }
    }

    /// The type of a record literal.
    fn analyze_struct_expr(&mut self, struct_expr: &Expr) -> (r: Result<TolType, CompilerError>)
        requires
            struct_expr is Struct,
        ensures
            final(self).same_program(old(self)),
            agrees(
                r,
                typing::analyze_struct_expr(old(self).tables(), struct_expr@).result,
                |t: TolType| t@,
            ),
            final(self).tables() == typing::analyze_struct_expr(old(self).tables(), struct_expr@).tables,
            grows(old(self).tables(), final(self).tables()),
        decreases struct_expr, 0nat,
    {
        match struct_expr {
            Expr::Struct { callee, fields, line, column, .. } => {
                let field_types = match self.analyze_fields(fields) {
                    Err(e) => {
                        return Err(e);
                    },
                    Ok(t) => t,
                };
                let constructible = matches!(
                    &**callee,
                    Expr::Identifier { .. } | Expr::MemberAccess { .. } | Expr::ScopeResolution { .. }
                );
                assert(constructible == (callee@ is Identifier || callee@ is MemberAccess
                    || callee@ is ScopeResolution));
                if !constructible {
                    return Err(
                        CompilerError::new(
                            "Hindi ito pwede i-construct",
                            ErrorKind::Error,
                            *line,
                            *column,
                        ),
                    );
                }
                let callee_symbol = match self.lookup_lvalue(callee, *line, *column) {
                    Err(e) => {
                        return Err(e);
                    },
                    Ok(s) => s,
                };
                match callee_symbol {
                    Symbol::Bagay { name } => {
                        match self.check_record(name.as_str(), fields, &field_types, *line, *column) {
                            Err(e) => Err(e),
                            Ok(_) => Ok(TolType::Bagay(name)),
                        }
                    },
                    _ => Err(
                        CompilerError::new(
                            "Hindi pwede i-construct ang hindi bagay",
                            ErrorKind::Error,
                            *line,
                            *column,
                        ),
                    ),
                }
            },
            _ => Ok(TolType::Unknown),
        }
    }

    /// The type of an array literal, which is recorded for its node.
    fn analyze_array(&mut self, expr: &Expr) -> (r: Result<TolType, CompilerError>)
        requires
            expr is Array,
        ensures
            final(self).same_program(old(self)),
            agrees(
                r,
                typing::analyze_array(old(self).tables(), expr@).result,
                |t: TolType| t@,
            ),
            final(self).tables() == typing::analyze_array(old(self).tables(), expr@).tables,
            grows(old(self).tables(), final(self).tables()),
            r is Ok ==> final(self).tables().inferred.dom().contains(expr@.id()),
        decreases expr, 0nat,
    {
        match expr {
            Expr::Array { elements, line, column, id } => {
                assert(expr@ == (ExprView::Array {
                    elements: exprs_view(elements@),
                    line: *line,
                    column: *column,
                    id: *id,
                }));
                assert(elements.len() > 0 ==> exprs_view(elements@)[0] == elements@[0]@);
                if elements.len() == 0 {
                    return Err(
                        CompilerError::new(
                            "Hindi pwede ang walang laman na array kung walang ibinigay na sukat sa tipo",
                            ErrorKind::Error,
                            *line,
                            *column,
                        ),
                    );
                }
                let assumed_element_type = match self.analyze_expression(&elements[0]) {
                    Err(e) => {
                        return Err(e);
                    },
                    Ok(t) => t,
                };
                match self.analyze_elements(elements, &assumed_element_type, *line, *column) {
                    Err(e) => {
                        return Err(e);
                    },
                    Ok(_) => {},
                }
                let resulting_type = TolType::Array(
                    Box::new(assumed_element_type),
                    Some(elements.len()),
                );
                self.record_type(*id, resulting_type.clone());
                Ok(resulting_type)
            },
            _ => Ok(TolType::Unknown),
        }
    }

    /// Records the type found for a node.
    fn record_type(&mut self, id: usize, t: TolType)
        ensures
            final(self).same_program(old(self)),
            final(self).tables() == old(self).tables().record(id, t@),
            grows(old(self).tables(), final(self).tables()),
    {
        broadcast use vstd::std_specs::hash::group_hash_axioms;


        let _ = self.parent_module.inferred_types.insert(id, t);
        assert(inferred_view(self.parent_module.inferred_types@) =~= inferred_view(
            old(self).parent_module.inferred_types@,
        ).insert(id, t@));
    }

    /// The type of a range.
    fn analyze_range(&mut self, expr: &Expr) -> (r: Result<TolType, CompilerError>)
        requires
            expr is RangeExclusive || expr is RangeInclusive,
        ensures
            final(self).same_program(old(self)),
            agrees(
                r,
                typing::analyze_range(old(self).tables(), expr@).result,
                |t: TolType| t@,
            ),
            final(self).tables() == typing::analyze_range(old(self).tables(), expr@).tables,
            grows(old(self).tables(), final(self).tables()),
        decreases expr, 0nat,
    {
        let (start, end, line, column) = match expr {
            Expr::RangeExclusive { start, end, line, column, .. } => (start, end, *line, *column),
            Expr::RangeInclusive { start, end, line, column, .. } => (start, end, *line, *column),
            _ => {
                return Ok(TolType::USukat);
            },
        };
        let left_type = match self.analyze_expression(start) {
            Err(e) => {
                return Err(e);
            },
            Ok(t) => t,
        };
        let right_type = match self.analyze_expression(end) {
            Err(e) => {
                return Err(e);
            },
            Ok(t) => t,
        };
        match left_type.is_assignment_compatible(&TolType::USukat, line, column) {
            Err(e) => {
                return Err(
                    e.add_note(
                        "Dapat ang simula at wakas ng `..` na operasyon ay may usukat na tipo",
                    ),
                );
            },
            Ok(_) => {},
        }
        match right_type.is_assignment_compatible(&TolType::USukat, line, column) {
            Err(e) => {
                return Err(
                    e.add_note(
                        "Dapat ang simula at wakas ng `..` na operasyon ay may usukat na tipo",
                    ),
                );
            },
            Ok(_) => {},
        }
        Ok(TolType::USukat)
    }
}

/// The types of a list of names with types.
fn types_of(params: &Vec<(Token, TolType)>) -> (r: Vec<TolType>)
    ensures
        types_view(r@) == checking::types_of(params_view(params@)),
{
    let mut r: Vec<TolType> = Vec::new();
    let mut i: usize = 0;
    assert(types_view(r@) =~= checking::types_of(params_view(params@)).take(0));
    while i < params.len()
        invariant
            0 <= i <= params.len(),
            types_view(r@) == checking::types_of(params_view(params@)).take(i as int),
        decreases params.len() - i,
    {
        let ghost prev = r@;
        let t = params[i].1.clone();
        r.push(t);
        proof {
            lemma_types_view_push(prev, t);
        }
        assert(types_view(r@) =~= checking::types_of(params_view(params@)).take(i + 1));
        i = i + 1;
    }
    assert(checking::types_of(params_view(params@)).take(params.len() as int)
        =~= checking::types_of(params_view(params@)));
    r
}

impl SemanticAnalyzer {
    /// The type of an unannotated binding, from its value. The type is
    /// recorded for the node `id`.
    pub fn infer_type(&mut self, expr: &Expr, id: usize) -> (r: Result<TolType, CompilerError>)
        ensures
            final(self).same_program(old(self)),
            agrees(
                r,
                checking::infer_type(old(self).tables(), expr@, id).result,
                |t: TolType| t@,
            ),
            final(self).tables() == checking::infer_type(old(self).tables(), expr@, id).tables,
            grows(old(self).tables(), final(self).tables()),
            r matches Ok(t) ==> final(self).tables().inferred.dom().contains(id),
            r matches Ok(t) ==> final(self).tables().inferred[id] == t@,
    {
        let expr_type = match self.analyze_expression(expr) {
            Err(e) => {
                return Err(e);
            },
            Ok(t) => t,
        };
        let inferred_type = resolve_expr_type(expr_type);
        self.record_type(id, inferred_type.clone());
        Ok(inferred_type)
    }

    /// The names of a list with their types resolved.
    fn resolve_params(&self, params: &Vec<(Token, TolType)>, receiver: Option<&TolType>) -> (r:
        Result<Vec<(Token, TolType)>, CompilerError>)
        ensures
            agrees(
                r,
                checking::resolve_params(
                    self.tables(),
                    params_view(params@),
                    match receiver {
                        Some(t) => Some(t@),
                        None => None,
                    },
                    0,
                    Seq::empty(),
                ),
                |v: Vec<(Token, TolType)>| params_view(v@),
            ),
    {
        let ghost seen = match receiver {
            Some(t) => Some(t@),
            None => None,
        };
        let mut resolved: Vec<(Token, TolType)> = Vec::new();
        assert(params_view(resolved@) =~= Seq::empty());
        let ghost goal = checking::resolve_params(
            self.tables(),
            params_view(params@),
            seen,
            0,
            Seq::empty(),
        );
        let mut i: usize = 0;
        while i < params.len()
            invariant
                0 <= i <= params.len(),
                seen == (match receiver {
                    Some(t) => Some(t@),
                    None => None,
                }),
                goal == checking::resolve_params(
                    self.tables(),
                    params_view(params@),
                    seen,
                    0,
                    Seq::empty(),
                ),
                goal == checking::resolve_params(
                    self.tables(),
                    params_view(params@),
                    seen,
                    i as int,
                    params_view(resolved@),
                ),
            decreases params.len() - i,
        {
            let tok = &params[i].0;
            let ty = &params[i].1;
            assert(params_view(params@)[i as int] == (tok@, ty@));
            let resolved_type = match (ty, receiver) {
                (TolType::AkoType, Some(t)) => t.clone(),
                _ => match self.resolve_type(ty, tok.line(), tok.column()) {
                    Err(e) => {
                        return Err(e);
                    },
                    Ok(t) => t,
                },
            };
            let name = tok.clone();
            proof {
                lemma_params_view_push(resolved@, name, resolved_type);
            }
            resolved.push((name, resolved_type));
            i = i + 1;
        }
        Ok(resolved)
    }

    /// Declares names as variables that cannot be assigned to.
    fn declare_names(&mut self, names: &Vec<(Token, TolType)>) -> (r: Result<(), CompilerError>)
        ensures
            final(self).same_program(old(self)),
            agrees(
                r,
                checking::declare_names(old(self).tables(), params_view(names@), 0).result,
                |u: ()| u,
            ),
            final(self).tables() == checking::declare_names(
                old(self).tables(),
                params_view(names@),
                0,
            ).tables,
            grows(old(self).tables(), final(self).tables()),
    {
        let ghost goal = checking::declare_names(old(self).tables(), params_view(names@), 0);
        let mut i: usize = 0;
        while i < names.len()
            invariant
                0 <= i <= names.len(),
                self.same_program(old(self)),
                grows(old(self).tables(), self.tables()),
                goal == checking::declare_names(old(self).tables(), params_view(names@), 0),
                goal == checking::declare_names(self.tables(), params_view(names@), i as int),
            decreases names.len() - i,
        {
            let tok = &names[i].0;
            let ty = &names[i].1;
            assert(params_view(names@)[i as int] == (tok@, ty@));
            let symbol = Symbol::Var {
                mutable: false,
                name: copy_str(tok.lexeme()),
                tol_type: ty.clone(),
            };
            if !self.declare_symbol(tok.lexeme(), symbol) {
                return Err(self.declared_in_scope_err(tok));
            }
            i = i + 1;
        }
        Ok(())
    }

    /// The body of a function or method, in a scope of its own that holds
    /// the parameters.
    fn analyze_function(
        &mut self,
        params: &Vec<(Token, TolType)>,
        return_type: TolType,
        block: &Stmt,
    ) -> (r: Result<(), CompilerError>)
        ensures
            final(self).same_program(old(self)),
            agrees(
                r,
                checking::analyze_function(
                    old(self).tables(),
                    params_view(params@),
                    return_type@,
                    block@,
                ).result,
                |u: ()| u,
            ),
            final(self).tables() == checking::analyze_function(
                old(self).tables(),
                params_view(params@),
                return_type@,
                block@,
            ).tables,
            grows(old(self).tables(), final(self).tables()),
        decreases block, 2nat,
    {
        self.enter_scope();
        match self.declare_names(params) {
            Err(e) => {
                self.exit_scope();
                return Err(e);
            },
            Ok(_) => {},
        }
        proof {
            checking::lemma_declare_names_frame(
                old(self).tables().enter_scope(),
                params_view(params@),
                0,
            );
        }
        let saved = self.current_func_return_type.clone();
        self.current_func_return_type = return_type;
        let result = self.analyze_stmt(block);
        self.exit_scope();
        self.current_func_return_type = saved;
        result
    }

    /// A function.
    fn analyze_par(
        &mut self,
        par_identifier: &Token,
        params: &Vec<(Token, TolType)>,
        return_type: &TolType,
        block: &Stmt,
    ) -> (r: Result<(), CompilerError>)
        ensures
            final(self).same_program(old(self)),
            agrees(
                r,
                checking::analyze_par(
                    old(self).tables(),
                    par_identifier@,
                    params_view(params@),
                    return_type@,
                    block@,
                ).result,
                |u: ()| u,
            ),
            final(self).tables() == checking::analyze_par(
                old(self).tables(),
                par_identifier@,
                params_view(params@),
                return_type@,
                block@,
            ).tables,
            grows(old(self).tables(), final(self).tables()),
        decreases block, 3nat,
    {
        let resolved_params = match self.resolve_params(params, None) {
            Err(e) => {
                return Err(e);
            },
            Ok(p) => p,
        };
        let resolved_return = match self.resolve_type(
            return_type,
            par_identifier.line(),
            par_identifier.column(),
        ) {
            Err(e) => {
                return Err(e);
            },
            Ok(t) => t,
        };
        let par_symbol = Symbol::Paraan {
            name: copy_str(par_identifier.lexeme()),
            param_types: types_of(&resolved_params),
            return_type: resolved_return.clone(),
        };
        if !self.declare_symbol(par_identifier.lexeme(), par_symbol) {
            return Err(self.declared_in_scope_err(par_identifier));
        }
        self.analyze_function(&resolved_params, resolved_return, block)
    }

    /// A method of the type `itupad_for`: what it stands for, once its body
    /// is analysed.
    fn analyze_method(
        &mut self,
        itupad_for: &TolType,
        is_static: bool,
        met_identifier: &Token,
        params: &Vec<(Token, TolType)>,
        return_type: &TolType,
        block: &Stmt,
    ) -> (r: Result<Symbol, CompilerError>)
        ensures
            final(self).same_program(old(self)),
            agrees(
                r,
                checking::analyze_method(
                    old(self).tables(),
                    itupad_for@,
                    is_static,
                    met_identifier@,
                    params_view(params@),
                    return_type@,
                    block@,
                ).result,
                |s: Symbol| s@,
            ),
            final(self).tables() == checking::analyze_method(
                old(self).tables(),
                itupad_for@,
                is_static,
                met_identifier@,
                params_view(params@),
                return_type@,
                block@,
            ).tables,
            grows(old(self).tables(), final(self).tables()),
        decreases block, 3nat,
    {
        let resolved_params = match self.resolve_params(params, Some(itupad_for)) {
            Err(e) => {
                return Err(e);
            },
            Ok(p) => p,
        };
        let symbol = Symbol::Method {
            is_static,
            name: copy_str(met_identifier.lexeme()),
            param_types: types_of(&resolved_params),
            return_type: return_type.clone(),
        };
        if !self.declare_symbol(met_identifier.lexeme(), symbol.clone()) {
            return Err(self.declared_in_scope_err(met_identifier));
        }
        match self.analyze_function(&resolved_params, return_type.clone(), block) {
            Err(e) => Err(e),
            Ok(_) => Ok(symbol),
        }
    }

    /// A binding.
    fn analyze_ang(
        &mut self,
        mutable: bool,
        ang_identifier: &Token,
        ang_type: &TolType,
        rhs: &Expr,
        line: usize,
        column: usize,
        id: usize,
    ) -> (r: Result<(), CompilerError>)
        ensures
            final(self).same_program(old(self)),
            agrees(
                r,
                checking::analyze_ang(
                    old(self).tables(),
                    mutable,
                    ang_identifier@,
                    ang_type@,
                    rhs@,
                    line,
                    column,
                    id,
                ).result,
                |u: ()| u,
            ),
            final(self).tables() == checking::analyze_ang(
                old(self).tables(),
                mutable,
                ang_identifier@,
                ang_type@,
                rhs@,
                line,
                column,
                id,
            ).tables,
            grows(old(self).tables(), final(self).tables()),
            r is Ok && ang_type@ is Unknown ==> final(self).tables().inferred.dom().contains(id),
    {
        let resolved = match ang_type {
            TolType::Unknown => self.infer_type(rhs, id),
            _ => self.resolve_type(ang_type, line, column),
        };
        assert(agrees(
            resolved,
            checking::binding_type(old(self).tables(), ang_type@, rhs@, line, column, id).result,
            |t: TolType| t@,
        ));
        let ang_type = match resolved {
            Err(e) => {
                return Err(e);
            },
            Ok(t) => t,
        };
        self.declare_array_types(&ang_type);
        let rhs_type = match self.analyze_expression(rhs) {
            Err(e) => {
                return Err(e);
            },
            Ok(t) => t,
        };
        match rhs_type.is_assignment_compatible(&ang_type, line, column) {
            Err(e) => {
                return Err(e);
            },
            Ok(_) => {},
        }
        let var_symbol = Symbol::Var {
            mutable,
            name: copy_str(ang_identifier.lexeme()),
            tol_type: ang_type,
        };
        if !self.declare_symbol(ang_identifier.lexeme(), var_symbol) {
            return Err(self.declared_in_scope_err(ang_identifier));
        }
        Ok(())
    }

    /// A return.
    fn analyze_ibalik(&mut self, rhs: &Expr, line: usize, column: usize) -> (r: Result<
        (),
        CompilerError,
    >)
        ensures
            final(self).same_program(old(self)),
            agrees(
                r,
                checking::analyze_ibalik(old(self).tables(), rhs@, line, column).result,
                |u: ()| u,
            ),
            final(self).tables() == checking::analyze_ibalik(
                old(self).tables(),
                rhs@,
                line,
                column,
            ).tables,
            grows(old(self).tables(), final(self).tables()),
    {
        let return_type = match self.analyze_expression(rhs) {
            Err(e) => {
                return Err(e);
            },
            Ok(t) => t,
        };
        if matches!(self.current_func_return_type, TolType::Unknown) {
            return Err(
                CompilerError::new(
                    "Hindi pwede magbalik sa labas ng paraan",
                    ErrorKind::Error,
                    line,
                    column,
                ),
            );
        }
        return_type.is_assignment_compatible(&self.current_func_return_type, line, column)
    }

    /// Declares a record: its name, and its type without members yet.
    fn declare_bagay(&mut self, bagay_identifier: &Token) -> (r: Result<(), CompilerError>)
        ensures
            final(self).same_program(old(self)),
            agrees(
                r,
                checking::declare_bagay(old(self).tables(), bagay_identifier@).result,
                |u: ()| u,
            ),
            final(self).tables() == checking::declare_bagay(
                old(self).tables(),
                bagay_identifier@,
            ).tables,
            grows(old(self).tables(), final(self).tables()),
    {
        let bagay_name = bagay_identifier.lexeme();
        let bagay_symbol = Symbol::Bagay { name: copy_str(bagay_name) };
        if !self.declare_symbol(bagay_name, bagay_symbol) {
            return Err(self.declared_in_scope_err(bagay_identifier));
        }
        if self.parent_module.type_table.contains_key(bagay_name) {
            let mut msg = String::new();
            msg.append("Hindi marehistro ang `");
            msg.append(bagay_name);
            msg.append("` dahil may ganitong tipo na");
            return Err(
                CompilerError::new(
                    msg.as_str(),
                    ErrorKind::Error,
                    bagay_identifier.line(),
                    bagay_identifier.column(),
                ),
            );
        }
        let bagay_type = TolType::Bagay(copy_str(bagay_name));
        self.parent_module.type_table.insert(copy_str(bagay_name), TypeInfo::new(bagay_type));
        Ok(())
    }

    /// Gives a declared record its fields.
    fn define_fields(&mut self, bagay_identifier: &Token, fields: &Vec<(Token, TolType)>) -> (r:
        Result<(), CompilerError>)
        ensures
            final(self).same_program(old(self)),
            agrees(
                r,
                checking::define_fields(
                    old(self).tables(),
                    bagay_identifier@,
                    params_view(fields@),
                ).result,
                |u: ()| u,
            ),
            final(self).tables() == checking::define_fields(
                old(self).tables(),
                bagay_identifier@,
                params_view(fields@),
            ).tables,
            grows(old(self).tables(), final(self).tables()),
    {
        let bagay_name = bagay_identifier.lexeme();
        let resolved_fields = match self.resolve_params(fields, None) {
            Err(e) => {
                return Err(e);
            },
            Ok(f) => f,
        };
        proof {
            checking::lemma_declare_names_in_scope(self.tables(), params_view(resolved_fields@));
        }
        self.enter_scope();
        let unique = self.declare_names(&resolved_fields);
        self.exit_scope();
        match unique {
            Err(e) => {
                return Err(e);
            },
            Ok(_) => {},
        }
        let mut info = match self.parent_module.type_table.remove(bagay_name) {
            None => {
                assert(self.parent_module.type_table@ =~= old(self).parent_module.type_table@);
                let mut msg = String::new();
                msg.append("Hindi valid na tipo ang `");
                msg.append(bagay_name);
                msg.append("`");
                return Err(
                    CompilerError::new(
                        msg.as_str(),
                        ErrorKind::Error,
                        bagay_identifier.line(),
                        bagay_identifier.column(),
                    ),
                );
            },
            Some(info) => info,
        };
        let ghost start = info@;
        let ghost goal = checking::add_fields(
            start.members,
            bagay_name@,
            params_view(resolved_fields@),
            0,
        );
        let mut stopped: Option<CompilerError> = None;
        let mut i: usize = 0;
        while i < resolved_fields.len() && stopped.is_none()
            invariant
                0 <= i <= resolved_fields.len(),
                info@.kind == start.kind,
                info@.static_members == start.static_members,
                stopped matches Some(e) ==> goal == (info@.members, Some(e@)),
                stopped is None ==> goal == checking::add_fields(
                    info@.members,
                    bagay_name@,
                    params_view(resolved_fields@),
                    i as int,
                ),
            decreases resolved_fields.len() - i, if stopped is None { 1nat } else { 0nat },
        {
            let tok = &resolved_fields[i].0;
            let ty = &resolved_fields[i].1;
            assert(params_view(resolved_fields@)[i as int] == (tok@, ty@));
            let holds_itself = match ty {
                TolType::Bagay(name) => str_eq(name.as_str(), bagay_name),
                _ => false,
            };
            if holds_itself {
                let mut msg = String::new();
                msg.append("Ang `");
                msg.append(bagay_name);
                msg.append("` ay hindi maaaring maglaman ng sarili nito nang direkta");
                stopped = Some(
                    CompilerError::new(msg.as_str(), ErrorKind::Error, tok.line(), tok.column()),
                );
            } else {
                info.members.insert(
                    copy_str(tok.lexeme()),
                    Symbol::Var {
                        name: copy_str(tok.lexeme()),
                        mutable: false,
                        tol_type: ty.clone(),
                    },
                );
                i = i + 1;
            }
        }
        assert(self.parent_module.type_table@.insert(bagay_name@, info@) =~= old(self)
            .parent_module.type_table@.insert(bagay_name@, info@));
        self.parent_module.type_table.insert(copy_str(bagay_name), info);
        match stopped {
            Some(e) => Err(e),
            None => Ok(()),
        }
    }

    /// A record: declared, then given its fields.
    pub fn analyze_bagay(&mut self, bagay_identifier: &Token, fields: &Vec<(Token, TolType)>) -> (r:
        Result<(), CompilerError>)
        ensures
            final(self).same_program(old(self)),
            agrees(
                r,
                checking::analyze_bagay(
                    old(self).tables(),
                    bagay_identifier@,
                    params_view(fields@),
                ).result,
                |u: ()| u,
            ),
            final(self).tables() == checking::analyze_bagay(
                old(self).tables(),
                bagay_identifier@,
                params_view(fields@),
            ).tables,
            grows(old(self).tables(), final(self).tables()),
    {
        match self.declare_bagay(bagay_identifier) {
            Err(e) => Err(e),
            Ok(_) => self.define_fields(bagay_identifier, fields),
        }
    }
}

impl SemanticAnalyzer {
    /// The methods of an `itupad` block, analysed one after the other.
    fn analyze_methods(&mut self, itupad_for: &TolType, methods: &Vec<Stmt>) -> (r: Result<
        Vec<Symbol>,
        CompilerError,
    >)
        ensures
            final(self).same_program(old(self)),
            agrees(
                r,
                checking::analyze_methods(
                    old(self).tables(),
                    itupad_for@,
                    stmts_view(methods@),
                    0,
                    Seq::empty(),
                ).result,
                |v: Vec<Symbol>| symbols_view(v@),
            ),
            final(self).tables() == checking::analyze_methods(
                old(self).tables(),
                itupad_for@,
                stmts_view(methods@),
                0,
                Seq::empty(),
            ).tables,
            grows(old(self).tables(), final(self).tables()),
        decreases methods, 0nat,
    {
        let mut analyzed_methods: Vec<Symbol> = Vec::new();
        assert(symbols_view(analyzed_methods@) =~= Seq::empty());
        let ghost goal = checking::analyze_methods(
            old(self).tables(),
            itupad_for@,
            stmts_view(methods@),
            0,
            Seq::empty(),
        );
        let mut i: usize = 0;
        while i < methods.len()
            invariant
                0 <= i <= methods.len(),
                self.same_program(old(self)),
                grows(old(self).tables(), self.tables()),
                goal == checking::analyze_methods(
                    old(self).tables(),
                    itupad_for@,
                    stmts_view(methods@),
                    0,
                    Seq::empty(),
                ),
                goal == checking::analyze_methods(
                    self.tables(),
                    itupad_for@,
                    stmts_view(methods@),
                    i as int,
                    symbols_view(analyzed_methods@),
                ),
            decreases methods.len() - i,
        {
            assert(stmts_view(methods@)[i as int] == methods@[i as int]@);
            match &methods[i] {
                Stmt::Method { is_static, met_identifier, params, return_type, block, .. } => {
                    let ghost before = analyzed_methods@;
                    match self.analyze_method(
                        itupad_for,
                        *is_static,
                        met_identifier,
                        params,
                        return_type,
                        block,
                    ) {
                        Err(e) => {
                            return Err(e);
                        },
                        Ok(symbol) => {
                            proof {
                                lemma_symbols_view_push(before, symbol);
                            }
                            analyzed_methods.push(symbol);
                        },
                    }
                },
                _ => {},
            }
            i = i + 1;
        }
        Ok(analyzed_methods)
    }

    /// Attaches methods to the entry of a type.
    fn attach_methods(
        info: TypeInfo,
        type_text: &str,
        methods: &Vec<Symbol>,
        line: usize,
        column: usize,
    ) -> (r: (TypeInfo, Option<CompilerError>))
        ensures
            r.0@ == checking::attach_methods(
                info@,
                type_text@,
                symbols_view(methods@),
                0,
                line,
                column,
            ).0,
            match r.1 {
                Some(e) => checking::attach_methods(
                    info@,
                    type_text@,
                    symbols_view(methods@),
                    0,
                    line,
                    column,
                ).1 == Some(e@),
                None => checking::attach_methods(
                    info@,
                    type_text@,
                    symbols_view(methods@),
                    0,
                    line,
                    column,
                ).1 is None,
            },
    {
        let mut type_info = info;
        let ghost goal = checking::attach_methods(
            info@,
            type_text@,
            symbols_view(methods@),
            0,
            line,
            column,
        );
        let mut i: usize = 0;
        while i < methods.len()
            invariant
                0 <= i <= methods.len(),
                goal == checking::attach_methods(
                    info@,
                    type_text@,
                    symbols_view(methods@),
                    0,
                    line,
                    column,
                ),
                goal == checking::attach_methods(
                    type_info@,
                    type_text@,
                    symbols_view(methods@),
                    i as int,
                    line,
                    column,
                ),
            decreases methods.len() - i,
        {
            assert(symbols_view(methods@)[i as int] == methods@[i as int]@);
            match &methods[i] {
                Symbol::Method { name, is_static, .. } => {
                    let taken = if *is_static {
                        type_info.static_members.contains_key(name.as_str())
                    } else {
                        type_info.members.contains_key(name.as_str())
                    };
                    if taken {
                        let mut msg = String::new();
                        msg.append("May paraan na na `");
                        msg.append(name.as_str());
                        msg.append("` ang tipong `");
                        msg.append(type_text);
                        msg.append("`");
                        let e = CompilerError::new(msg.as_str(), ErrorKind::Error, line, column);
                        return (type_info, Some(e));
                    }
                    if *is_static {
                        type_info.static_members.insert(name.clone(), methods[i].clone());
                    } else {
                        type_info.members.insert(name.clone(), methods[i].clone());
                    }
                },
                _ => {},
            }
            i = i + 1;
        }
        (type_info, None)
    }

    /// An `itupad`.
    fn analyze_itupad(&mut self, itupad_for: &TolType, itupad_block: &Stmt, line: usize, column: usize)
        -> (r: Result<(), CompilerError>)
        ensures
            final(self).same_program(old(self)),
            agrees(
                r,
                checking::analyze_itupad(
                    old(self).tables(),
                    itupad_for@,
                    itupad_block@,
                    line,
                    column,
                ).result,
                |u: ()| u,
            ),
            final(self).tables() == checking::analyze_itupad(
                old(self).tables(),
                itupad_for@,
                itupad_block@,
                line,
                column,
            ).tables,
            grows(old(self).tables(), final(self).tables()),
        decreases itupad_block, 4nat,
    {
        self.enter_scope();
        assert(self.tables().exit_scope().scopes =~= old(self).tables().scopes);
        let receiver = match self.resolve_type(itupad_for, line, column) {
            Err(e) => {
                self.exit_scope();
                return Err(e);
            },
            Ok(t) => t,
        };
        let analyzed = match itupad_block {
            Stmt::ItupadBlock { methods, .. } => self.analyze_methods(&receiver, methods),
            _ => Ok(Vec::new()),
        };
        self.exit_scope();
        let analyzed_methods = match analyzed {
            Err(e) => {
                return Err(e);
            },
            Ok(m) => m,
        };
        assert(itupad_block !is ItupadBlock ==> symbols_view(analyzed_methods@) =~= Seq::empty());
        let key = receiver.to_text();
        self.attach_to_type(key, &analyzed_methods, line, column)
    }

    /// Attaches methods to the type that is named `key`.
    fn attach_to_type(&mut self, key: String, methods: &Vec<Symbol>, line: usize, column: usize)
        -> (r: Result<(), CompilerError>)
        ensures
            final(self).same_program(old(self)),
            agrees(
                r,
                checking::attach_to_type(
                    old(self).tables(),
                    key@,
                    symbols_view(methods@),
                    line,
                    column,
                ).result,
                |u: ()| u,
            ),
            final(self).tables() == checking::attach_to_type(
                old(self).tables(),
                key@,
                symbols_view(methods@),
                line,
                column,
            ).tables,
            grows(old(self).tables(), final(self).tables()),
    {
        let info = match self.parent_module.type_table.remove(key.as_str()) {
            None => {
                assert(self.parent_module.type_table@ =~= old(self).parent_module.type_table@);
                let mut msg = String::new();
                msg.append("Ang tipong ");
                msg.append(key.as_str());
                msg.append(" ay hindi pa na-ideklara");
                return Err(CompilerError::new(msg.as_str(), ErrorKind::Error, line, column));
            },
            Some(info) => info,
        };
        let ghost before = self.parent_module.type_table@;
        let (attached, stopped) = Self::attach_methods(info, key.as_str(), methods, line, column);
        self.parent_module.type_table.insert(key, attached);
        assert(self.parent_module.type_table@ =~= old(self).parent_module.type_table@.insert(
            key@,
            attached@,
        ));
        match stopped {
            Some(e) => Err(e),
            None => Ok(()),
        }
    }

    /// A conditional: the condition and the body of each branch.
    fn analyze_kung(&mut self, branches: &Vec<KungBranch>) -> (r: Result<(), CompilerError>)
        ensures
            final(self).same_program(old(self)),
            agrees(
                r,
                checking::analyze_branches(old(self).tables(), branches_view(branches@), 0).result,
                |u: ()| u,
            ),
            final(self).tables() == checking::analyze_branches(
                old(self).tables(),
                branches_view(branches@),
                0,
            ).tables,
            grows(old(self).tables(), final(self).tables()),
        decreases branches, 0nat,
    {
        let ghost goal = checking::analyze_branches(old(self).tables(), branches_view(branches@), 0);
        let mut i: usize = 0;
        while i < branches.len()
            invariant
                0 <= i <= branches.len(),
                self.same_program(old(self)),
                grows(old(self).tables(), self.tables()),
                goal == checking::analyze_branches(
                    old(self).tables(),
                    branches_view(branches@),
                    0,
                ),
                goal == checking::analyze_branches(
                    self.tables(),
                    branches_view(branches@),
                    i as int,
                ),
            decreases branches.len() - i,
        {
            let branch = &branches[i];
            assert(branches_view(branches@)[i as int] == branch@);
            match &branch.condition {
                Some(s) => match self.analyze_expression(s) {
                    Err(e) => {
                        return Err(e);
                    },
                    Ok(_) => {},
                },
                None => {},
            }
            match self.analyze_stmt(&branch.block) {
                Err(e) => {
                    return Err(e);
                },
                Ok(_) => {},
            }
            i = i + 1;
        }
        Ok(())
    }

    /// A loop over an iterator.
    fn analyze_sa(&mut self, iterator: &Expr, bind: &Token, block: &Stmt, id: usize) -> (r: Result<
        (),
        CompilerError,
    >)
        ensures
            final(self).same_program(old(self)),
            agrees(
                r,
                checking::analyze_sa(old(self).tables(), iterator@, bind@, block@, id).result,
                |u: ()| u,
            ),
            final(self).tables() == checking::analyze_sa(
                old(self).tables(),
                iterator@,
                bind@,
                block@,
                id,
            ).tables,
            grows(old(self).tables(), final(self).tables()),
            r is Ok ==> final(self).tables().inferred.dom().contains(id),
        decreases block, 3nat,
    {
        self.enter_scope();
        let bind_type = match self.infer_type(iterator, id) {
            Err(e) => {
                self.exit_scope();
                return Err(e);
            },
            Ok(t) => t,
        };
        let bind_symbol = Symbol::Var {
            mutable: false,
            name: copy_str(bind.lexeme()),
            tol_type: bind_type,
        };
        if !self.declare_symbol(bind.lexeme(), bind_symbol) {
            let e = self.declared_in_scope_err(bind);
            self.exit_scope();
            return Err(e);
        }
        let result = self.analyze_stmt(block);
        self.exit_scope();
        result
    }

    /// The statements of a block, in a scope of their own, up to the first
    /// that fails.
    fn analyze_block(&mut self, statements: &Vec<Stmt>) -> (r: Result<(), CompilerError>)
        ensures
            final(self).same_program(old(self)),
            agrees(
                r,
                checking::analyze_stmts(
                    old(self).tables().enter_scope(),
                    stmts_view(statements@),
                    0,
                ).result,
                |u: ()| u,
            ),
            final(self).tables() == checking::analyze_stmts(
                old(self).tables().enter_scope(),
                stmts_view(statements@),
                0,
            ).tables.exit_scope(),
            grows(old(self).tables(), final(self).tables()),
        decreases statements, 0nat,
    {
        self.enter_scope();
        let ghost goal = checking::analyze_stmts(
            old(self).tables().enter_scope(),
            stmts_view(statements@),
            0,
        );
        let mut i: usize = 0;
        while i < statements.len()
            invariant
                0 <= i <= statements.len(),
                self.same_program(old(self)),
                grows(old(self).tables().enter_scope(), self.tables()),
                goal == checking::analyze_stmts(
                    old(self).tables().enter_scope(),
                    stmts_view(statements@),
                    0,
                ),
                goal == checking::analyze_stmts(self.tables(), stmts_view(statements@), i as int),
            decreases statements.len() - i,
        {
            assert(stmts_view(statements@)[i as int] == statements@[i as int]@);
            match self.analyze_stmt(&statements[i]) {
                Err(e) => {
                    self.exit_scope();
                    return Err(e);
                },
                Ok(_) => {},
            }
            i = i + 1;
        }
        self.exit_scope();
        Ok(())
    }

    /// One statement.
    #[verifier::rlimit(80)]
    fn analyze_stmt(&mut self, stmt: &Stmt) -> (r: Result<(), CompilerError>)
        ensures
            final(self).same_program(old(self)),
            agrees(r, checking::analyze_stmt(old(self).tables(), stmt@).result, |u: ()| u),
            final(self).tables() == checking::analyze_stmt(old(self).tables(), stmt@).tables,
            grows(old(self).tables(), final(self).tables()),
        decreases stmt, 1nat,
    {
        match stmt {
            Stmt::Ang { ang_identifier, ang_type, rhs, line, column, id, mutable } => {
                self.analyze_ang(*mutable, ang_identifier, ang_type, rhs, *line, *column, *id)
            },
            Stmt::Par { par_identifier, params, return_type, block, .. } => {
                self.analyze_par(par_identifier, params, return_type, block)
            },
            Stmt::Ibalik { rhs, line, column, .. } => self.analyze_ibalik(rhs, *line, *column),
            Stmt::ExprS { expr, .. } => match self.analyze_expression(expr) {
                Err(e) => Err(e),
                Ok(_) => Ok(()),
            },
            Stmt::Bagay { bagay_identifier, fields, .. } => {
                self.analyze_bagay(bagay_identifier, fields)
            },
            Stmt::Itupad { itupad_for, itupad_block, line, column, .. } => {
                self.analyze_itupad(itupad_for, itupad_block, *line, *column)
            },
            Stmt::Kung { branches, .. } => self.analyze_kung(branches),
            Stmt::Sa { iterator, bind, block, id, .. } => {
                self.analyze_sa(iterator, bind, block, *id)
            },
            Stmt::Block { statements, .. } => self.analyze_block(statements),
            Stmt::Program(_) => Ok(()),
            Stmt::ItupadBlock { .. } => Ok(()),
            Stmt::Method { .. } => Ok(()),
        }
    }
}

impl SemanticAnalyzer {
    /// An analyzer of the module, whose tables hold what the language
    /// itself provides and nothing of the program yet.
    pub fn new(parent_module: Module) -> (a: Self)
        ensures
            a.tables() == checking::base_tables(),
            a.diagnostics() == Seq::<CompilerErrorView>::empty(),
            a.module().source_code == parent_module.source_code,
            a.module().source_path == parent_module.source_path,
            a.module().tokens == parent_module.tokens,
            a.module().ast == parent_module.ast,
    {
        let mut new_analyzer = Self {
            parent_module,
            errors: Vec::new(),
            current_func_return_type: TolType::Unknown,
        };
        new_analyzer.seed();
        new_analyzer
    }

    /// Sets the tables to what the language itself provides, and forgets
    /// the diagnostics.
    fn seed(&mut self)
        ensures
            final(self).tables() == checking::base_tables(),
            final(self).diagnostics() == Seq::<CompilerErrorView>::empty(),
            final(self).parent_module.source_code == old(self).parent_module.source_code,
            final(self).parent_module.source_path == old(self).parent_module.source_path,
            final(self).parent_module.tokens == old(self).parent_module.tokens,
            final(self).parent_module.ast == old(self).parent_module.ast,
    {
        self.errors = Vec::new();
        self.current_func_return_type = TolType::Unknown;
        self.parent_module.inferred_types = HashMap::new();
        self.parent_module.declared_array_types = Vec::new();
        self.declare_magic_funcs();
        self.declare_primitive_types();
        assert(errors_view(self.errors@) =~= Seq::empty());
        assert(inferred_view(self.parent_module.inferred_types@) =~= Map::empty());
        assert(strings_view(self.parent_module.declared_array_types@) =~= Seq::empty());
    }

    /// Makes the symbol table one scope that holds what the language
    /// itself provides.
    fn declare_magic_funcs(&mut self)
        ensures
            scopes_view(final(self).parent_module.symbol_table@) == seq![checking::intrinsics()],
            final(self).parent_module.source_code == old(self).parent_module.source_code,
            final(self).parent_module.source_path == old(self).parent_module.source_path,
            final(self).parent_module.tokens == old(self).parent_module.tokens,
            final(self).parent_module.ast == old(self).parent_module.ast,
            final(self).parent_module.type_table == old(self).parent_module.type_table,
            final(self).parent_module.inferred_types == old(self).parent_module.inferred_types,
            final(self).parent_module.declared_array_types == old(
                self,
            ).parent_module.declared_array_types,
            final(self).errors == old(self).errors,
            final(self).current_func_return_type == old(self).current_func_return_type,
    {
        let mut scope: NameTable<Symbol> = NameTable::new();
        let mut print_params: Vec<TolType> = Vec::new();
        print_params.push(TolType::Array(Box::new(TolType::U8), None));
        let mut println_params: Vec<TolType> = Vec::new();
        println_params.push(TolType::Array(Box::new(TolType::U8), None));
        let mut alis_params: Vec<TolType> = Vec::new();
        alis_params.push(TolType::I32);
        proof {
            let bytes = TolTypeView::Array(Box::new(TolTypeView::U8), None);
            assert(TolType::U8@ == TolTypeView::U8);
            assert(types_view(print_params@) =~= seq![bytes]);
            assert(types_view(println_params@) =~= seq![bytes]);
            assert(types_view(alis_params@) =~= seq![TolTypeView::I32]);
        }
        scope.insert(
            copy_str("print"),
            Symbol::Paraan {
                name: copy_str("print"),
                param_types: print_params,
                return_type: TolType::Wala,
            },
        );
        scope.insert(
            copy_str("println"),
            Symbol::Paraan {
                name: copy_str("println"),
                param_types: println_params,
                return_type: TolType::Wala,
            },
        );
        scope.insert(
            copy_str("alis"),
            Symbol::Paraan {
                name: copy_str("alis"),
                param_types: alis_params,
                return_type: TolType::Wala,
            },
        );
        let mut table: Vec<NameTable<Symbol>> = Vec::new();
        table.push(scope);
        assert(scopes_view(table@) =~= seq![checking::intrinsics()]);
        self.parent_module.symbol_table = table;
    }

    /// Makes the type table hold the primitive types and nothing else.
    fn declare_primitive_types(&mut self)
        ensures
            final(self).parent_module.type_table@ == checking::primitive_types(),
            final(self).parent_module.source_code == old(self).parent_module.source_code,
            final(self).parent_module.source_path == old(self).parent_module.source_path,
            final(self).parent_module.tokens == old(self).parent_module.tokens,
            final(self).parent_module.ast == old(self).parent_module.ast,
            final(self).parent_module.symbol_table == old(self).parent_module.symbol_table,
            final(self).parent_module.inferred_types == old(self).parent_module.inferred_types,
            final(self).parent_module.declared_array_types == old(
                self,
            ).parent_module.declared_array_types,
            final(self).errors == old(self).errors,
            final(self).current_func_return_type == old(self).current_func_return_type,
    {
        let mut type_table: NameTable<TypeInfo> = NameTable::new();
        type_table.insert(copy_str("i8"), TypeInfo::new(TolType::I8));
        type_table.insert(copy_str("i16"), TypeInfo::new(TolType::I16));
        type_table.insert(copy_str("i32"), TypeInfo::new(TolType::I32));
        type_table.insert(copy_str("i64"), TypeInfo::new(TolType::I64));
        type_table.insert(copy_str("isukat"), TypeInfo::new(TolType::ISukat));
        type_table.insert(copy_str("u8"), TypeInfo::new(TolType::U8));
        type_table.insert(copy_str("u16"), TypeInfo::new(TolType::U16));
        type_table.insert(copy_str("u32"), TypeInfo::new(TolType::U32));
        type_table.insert(copy_str("u64"), TypeInfo::new(TolType::U64));
        type_table.insert(copy_str("usukat"), TypeInfo::new(TolType::USukat));
        type_table.insert(copy_str("lutang"), TypeInfo::new(TolType::Lutang));
        type_table.insert(copy_str("dobletang"), TypeInfo::new(TolType::DobleTang));
        type_table.insert(copy_str("bool"), TypeInfo::new(TolType::Bool));
        type_table.insert(copy_str("kar"), TypeInfo::new(TolType::Kar));
        self.parent_module.type_table = type_table;
    }

    /// Where the analysis stands.
    pub open spec fn analysis(&self) -> Analysis {
        Analysis { tables: self.tables(), errors: self.diagnostics() }
    }

    /// Keeps the diagnostic of a rule that failed.
    fn note(&mut self, r: Result<(), CompilerError>)
        ensures
            final(self).tables() == old(self).tables(),
            final(self).parent_module == old(self).parent_module,
            final(self).diagnostics() == (match r {
                Err(e) => old(self).diagnostics().push(e@),
                Ok(_) => old(self).diagnostics(),
            }),
    {
        match r {
            Err(e) => {
                assert(errors_view(self.errors@.push(e)) =~= errors_view(self.errors@).push(e@));
                self.errors.push(e);
            },
            Ok(_) => {},
        }
    }

    /// The first pass over the program: every record is declared.
    fn declare_records(&mut self, program: &Vec<Stmt>) -> (declared: Vec<bool>)
        ensures
            final(self).parent_module.source_code == old(self).parent_module.source_code,
            final(self).parent_module.source_path == old(self).parent_module.source_path,
            final(self).parent_module.tokens == old(self).parent_module.tokens,
            final(self).parent_module.ast == old(self).parent_module.ast,
            checking::declare_records(old(self).analysis(), stmts_view(program@), 0, Seq::empty())
                == (checking::Declared { analysis: final(self).analysis(), declared: declared@ }),
            grows(old(self).tables(), final(self).tables()),
    {
        let mut declared: Vec<bool> = Vec::new();
        let ghost goal = checking::declare_records(
            old(self).analysis(),
            stmts_view(program@),
            0,
            Seq::empty(),
        );
        let mut i: usize = 0;
        while i < program.len()
            invariant
                0 <= i <= program.len(),
                self.parent_module.source_code == old(self).parent_module.source_code,
                self.parent_module.source_path == old(self).parent_module.source_path,
                self.parent_module.tokens == old(self).parent_module.tokens,
                self.parent_module.ast == old(self).parent_module.ast,
                grows(old(self).tables(), self.tables()),
                goal == checking::declare_records(
                    old(self).analysis(),
                    stmts_view(program@),
                    0,
                    Seq::empty(),
                ),
                goal == checking::declare_records(
                    self.analysis(),
                    stmts_view(program@),
                    i as int,
                    declared@,
                ),
            decreases program.len() - i,
        {
            assert(stmts_view(program@)[i as int] == program@[i as int]@);
            match &program[i] {
                Stmt::Bagay { bagay_identifier, .. } => {
                    let r = self.declare_bagay(bagay_identifier);
                    declared.push(r.is_ok());
                    self.note(r);
                },
                _ => {
                    declared.push(false);
                },
            }
            i = i + 1;
        }
        declared
    }

    /// The second pass: every record that was declared is given its fields.
    fn define_records(&mut self, program: &Vec<Stmt>, declared: &Vec<bool>)
        ensures
            final(self).parent_module.source_code == old(self).parent_module.source_code,
            final(self).parent_module.source_path == old(self).parent_module.source_path,
            final(self).parent_module.tokens == old(self).parent_module.tokens,
            final(self).parent_module.ast == old(self).parent_module.ast,
            final(self).analysis() == checking::define_records(
                old(self).analysis(),
                stmts_view(program@),
                declared@,
                0,
            ),
            grows(old(self).tables(), final(self).tables()),
    {
        let ghost goal = checking::define_records(
            old(self).analysis(),
            stmts_view(program@),
            declared@,
            0,
        );
        let mut i: usize = 0;
        while i < program.len() && i < declared.len()
            invariant
                0 <= i <= program.len(),
                self.parent_module.source_code == old(self).parent_module.source_code,
                self.parent_module.source_path == old(self).parent_module.source_path,
                self.parent_module.tokens == old(self).parent_module.tokens,
                self.parent_module.ast == old(self).parent_module.ast,
                grows(old(self).tables(), self.tables()),
                goal == checking::define_records(
                    old(self).analysis(),
                    stmts_view(program@),
                    declared@,
                    0,
                ),
                goal == checking::define_records(
                    self.analysis(),
                    stmts_view(program@),
                    declared@,
                    i as int,
                ),
            decreases program.len() - i,
        {
            assert(stmts_view(program@)[i as int] == program@[i as int]@);
            match &program[i] {
                Stmt::Bagay { bagay_identifier, fields, .. } => {
                    if declared[i] {
                        let r = self.define_fields(bagay_identifier, fields);
                        self.note(r);
                    }
                },
                _ => {},
            }
            i = i + 1;
        }
    }

    /// The last pass: every statement that is no record.
    fn analyze_rest(&mut self, program: &Vec<Stmt>)
        ensures
            final(self).parent_module.source_code == old(self).parent_module.source_code,
            final(self).parent_module.source_path == old(self).parent_module.source_path,
            final(self).parent_module.tokens == old(self).parent_module.tokens,
            final(self).parent_module.ast == old(self).parent_module.ast,
            final(self).analysis() == checking::analyze_rest(
                old(self).analysis(),
                stmts_view(program@),
                0,
            ),
            grows(old(self).tables(), final(self).tables()),
    {
        let ghost goal = checking::analyze_rest(old(self).analysis(), stmts_view(program@), 0);
        let mut i: usize = 0;
        while i < program.len()
            invariant
                0 <= i <= program.len(),
                self.parent_module.source_code == old(self).parent_module.source_code,
                self.parent_module.source_path == old(self).parent_module.source_path,
                self.parent_module.tokens == old(self).parent_module.tokens,
                self.parent_module.ast == old(self).parent_module.ast,
                grows(old(self).tables(), self.tables()),
                goal == checking::analyze_rest(old(self).analysis(), stmts_view(program@), 0),
                goal == checking::analyze_rest(self.analysis(), stmts_view(program@), i as int),
            decreases program.len() - i,
        {
            assert(stmts_view(program@)[i as int] == program@[i as int]@);
            if !matches!(&program[i], Stmt::Bagay { .. }) {
                let r = self.analyze_stmt(&program[i]);
                self.note(r);
            }
            i = i + 1;
        }
    }

    /// Whether `self` is what analysing leaves of `before`: the source,
    /// the tokens and the statements are the same, and the tables and the
    /// diagnostics are those that the analysis of the statements gives.
    pub open spec fn analysed_from(&self, before: &Self) -> bool {
        &&& self.module().source_code == before.module().source_code
        &&& self.module().source_path == before.module().source_path
        &&& self.module().tokens == before.module().tokens
        &&& self.module().ast == before.module().ast
        &&& self.analysis() == checking::analyzed(stmts_view(before.module().ast@))
    }

    /// Analysing again changes nothing: what a second analysis leaves has
    /// the tables and the diagnostics that the first one left.
    pub proof fn lemma_analysis_is_idempotent(before: &Self, once: &Self, twice: &Self)
        requires
            once.analysed_from(before),
            twice.analysed_from(once),
        ensures
            twice.tables() == once.tables(),
            twice.diagnostics() == once.diagnostics(),
    {
    }

    /// Analyses the statements of the module. The tables are those that
    /// the analysis of these statements gives, whatever they held before.
    /// No array type stands twice in the list of array types, and the one
    /// scope that is open is that of the whole program.
    pub fn analyze(&mut self)
        ensures
            final(self).analysed_from(old(self)),
            final(self).tables().arrays.no_duplicates(),
            final(self).tables().scopes.len() == 1,
    {
        self.seed();
        let mut statements: Vec<Stmt> = Vec::new();
        core::mem::swap(&mut statements, &mut self.parent_module.ast);
        let declared = self.declare_records(&statements);
        self.define_records(&statements, &declared);
        self.analyze_rest(&statements);
        core::mem::swap(&mut statements, &mut self.parent_module.ast);
    }

    /// Whether analysis has found anything wrong.
    pub fn has_error(&self) -> (b: bool)
        ensures
            b == (self.diagnostics().len() > 0),
    {
        self.errors.len() > 0
    }

    /// The diagnostics of analysis, in the order in which they arose.
    pub fn errors(&self) -> (e: &Vec<CompilerError>)
        ensures
            errors_view(e@) == self.diagnostics(),
    {
        &self.errors
    }

    /// Hands the module back, with the tables that analysis filled.
    pub fn finish(self) -> (m: Module)
        ensures
            m == self.module(),
            scopes_view(m.symbol_table@) == self.tables().scopes,
            m.type_table@ == self.tables().types,
            inferred_view(m.inferred_types@) == self.tables().inferred,
            strings_view(m.declared_array_types@) == self.tables().arrays,
    {
        self.parent_module
    }
}

} // verus!
