//! The compilation unit that the stages fill one after the other.

use std::collections::HashMap;
use vstd::prelude::*;
use crate::lexer::token::Token;
use crate::parser::ast::stmt::Stmt;
use crate::symbol::Symbol;
use crate::symbol::table::NameTable;
use crate::toltype::TolType;
use crate::toltype::type_info::TypeInfo;

verus! {

pub struct Module {
    pub source_code: String,
    pub source_path: String,
    pub tokens: Vec<Token>,
    pub ast: Vec<Stmt>,
    pub symbol_table: Vec<NameTable<Symbol>>,
    pub type_table: NameTable<TypeInfo>,
    pub inferred_types: HashMap<usize, TolType>,
    pub declared_array_types: Vec<String>,
}

impl Module {
    /// Whether two modules differ in their tokens at most.
    pub open spec fn same_but_tokens(self, other: Module) -> bool {
        &&& self.source_code == other.source_code
        &&& self.source_path == other.source_path
        &&& self.ast == other.ast
        &&& self.symbol_table == other.symbol_table
        &&& self.type_table == other.type_table
        &&& self.inferred_types == other.inferred_types
        &&& self.declared_array_types == other.declared_array_types
    }

    /// Whether two modules differ in their statements at most.
    pub open spec fn same_but_ast(self, other: Module) -> bool {
        &&& self.source_code == other.source_code
        &&& self.source_path == other.source_path
        &&& self.tokens == other.tokens
        &&& self.symbol_table == other.symbol_table
        &&& self.type_table == other.type_table
        &&& self.inferred_types == other.inferred_types
        &&& self.declared_array_types == other.declared_array_types
    }

    /// The unit for a source text, with nothing computed yet: no token, no
    /// statement, one empty scope, no type.
    pub fn new(source_code: String, source_path: String) -> (m: Self)
        ensures
            m.source_code@ == source_code@,
            m.source_path@ == source_path@,
            m.tokens@.len() == 0,
            m.ast@.len() == 0,
            m.symbol_table@.len() == 1,
            m.symbol_table@[0]@ == Map::<Seq<char>, crate::symbol::SymbolView>::empty(),
            m.type_table@ == Map::<Seq<char>, crate::toltype::type_info::TypeInfoView>::empty(),
            m.inferred_types@ == Map::<usize, TolType>::empty(),
            m.declared_array_types@.len() == 0,
    {
        let mut symbol_table: Vec<NameTable<Symbol>> = Vec::new();
        symbol_table.push(NameTable::new());
        Self {
            source_code,
            source_path,
            tokens: Vec::new(),
            ast: Vec::new(),
            symbol_table,
            type_table: NameTable::new(),
            inferred_types: HashMap::new(),
            declared_array_types: Vec::new(),
        }
    }
}

} // verus!
