//! What is known of a named type: what it is, and its members.

use vstd::prelude::*;
use crate::symbol::{Symbol, SymbolView};
use crate::symbol::table::NameTable;
use crate::toltype::{TolType, TolTypeView};

verus! {

#[derive(Debug)]
pub struct TypeInfo {
    pub kind: TolType,
    pub members: NameTable<Symbol>,
    pub static_members: NameTable<Symbol>,
}

/// The entry of a named type as plain mathematical data.
pub struct TypeInfoView {
    pub kind: TolTypeView,
    pub members: Map<Seq<char>, SymbolView>,
    pub static_members: Map<Seq<char>, SymbolView>,
}

impl View for TypeInfo {
    type V = TypeInfoView;

    open spec fn view(&self) -> TypeInfoView {
        TypeInfoView {
            kind: self.kind@,
            members: self.members@,
            static_members: self.static_members@,
        }
    }
}

/// The entry of a type without members.
pub open spec fn bare_type(kind: TolTypeView) -> TypeInfoView {
    TypeInfoView { kind, members: Map::empty(), static_members: Map::empty() }
}

impl TypeInfo {
    pub fn new(kind: TolType) -> (info: Self)
        ensures
            info@ == bare_type(kind@),
    {
        Self { kind, members: NameTable::new(), static_members: NameTable::new() }
    }
}

} // verus!
