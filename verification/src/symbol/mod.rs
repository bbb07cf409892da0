//! What a name stands for: a variable, a function, a method or a record.

use vstd::prelude::*;
use crate::toltype::{TolType, TolTypeView, types_view, lemma_types_view_push};

pub mod table;

verus! {

#[derive(Debug)]
pub enum Symbol {
    Var { name: String, mutable: bool, tol_type: TolType },
    Paraan { name: String, param_types: Vec<TolType>, return_type: TolType },
    Method { is_static: bool, name: String, param_types: Vec<TolType>, return_type: TolType },
    Bagay { name: String },
}

/// A symbol as plain mathematical data.
pub enum SymbolView {
    Var { name: Seq<char>, mutable: bool, tol_type: TolTypeView },
    Paraan { name: Seq<char>, param_types: Seq<TolTypeView>, return_type: TolTypeView },
    Method {
        is_static: bool,
        name: Seq<char>,
        param_types: Seq<TolTypeView>,
        return_type: TolTypeView,
    },
    Bagay { name: Seq<char> },
}

impl View for Symbol {
    type V = SymbolView;

    open spec fn view(&self) -> SymbolView {
        match *self {
            Symbol::Var { name, mutable, tol_type } => SymbolView::Var {
                name: name@,
                mutable,
                tol_type: tol_type@,
            },
            Symbol::Paraan { name, param_types, return_type } => SymbolView::Paraan {
                name: name@,
                param_types: types_view(param_types@),
                return_type: return_type@,
            },
            Symbol::Method { is_static, name, param_types, return_type } => SymbolView::Method {
                is_static,
                name: name@,
                param_types: types_view(param_types@),
                return_type: return_type@,
            },
            Symbol::Bagay { name } => SymbolView::Bagay { name: name@ },
        }
    }
}

impl SymbolView {
    /// The name under which the symbol is declared.
    pub open spec fn name(self) -> Seq<char> {
        match self {
            SymbolView::Var { name, .. } => name,
            SymbolView::Paraan { name, .. } => name,
            SymbolView::Method { name, .. } => name,
            SymbolView::Bagay { name } => name,
        }
    }

    /// The type of the value that the name gives where it is used: that of
    /// the variable, what the function or method returns, or the record.
    pub open spec fn value_type(self) -> TolTypeView {
        match self {
            SymbolView::Var { tol_type, .. } => tol_type,
            SymbolView::Paraan { return_type, .. } => return_type,
            SymbolView::Method { return_type, .. } => return_type,
            SymbolView::Bagay { name } => TolTypeView::Bagay(name),
        }
    }
}

/// A copy of a list of types.
pub fn clone_types(v: &Vec<TolType>) -> (r: Vec<TolType>)
    ensures
        types_view(r@) == types_view(v@),
{
    let mut r: Vec<TolType> = Vec::new();
    let mut i: usize = 0;
    assert(types_view(r@) =~= types_view(v@).take(0));
    while i < v.len()
        invariant
            0 <= i <= v.len(),
            types_view(r@) == types_view(v@).take(i as int),
        decreases v.len() - i,
    {
        let ghost prev = r@;
        let t = v[i].clone();
        r.push(t);
        proof {
            lemma_types_view_push(prev, t);
        }
        assert(types_view(r@) =~= types_view(v@).take(i + 1));
        i = i + 1;
    }
    assert(types_view(v@).take(v.len() as int) =~= types_view(v@));
    r
}

impl Clone for Symbol {
    fn clone(&self) -> (s: Self)
        ensures
            s@ == self@,
    {
        match self {
            Symbol::Var { name, mutable, tol_type } => Symbol::Var {
                name: name.clone(),
                mutable: *mutable,
                tol_type: tol_type.clone(),
            },
            Symbol::Paraan { name, param_types, return_type } => Symbol::Paraan {
                name: name.clone(),
                param_types: clone_types(param_types),
                return_type: return_type.clone(),
            },
            Symbol::Method { is_static, name, param_types, return_type } => Symbol::Method {
                is_static: *is_static,
                name: name.clone(),
                param_types: clone_types(param_types),
                return_type: return_type.clone(),
            },
            Symbol::Bagay { name } => Symbol::Bagay { name: name.clone() },
        }
    }
}

impl Symbol {
    /// The name under which the symbol is declared.
    pub fn name(&self) -> (n: &str)
        ensures
            n@ == self@.name(),
    {
        match self {
            Symbol::Var { name, .. } => name.as_str(),
            Symbol::Paraan { name, .. } => name.as_str(),
            Symbol::Method { name, .. } => name.as_str(),
            Symbol::Bagay { name } => name.as_str(),
        }
    }

    pub fn get_type(&self) -> (t: TolType)
        ensures
            t@ == self@.value_type(),
    {
        match self {
            Symbol::Var { tol_type, .. } => tol_type.clone(),
            Symbol::Paraan { return_type, .. } => return_type.clone(),
            Symbol::Bagay { name, .. } => TolType::Bagay(name.clone()),
            Symbol::Method { return_type, .. } => return_type.clone(),
        }
    }
}

} // verus!
