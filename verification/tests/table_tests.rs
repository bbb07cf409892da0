use tol::lexer::token::Token;
use tol::lexer::token_kind::TokenKind;
use tol::parser::ast::expr::Expr;
use tol::parser::module::Module;
use tol::symbol::table::NameTable;
use tol::symbol::{clone_types, Symbol};
use tol::toltype::type_info::TypeInfo;
use tol::toltype::TolType;

fn var(name: &str, t: TolType) -> Symbol {
    Symbol::Var { name: name.to_string(), mutable: false, tol_type: t }
}

#[test]
fn a_new_table_is_empty() {
    let t: NameTable<Symbol> = NameTable::new();
    assert_eq!(t.len(), 0);
    assert!(!t.contains_key("x"));
    assert!(t.get("x").is_none());
}

#[test]
fn insert_sets_and_replaces() {
    let mut t: NameTable<Symbol> = NameTable::new();
    t.insert("x".to_string(), var("x", TolType::I32));
    t.insert("y".to_string(), var("y", TolType::U8));
    assert_eq!(t.len(), 2);
    assert!(matches!(t.get("x"), Some(Symbol::Var { tol_type: TolType::I32, .. })));
    t.insert("x".to_string(), var("x", TolType::Bool));
    assert_eq!(t.len(), 2);
    assert!(matches!(t.get("x"), Some(Symbol::Var { tol_type: TolType::Bool, .. })));
    assert!(matches!(t.get("y"), Some(Symbol::Var { tol_type: TolType::U8, .. })));
}

#[test]
fn remove_takes_the_value_out() {
    let mut t: NameTable<Symbol> = NameTable::new();
    t.insert("a".to_string(), var("a", TolType::I8));
    t.insert("b".to_string(), var("b", TolType::I16));
    t.insert("c".to_string(), var("c", TolType::I32));
    assert!(matches!(t.remove("a"), Some(Symbol::Var { tol_type: TolType::I8, .. })));
    assert!(t.remove("a").is_none());
    assert_eq!(t.len(), 2);
    assert!(t.contains_key("b"));
    assert!(t.contains_key("c"));
    assert!(matches!(t.get("c"), Some(Symbol::Var { tol_type: TolType::I32, .. })));
}

#[test]
fn fields_are_counted_apart_from_methods() {
    let mut t: NameTable<Symbol> = NameTable::new();
    assert_eq!(t.field_count(), 0);
    t.insert("x".to_string(), var("x", TolType::I32));
    t.insert(
        "f".to_string(),
        Symbol::Method {
            is_static: false,
            name: "f".to_string(),
            param_types: vec![],
            return_type: TolType::Wala,
        },
    );
    t.insert("y".to_string(), var("y", TolType::I32));
    assert_eq!(t.field_count(), 2);
    assert_eq!(t.len(), 3);
}

#[test]
fn symbols_give_their_type_and_name() {
    assert_eq!(var("x", TolType::I64).get_type(), TolType::I64);
    assert_eq!(var("x", TolType::I64).name(), "x");
    let f = Symbol::Paraan {
        name: "f".to_string(),
        param_types: vec![TolType::I8],
        return_type: TolType::Bool,
    };
    assert_eq!(f.get_type(), TolType::Bool);
    assert_eq!(f.name(), "f");
    let m = Symbol::Method {
        is_static: true,
        name: "m".to_string(),
        param_types: vec![],
        return_type: TolType::Kar,
    };
    assert_eq!(m.get_type(), TolType::Kar);
    let b = Symbol::Bagay { name: "P".to_string() };
    assert_eq!(b.get_type(), TolType::Bagay("P".to_string()));
    assert_eq!(b.name(), "P");
}

#[test]
fn symbols_can_be_copied() {
    let f = Symbol::Paraan {
        name: "f".to_string(),
        param_types: vec![TolType::I8, TolType::Array(Box::new(TolType::U8), None)],
        return_type: TolType::Bool,
    };
    match f.clone() {
        Symbol::Paraan { name, param_types, return_type } => {
            assert_eq!(name, "f");
            assert_eq!(
                param_types,
                vec![TolType::I8, TolType::Array(Box::new(TolType::U8), None)]
            );
            assert_eq!(return_type, TolType::Bool);
        }
        other => panic!("{:?}", other),
    }
    assert_eq!(clone_types(&vec![TolType::I8, TolType::Wala]), vec![TolType::I8, TolType::Wala]);
}

#[test]
fn a_new_type_entry_has_no_members() {
    let info = TypeInfo::new(TolType::Bagay("P".to_string()));
    assert_eq!(info.kind, TolType::Bagay("P".to_string()));
    assert_eq!(info.members.len(), 0);
    assert_eq!(info.static_members.len(), 0);
}

#[test]
fn a_new_module_holds_the_source_and_one_empty_scope() {
    let m = Module::new("ang x = 1;".to_string(), "dir/main.tol".to_string());
    assert_eq!(m.source_code, "ang x = 1;");
    assert_eq!(m.source_path, "dir/main.tol");
    assert!(m.tokens.is_empty());
    assert!(m.ast.is_empty());
    assert_eq!(m.symbol_table.len(), 1);
    assert_eq!(m.symbol_table[0].len(), 0);
    assert_eq!(m.type_table.len(), 0);
    assert!(m.inferred_types.is_empty());
    assert!(m.declared_array_types.is_empty());
}

#[test]
fn tokens_hold_what_they_were_made_of() {
    let t = Token::new("kumusta", TokenKind::Identifier, 3, 14);
    assert_eq!(t.lexeme(), "kumusta");
    assert_eq!(*t.kind(), TokenKind::Identifier);
    assert_eq!(t.line(), 3);
    assert_eq!(t.column(), 14);
    assert_eq!(t.clone(), t);
}

#[test]
fn places_are_lvalues() {
    let tok = |s: &str| Token::new(s, TokenKind::Identifier, 1, 1);
    let name = || Expr::Identifier { token: tok("x"), id: 0 };
    assert!(name().is_lvalue());
    assert!(Expr::MemberAccess { left: Box::new(name()), member: tok("f"), line: 1, column: 1, id: 1 }
        .is_lvalue());
    assert!(Expr::ScopeResolution { left: Box::new(name()), field: tok("f"), line: 1, column: 1, id: 1 }
        .is_lvalue());
    assert!(Expr::Deref { right: Box::new(name()), line: 1, column: 1, id: 1 }.is_lvalue());
    assert!(!Expr::IntLit { token: Token::new("1", TokenKind::IntLit, 1, 1), id: 0 }.is_lvalue());
    assert!(!Expr::AddressOf { of: Box::new(name()), line: 1, column: 1, id: 1 }.is_lvalue());
    assert!(!Expr::FnCall { callee: Box::new(name()), args: vec![], line: 1, column: 1, id: 1 }
        .is_lvalue());
    assert!(!Expr::Array { elements: vec![], line: 1, column: 1, id: 1 }.is_lvalue());
}
