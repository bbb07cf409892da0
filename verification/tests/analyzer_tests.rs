use tol::lexer::Lexer;
use tol::parser::module::Module;
use tol::parser::Parser;
use tol::semantic_analyzer::SemanticAnalyzer;
use tol::symbol::Symbol;
use tol::toltype::TolType;

fn analyze(source: &str) -> (Module, Vec<String>) {
    let module = Module::new(source.to_string(), "test.tol".to_string());
    let mut lexer = Lexer::new(module);
    lexer.lex();
    assert!(!lexer.has_error(), "{}", source);
    let mut parser = Parser::new(lexer.finish());
    parser.parse();
    assert!(!parser.has_error(), "{}: {:?}", source, parser.errors());
    let mut analyzer = SemanticAnalyzer::new(parser.finish());
    analyzer.analyze();
    let errors: Vec<String> = analyzer.errors().iter().map(|e| e.message().to_string()).collect();
    assert_eq!(analyzer.has_error(), !errors.is_empty());
    (analyzer.finish(), errors)
}

fn errors(source: &str) -> Vec<String> {
    analyze(source).1
}

fn none() -> Vec<String> {
    Vec::new()
}

#[test]
fn bindings_of_fitting_values_are_accepted() {
    let (module, errors) = analyze("ang x: i32 = 15; ang y: i32 = x;");
    assert_eq!(errors, none());
    let global = &module.symbol_table[0];
    assert!(matches!(
        global.get("x"),
        Some(Symbol::Var { mutable: false, tol_type: TolType::I32, .. })
    ));
    assert!(matches!(global.get("y"), Some(Symbol::Var { tol_type: TolType::I32, .. })));
}

#[test]
fn float_literal_does_not_fit_an_integer() {
    assert_eq!(
        errors("ang x: i32 = 15.5;"),
        vec!["Ang tipong `literal na lutang` ay hindi bagay sa tipong `i32`"]
    );
}

#[test]
fn undeclared_name_is_reported() {
    assert_eq!(errors("ang x: i32 = y;"), vec!["Ang `y` ay hindi na-ideklara"]);
}

#[test]
fn returned_value_has_to_fit_the_return_type() {
    assert_eq!(
        errors("paraan test() -> i32 { ibalik 15.5; }"),
        vec!["Ang tipong `literal na lutang` ay hindi bagay sa tipong `i32`"]
    );
    assert_eq!(errors("paraan test() -> i32 { ibalik 15; }"), none());
    assert_eq!(errors("paraan test() i32 { ibalik 15; }"), none());
}

#[test]
fn inferred_semicolon_lets_the_binding_be_analysed() {
    let (module, errors) = analyze("paraan una() { ang x: i32 = 12\n}");
    assert_eq!(errors, none());
    assert_eq!(module.ast.len(), 1);
}

#[test]
fn return_outside_of_a_function_is_reported() {
    assert_eq!(errors("ibalik 1;"), vec!["Hindi pwede magbalik sa labas ng paraan"]);
    assert_eq!(
        errors("paraan f() i32 { ibalik 1; } ibalik 2;"),
        vec!["Hindi pwede magbalik sa labas ng paraan"]
    );
}

#[test]
fn unannotated_bindings_get_their_type_from_the_value() {
    let (module, errors) = analyze("ang a = 1; ang b = 2.5; ang c = [1, 2]; ang d = b\"hi\";");
    assert_eq!(errors, none());
    let global = &module.symbol_table[0];
    assert!(matches!(global.get("a"), Some(Symbol::Var { tol_type: TolType::I32, .. })));
    assert!(matches!(global.get("b"), Some(Symbol::Var { tol_type: TolType::DobleTang, .. })));
    match global.get("c") {
        Some(Symbol::Var { tol_type, .. }) => {
            assert_eq!(*tol_type, TolType::Array(Box::new(TolType::I32), Some(2)))
        }
        other => panic!("{:?}", other),
    }
    match global.get("d") {
        Some(Symbol::Var { tol_type, .. }) => {
            assert_eq!(*tol_type, TolType::Array(Box::new(TolType::U8), Some(3)))
        }
        other => panic!("{:?}", other),
    }
}

#[test]
fn inferred_types_are_recorded_by_node_id() {
    let (module, errors) = analyze("ang a = 1; sa 0..3 => i { ang b = i; }");
    assert_eq!(errors, none());
    let mut ids = Vec::new();
    for s in &module.ast {
        match s {
            tol::parser::ast::stmt::Stmt::Ang { id, .. } => ids.push((*id, TolType::I32)),
            tol::parser::ast::stmt::Stmt::Sa { id, block, .. } => {
                ids.push((*id, TolType::USukat));
                match &**block {
                    tol::parser::ast::stmt::Stmt::Block { statements, .. } => match &statements[0] {
                        tol::parser::ast::stmt::Stmt::Ang { id, .. } => {
                            ids.push((*id, TolType::USukat))
                        }
                        other => panic!("{:?}", other),
                    },
                    other => panic!("{:?}", other),
                }
            }
            other => panic!("{:?}", other),
        }
    }
    assert_eq!(ids.len(), 3);
    for (id, t) in ids {
        assert_eq!(module.inferred_types.get(&id), Some(&t));
    }
}

#[test]
fn array_types_are_registered_once_and_in_order() {
    let (module, errors) = analyze(
        "ang a: [3]i32 = [1, 2]; ang b: [2]u8 = [1]; ang c: [1]i32 = [7]; ang d: [1][2]u8 = [[1]];",
    );
    assert_eq!(errors, none());
    assert_eq!(
        module.declared_array_types,
        vec!["TOL_Array_int32_t", "TOL_Array_uint8_t", "TOL_Array_TOL_Array_uint8_t"]
    );
}

#[test]
fn array_literal_longer_than_the_type_is_rejected() {
    assert_eq!(
        errors("ang a: [1]i32 = [1, 2];"),
        vec!["Mas maliit ang sukat na ibinigay sa tipo (1) kumpara sa expresyon (2)"]
    );
}

#[test]
fn empty_array_literal_is_rejected() {
    assert_eq!(
        errors("ang a: []i32 = [];"),
        vec!["Hindi pwede ang walang laman na array kung walang ibinigay na sukat sa tipo"]
    );
}

#[test]
fn array_elements_have_to_fit_the_first() {
    assert_eq!(
        errors("ang a = [1, 2.5];"),
        vec!["Ang tipong `literal na lutang` ay hindi bagay sa tipong `literal na integer`"]
    );
    assert_eq!(
        errors("ang a = [1, 2, 2.5];"),
        vec!["Ang tipong `literal na lutang` ay hindi bagay sa tipong `literal na integer`"]
    );
}

#[test]
fn a_name_cannot_be_declared_twice_in_one_scope() {
    assert_eq!(
        errors("ang x = 1; ang x = 2;"),
        vec!["Ang x ay naideklara na sa kasalukuyang sakop"]
    );
    assert_eq!(
        errors("paraan f(a: i32, a: i32) { }"),
        vec!["Ang a ay naideklara na sa kasalukuyang sakop"]
    );
    assert_eq!(
        errors("paraan f() { } paraan f() { }"),
        vec!["Ang f ay naideklara na sa kasalukuyang sakop"]
    );
}

#[test]
fn a_name_can_be_declared_again_in_an_inner_scope() {
    assert_eq!(errors("ang x = 1; paraan f() { ang x = 2.5; }"), none());
    assert_eq!(errors("paraan f(x: i32) { kung x { ang x = 2.5; } }"), none());
}

#[test]
fn names_of_an_inner_scope_are_gone_after_it() {
    assert_eq!(
        errors("paraan f() { ang x = 1; } ang y = x;"),
        vec!["Ang `x` ay hindi na-ideklara"]
    );
    let (module, _) = analyze("paraan f() { ang x = 1; ang x = 2; } ang y = 1;");
    assert_eq!(module.symbol_table.len(), 1);
    assert!(module.symbol_table[0].contains_key("y"));
}

#[test]
fn analysis_goes_on_after_a_statement_that_failed() {
    assert_eq!(
        errors("ang a: i32 = 1.5; ang b: i32 = c; ang d: i32 = 1;"),
        vec![
            "Ang tipong `literal na lutang` ay hindi bagay sa tipong `i32`",
            "Ang `c` ay hindi na-ideklara"
        ]
    );
}

#[test]
fn unknown_type_is_reported() {
    assert_eq!(errors("ang x: Wala = 1;"), vec!["Hindi valid na tipo ang `Wala`"]);
    assert_eq!(errors("paraan f(a: Ano) { }"), vec!["Hindi valid na tipo ang `Ano`"]);
}

#[test]
fn arithmetic_needs_numbers_of_one_sort() {
    assert_eq!(errors("ang x = 1 + 2 * 3;"), none());
    assert_eq!(errors("ang x = 1.5 / 2.5;"), none());
    assert_eq!(
        errors("ang x = 1 + 2.5;"),
        vec!["Hindi pwede gawin ang `+` na operasyon sa `literal na integer` at `literal na lutang`"]
    );
}

#[test]
fn assignment_needs_a_place_that_may_change() {
    assert_eq!(errors("ang maiba x = 1; x = 2;"), none());
    assert_eq!(errors("ang x = 1; x = 2;"), vec!["Ang `x` ay hindi `maiba`"]);
    assert_eq!(errors("1 = 2;"), vec!["Ang nasa kaliwa ng `=` ay hindi isang lvalue"]);
    assert_eq!(
        errors("ang maiba x = 1; x = 2.5;"),
        vec!["Ang tipong `literal na lutang` ay hindi bagay sa tipong `i32`"]
    );
}

#[test]
fn address_of_needs_a_place() {
    assert_eq!(errors("ang x = 1; ang p = &x;"), none());
    assert_eq!(errors("ang p = &1;"), vec!["Hindi pwedeng rvalue ang nasa kanan ng `&`"]);
    assert_eq!(errors("ang x = 1; ang p = &maiba x;"), vec!["Ang `x` ay hindi `maiba`"]);
    assert_eq!(errors("ang maiba x = 1; ang p = &maiba x;"), none());
    assert_eq!(errors("ang x = 1; ang p = &x; ang y = *p;"), none());
    assert_eq!(
        errors("ang x = 1; ang y = *x;"),
        vec!["Ang nasa kanan ng `*` ay hindi isang pointer, kundi ito ay `i32`"]
    );
}

#[test]
fn calls_are_checked_against_the_parameters() {
    let f = "paraan f(a: i32, b: dobletang) i32 { ibalik a; } ";
    assert_eq!(errors(&format!("{}ang x: i32 = f(1, 2.5);", f)), none());
    assert_eq!(
        errors(&format!("{}ang x = f(1);", f)),
        vec!["Ang bilang ng argumento ay hindi pareho sa parameter"]
    );
    assert_eq!(
        errors(&format!("{}ang x = f(1.5, 2.5);", f)),
        vec!["Ang tipong `literal na lutang` ay hindi bagay sa tipong `i32`"]
    );
    assert_eq!(errors(&format!("{}ang x = g(1);", f)), vec!["Ang `g` ay hindi na-ideklara"]);
    assert_eq!(
        errors("ang v = 1; ang x = v();"),
        vec!["Invalid ang tigatawag ng paraan"]
    );
}

#[test]
fn intrinsics_are_checked_against_their_parameters() {
    assert_eq!(errors("@println(b\"hi\");"), none());
    assert_eq!(errors("@print(b\"hi\");"), none());
    assert_eq!(errors("@alis(1);"), none());
    assert_eq!(
        errors("@alis(1.5);"),
        vec!["Ang tipong `literal na lutang` ay hindi bagay sa tipong `i32`"]
    );
    assert_eq!(
        errors("@println(1);"),
        vec!["Ang tipong `literal na integer` ay hindi bagay sa tipong `[u8]`"]
    );
    assert_eq!(
        errors("@println();"),
        vec!["Ang bilang ng argumento ay hindi pareho sa parameter"]
    );
    assert_eq!(errors("@wala(1);"), vec!["Ang `wala` ay hindi na-ideklara"]);
}

#[test]
fn records_may_name_one_another_wherever_they_stand() {
    assert_eq!(errors("bagay A { b: B } bagay B { x: i32 }"), none());
    assert_eq!(errors("paraan f(p: P) { } bagay P { x: i32 }"), none());
}

#[test]
fn record_rules() {
    assert_eq!(
        errors("bagay A { x: i32, x: i32 }"),
        vec!["Ang x ay naideklara na sa kasalukuyang sakop"]
    );
    assert_eq!(
        errors("bagay A { a: A }"),
        vec!["Ang `A` ay hindi maaaring maglaman ng sarili nito nang direkta"]
    );
    assert_eq!(
        errors("bagay A { } bagay A { }"),
        vec!["Ang A ay naideklara na sa kasalukuyang sakop"]
    );
    assert_eq!(
        errors("bagay i32 { }"),
        vec!["Hindi marehistro ang `i32` dahil may ganitong tipo na"]
    );
    assert_eq!(errors("bagay A { x: Ano }"), vec!["Hindi valid na tipo ang `Ano`"]);
}

#[test]
fn record_literals_are_checked_against_the_record() {
    let p = "bagay Point { x: i32, y: i32 } ";
    assert_eq!(errors(&format!("{}ang p = Point!(x: 1, y: 2);", p)), none());
    assert_eq!(errors(&format!("{}ang p: Point = Point!(y: 1, x: 2);", p)), none());
    assert_eq!(
        errors(&format!("{}ang p = Point!(x: 1, z: 2);", p)),
        vec!["Walang field na `z` ang `Point`"]
    );
    assert_eq!(
        errors(&format!("{}ang p = Point!(x: 1, y: 2.5);", p)),
        vec!["Ang tipong `literal na lutang` ay hindi bagay sa tipong `i32`"]
    );
    assert_eq!(
        errors(&format!("{}ang p = Point!(x: 1);", p)),
        vec!["Ang bilang ng field ay hindi pareho sa deklarasyon ng `Point`"]
    );
    assert_eq!(
        errors("ang v = 1; ang p = v!(x: 1);"),
        vec!["Hindi pwede i-construct ang hindi bagay"]
    );
    assert_eq!(errors("ang p = 1!(x: 1);"), vec!["Hindi ito pwede i-construct"]);
}

#[test]
fn members_of_records() {
    let p = "bagay Point { x: i32, y: i32 } ang p = Point!(x: 1, y: 2); ";
    assert_eq!(errors(&format!("{}ang a: i32 = p.x;", p)), none());
    assert_eq!(
        errors(&format!("{}ang a = p.z;", p)),
        vec!["Walang miyembro na `z` ang `Point`"]
    );
    assert_eq!(
        errors("ang p = &maiba q;"),
        vec!["Ang `q` ay hindi na-ideklara"]
    );
}

#[test]
fn methods_are_found_on_values_and_static_ones_on_types() {
    let p = "bagay Point { x: i32 } itupad Point { paraan kunin(ako) i32 { ibalik ako.x; } paraan bago(x: i32) Point { ibalik Point!(x: x); } } ";
    assert_eq!(errors(p), none());
    assert_eq!(errors(&format!("{}ang p = Point::bago(1); ang a: i32 = p.kunin();", p)), none());
    assert_eq!(
        errors(&format!("{}ang p = Point::kunin();", p)),
        vec!["Walang static na miyembro na `kunin` ang `Point`"]
    );
    assert_eq!(
        errors(&format!("{}ang p = Point::bago(1); ang q = p.bago(2);", p)),
        vec!["Walang miyembro na `bago` ang `Point`"]
    );
    assert_eq!(
        errors(&format!("{}ang p = Point::bago(1.5);", p)),
        vec!["Ang tipong `literal na lutang` ay hindi bagay sa tipong `i32`"]
    );
    assert_eq!(
        errors(&format!("{}ang p = Ano::bago(1);", p)),
        vec!["Hindi narehistro ang `Ano`"]
    );
}

#[test]
fn a_type_cannot_have_a_method_twice() {
    assert_eq!(
        errors("bagay P { } itupad P { paraan f(ako) { } } itupad P { paraan f(ako) { } }"),
        vec!["May paraan na na `f` ang tipong `P`"]
    );
    assert_eq!(
        errors("itupad Ano { paraan f() { } }"),
        vec!["Hindi valid na tipo ang `Ano`"]
    );
}

#[test]
fn ranges_need_lengths() {
    assert_eq!(errors("sa 0..10 => i { }"), none());
    assert_eq!(errors("sa 0..=10 => i { ang x: usukat = i; }"), none());
    assert_eq!(
        errors("sa 0.5..10 => i { }"),
        vec!["Ang tipong `literal na lutang` ay hindi bagay sa tipong `usukat`"]
    );
}

#[test]
fn string_literals_are_reported() {
    assert_eq!(errors("ang s = \"hi\";"), vec!["Hindi pa suportado ang literal na sinulid"]);
}

#[test]
fn analysing_again_gives_the_same_tables() {
    let source = "bagay P { x: i32 } ang a = [1, 2]; ang b: i32 = c; paraan f(p: P) i32 { ibalik p.x; }";
    let module = Module::new(source.to_string(), "t".to_string());
    let mut lexer = Lexer::new(module);
    lexer.lex();
    let mut parser = Parser::new(lexer.finish());
    parser.parse();
    let mut analyzer = SemanticAnalyzer::new(parser.finish());
    analyzer.analyze();
    let first_errors: Vec<String> =
        analyzer.errors().iter().map(|e| e.message().to_string()).collect();
    let first = analyzer.finish();
    let first_arrays = first.declared_array_types.clone();
    let first_inferred = first.inferred_types.clone();
    let first_names: Vec<bool> =
        ["P", "a", "b", "f", "print"].iter().map(|n| first.symbol_table[0].contains_key(n)).collect();
    let mut again = SemanticAnalyzer::new(first);
    again.analyze();
    let second_errors: Vec<String> =
        again.errors().iter().map(|e| e.message().to_string()).collect();
    let second = again.finish();
    assert_eq!(second_errors, first_errors);
    assert_eq!(second.declared_array_types, first_arrays);
    assert_eq!(second.inferred_types, first_inferred);
    let second_names: Vec<bool> =
        ["P", "a", "b", "f", "print"].iter().map(|n| second.symbol_table[0].contains_key(n)).collect();
    assert_eq!(second_names, first_names);
    assert_eq!(first_names, vec![true, true, false, true, true]);
    assert_eq!(second.symbol_table.len(), 1);
}

#[test]
fn base_tables_hold_what_the_language_provides() {
    let analyzer = SemanticAnalyzer::new(Module::new(String::new(), "t".to_string()));
    let module = analyzer.finish();
    assert_eq!(module.symbol_table.len(), 1);
    for name in ["print", "println", "alis"] {
        assert!(matches!(module.symbol_table[0].get(name), Some(Symbol::Paraan { .. })));
    }
    for name in [
        "i8", "i16", "i32", "i64", "isukat", "u8", "u16", "u32", "u64", "usukat", "lutang",
        "dobletang", "bool", "kar",
    ] {
        assert!(module.type_table.contains_key(name), "{}", name);
    }
    assert!(!module.type_table.contains_key("wala"));
    assert_eq!(module.type_table.len(), 14);
}

#[test]
fn public_expression_analysis_gives_the_type() {
    let module = Module::new("1 + 2;".to_string(), "t".to_string());
    let mut lexer = Lexer::new(module);
    lexer.lex();
    let mut parser = Parser::new(lexer.finish());
    parser.parse();
    let mut module = parser.finish();
    let ast = std::mem::take(&mut module.ast);
    let mut analyzer = SemanticAnalyzer::new(module);
    match &ast[0] {
        tol::parser::ast::stmt::Stmt::ExprS { expr, .. } => {
            assert_eq!(analyzer.analyze_expression(expr).unwrap(), TolType::UnsizedInt);
            assert_eq!(analyzer.infer_type(expr, 99).unwrap(), TolType::I32);
        }
        other => panic!("{:?}", other),
    }
    assert_eq!(analyzer.finish().inferred_types.get(&99), Some(&TolType::I32));
}

#[test]
fn a_binding_is_accepted_exactly_where_the_value_fits_the_type() {
    let values = [
        ("1", TolType::UnsizedInt),
        ("1.5", TolType::UnsizedFloat),
        ("[1, 2]", TolType::Array(Box::new(TolType::UnsizedInt), Some(2))),
        ("[1.5]", TolType::Array(Box::new(TolType::UnsizedFloat), Some(1))),
        ("b\"ab\"", TolType::Array(Box::new(TolType::U8), Some(3))),
    ];
    let types = [
        ("i8", TolType::I8),
        ("u64", TolType::U64),
        ("lutang", TolType::Lutang),
        ("dobletang", TolType::DobleTang),
        ("bool", TolType::Bool),
        ("[2]i32", TolType::Array(Box::new(TolType::I32), Some(2))),
        ("[1]i32", TolType::Array(Box::new(TolType::I32), Some(1))),
        ("[]lutang", TolType::Array(Box::new(TolType::Lutang), None)),
        ("[3]u8", TolType::Array(Box::new(TolType::U8), Some(3))),
        ("[]u8", TolType::Array(Box::new(TolType::U8), None)),
    ];
    for (value, value_type) in &values {
        for (written, t) in &types {
            let accepted = errors(&format!("ang x: {} = {};", written, value)).is_empty();
            let fits = value_type.is_assignment_compatible(t, 1, 1).is_ok();
            assert_eq!(accepted, fits, "{} = {}", written, value);
        }
    }
}
