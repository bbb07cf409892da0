use tol::codegen::CodeGenerator;
use tol::lexer::Lexer;
use tol::parser::module::Module;
use tol::parser::Parser;
use tol::semantic_analyzer::SemanticAnalyzer;
use tol::compile_source;

const HEADER: &str = "#include \"tol_helper.h\"\n#include <stdio.h>\n#include <stdlib.h>\n";
const MAIN: &str = "int main(){__TOL_main__();return 0;}";

fn c_of(source: &str) -> String {
    let t = compile_source(source.to_string(), "test.tol".to_string());
    let messages: Vec<&str> = t.diagnostics.iter().map(|e| e.message()).collect();
    assert_eq!(messages, Vec::<&str>::new(), "{}", source);
    t.c_code.expect("no C text")
}

fn body_of(source: &str) -> String {
    let c = c_of(source);
    let rest = c.strip_prefix(HEADER).expect("header").strip_suffix(MAIN).expect("entry point");
    rest.to_string()
}

#[test]
fn an_empty_program_has_header_and_entry_point() {
    assert_eq!(c_of(""), format!("{}\n{}", HEADER, MAIN));
}

#[test]
fn array_literal_is_padded_to_the_declared_length() {
    let source = "paraan una() { ang a: [3]i32 = [1, 2]\n}";
    let c = c_of(source);
    assert!(c.contains("(TOL_Array_int32_t){ .data = (int32_t[]){1,2,0}, .len = 3 }"));
    assert_eq!(
        body_of(source),
        "\nDEFINE_TOL_ARRAY_STRUCT(int32_t)\nvoid __TOL_main__(){const TOL_Array_int32_t a = (TOL_Array_int32_t){ .data = (int32_t[]){1,2,0}, .len = 3 };}"
    );
    let module = Module::new(source.to_string(), "t".to_string());
    let mut lexer = Lexer::new(module);
    lexer.lex();
    let mut parser = Parser::new(lexer.finish());
    parser.parse();
    let mut analyzer = SemanticAnalyzer::new(parser.finish());
    analyzer.analyze();
    assert!(!analyzer.has_error());
    assert_eq!(analyzer.finish().declared_array_types, vec!["TOL_Array_int32_t"]);
}

#[test]
fn record_and_record_literal() {
    let source = "bagay Point { x: i32, y: i32 } paraan una() { ang p = Point!(x: 1, y: 2); }";
    let c = c_of(source);
    assert!(c.contains("typedef struct Point{int32_t x;int32_t y;}Point;"));
    assert!(c.contains("(struct Point){ .x=1,.y=2 }"));
    assert_eq!(
        body_of(source),
        "typedef struct Point{int32_t x;int32_t y;}Point;\nvoid __TOL_main__(){const Point p = (struct Point){ .x=1,.y=2 };}"
    );
}

#[test]
fn records_come_first_whatever_their_place() {
    assert_eq!(
        body_of("paraan f(p: P) { } bagay P { x: i32 } bagay Q { p: P }"),
        "typedef struct P{int32_t x;}P;typedef struct Q{P p;}Q;\nvoid f(P p){}"
    );
}

#[test]
fn bindings_are_constant_unless_they_may_change() {
    assert_eq!(body_of("ang x: i32 = 1;"), "\nconst int32_t x = 1;");
    assert_eq!(body_of("ang maiba x: u8 = 1;"), "\nuint8_t x = 1;");
    assert_eq!(body_of("ang x = 2.5;"), "\nconst double x = 2.5;");
}

#[test]
fn array_without_declared_length_keeps_its_own() {
    assert_eq!(
        body_of("ang a = [1, 2];"),
        "\nDEFINE_TOL_ARRAY_STRUCT(int32_t)\nconst TOL_Array_int32_t a = (TOL_Array_int32_t){ .data = (int32_t[]){1,2}, .len = 2 };"
    );
    assert_eq!(
        body_of("ang a: []u8 = [1, 2];"),
        "\nDEFINE_TOL_ARRAY_STRUCT(uint8_t)\nconst TOL_Array_uint8_t a = (TOL_Array_uint8_t){ .data = (uint8_t[]){1,2}, .len = 2 };"
    );
}

#[test]
fn array_types_are_defined_once_in_the_order_met() {
    assert_eq!(
        body_of("ang a: [1]u8 = [1]; ang b: [1]i32 = [1]; ang c: [2]u8 = [1];"),
        "\nDEFINE_TOL_ARRAY_STRUCT(uint8_t)\nDEFINE_TOL_ARRAY_STRUCT(int32_t)\nconst TOL_Array_uint8_t a = (TOL_Array_uint8_t){ .data = (uint8_t[]){1}, .len = 1 };const TOL_Array_int32_t b = (TOL_Array_int32_t){ .data = (int32_t[]){1}, .len = 1 };const TOL_Array_uint8_t c = (TOL_Array_uint8_t){ .data = (uint8_t[]){1,0}, .len = 2 };"
    );
}

#[test]
fn functions_and_returns() {
    assert_eq!(
        body_of("paraan dagdag(a: i32, b: i64) i32 { ibalik a + 1 * 2; }"),
        "\nint32_t dagdag(int32_t a,int64_t b){return (a + (1 * 2));}"
    );
    assert_eq!(body_of("paraan una() { }"), "\nvoid __TOL_main__(){}");
}

#[test]
fn calls() {
    assert_eq!(
        body_of("paraan f(a: i32) i32 { ibalik a; } ang x = f(1);"),
        "\nint32_t f(int32_t a){return a;}const int32_t x = (f(1));"
    );
}

#[test]
fn intrinsics() {
    assert_eq!(
        body_of("@print(b\"hi\");"),
        "\nfputs((TOL_Array_uint8_t){ .data = \"hi\", .len = 2 }, stdout);"
    );
    assert_eq!(
        body_of("@println(b\"hi\");"),
        "\nputs((TOL_Array_uint8_t){ .data = \"hi\", .len = 2 });"
    );
    assert_eq!(body_of("@alis(3);"), "\nexit(3);");
}

#[test]
fn methods_become_functions_that_take_the_value_first() {
    assert_eq!(
        body_of("bagay P { x: i32 } itupad P { paraan kunin(ako, n: i32) i32 { ibalik ako.x; } paraan bago() P { ibalik P!(x: 1); } } ang p = P::bago(); ang a = p.kunin(2);"),
        "typedef struct P{int32_t x;}P;\nint32_t kunin(P ako,int32_t n){return ako.x;}P bago(){return (struct P){ .x=1 };}const P p = bago();const int32_t a = (kunin(p, 2));"
    );
}

#[test]
fn conditionals() {
    assert_eq!(
        body_of("ang a = 1; paraan f() { kung a { f(); } kungdi a + 1 { } kungwala { f(); } }"),
        "\nconst int32_t a = 1;void f(){if (a){(f());}else if ((a + 1)){}else {(f());}}"
    );
}

#[test]
fn loops() {
    assert_eq!(
        body_of("sa 0..10 => i { @alis(1); }"),
        "\nfor (size_t i = 0; i < 10; i++) {exit(1);}"
    );
    assert_eq!(
        body_of("sa 1..=3 => k { }"),
        "\nfor (size_t k = 1; k <= 3; k++) {}"
    );
}

#[test]
fn pointers_assignments_and_members() {
    assert_eq!(
        body_of("ang maiba x: i32 = 1; x = 2;"),
        "\nint32_t x = 1;x = 2;"
    );
}

#[test]
fn what_has_no_c_text_is_not_lowered() {
    let t = compile_source("ang x = 1; ang p = &x;".to_string(), "t".to_string());
    assert!(t.diagnostics.is_empty());
    assert_eq!(t.c_code, None);
    let t = compile_source("ang x = 1; sa x => i { }".to_string(), "t".to_string());
    assert!(t.diagnostics.is_empty());
    assert_eq!(t.c_code, None);
}

#[test]
fn nothing_is_lowered_where_a_stage_found_something() {
    let t = compile_source("ang x: i32 = 1.5;".to_string(), "t".to_string());
    assert_eq!(t.diagnostics.len(), 1);
    assert_eq!(t.c_code, None);
    let t = compile_source("ang x = #;".to_string(), "t".to_string());
    assert_eq!(t.c_code, None);
    assert_eq!(t.diagnostics[0].message(), "Hindi valid na karakter: `#`");
    assert_eq!(t.diagnostics[1].message(), "Umasa ng expresyon pero nakita ay ;");
}

#[test]
fn compilation_hands_out_the_tokens() {
    let t = compile_source("ang x = 1\n".to_string(), "t".to_string());
    let lexemes: Vec<&str> = t.tokens.iter().map(|t| t.lexeme()).collect();
    assert_eq!(lexemes, vec!["ang", "x", "=", "1", ";", "Eof"]);
}

#[test]
fn lowering_is_deterministic() {
    let source = "bagay P { x: i32 } paraan una() { ang a: [4]i32 = [1, 2]\n ang p = P!(x: 1)\n sa 0..2 => i { @println(b\"x\"); } }";
    let first = c_of(source);
    let second = c_of(source);
    assert_eq!(first, second);

    let module = Module::new(source.to_string(), "t".to_string());
    let mut lexer = Lexer::new(module);
    lexer.lex();
    let mut parser = Parser::new(lexer.finish());
    parser.parse();
    let mut analyzer = SemanticAnalyzer::new(parser.finish());
    analyzer.analyze();
    let module = analyzer.finish();
    let mut one = CodeGenerator::new(&module);
    let mut two = CodeGenerator::new(&module);
    let a = one.try_generate();
    let b = two.try_generate();
    assert_eq!(a, b);
    assert_eq!(a, Some(first));
    assert_eq!(one.generate(), two.generate());
}
