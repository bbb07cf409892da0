use tol::lexer::Lexer;
use tol::parser::ast::expr::Expr;
use tol::parser::ast::stmt::Stmt;
use tol::parser::module::Module;
use tol::parser::Parser;
use tol::toltype::TolType;

fn parse(source: &str) -> (Vec<Stmt>, Vec<String>) {
    let module = Module::new(source.to_string(), "test.tol".to_string());
    let mut lexer = Lexer::new(module);
    lexer.lex();
    assert!(!lexer.has_error());
    let mut parser = Parser::new(lexer.finish());
    parser.parse();
    let errors = parser.errors().iter().map(|e| e.message().to_string()).collect();
    (parser.finish().ast, errors)
}

fn parse_expr(source: &str) -> Expr {
    let (mut ast, errors) = parse(&format!("{};", source));
    assert_eq!(errors, Vec::<String>::new());
    assert_eq!(ast.len(), 1);
    match ast.remove(0) {
        Stmt::ExprS { expr, .. } => expr,
        other => panic!("not an expression statement: {:?}", other),
    }
}

fn show(e: &Expr) -> String {
    match e {
        Expr::IntLit { token, .. }
        | Expr::FloatLit { token, .. }
        | Expr::Identifier { token, .. } => token.lexeme().to_string(),
        Expr::StringLit { token, .. } => format!("{:?}", token.lexeme()),
        Expr::ByteStringLit { token, .. } => format!("b{:?}", token.lexeme()),
        Expr::Binary { op, left, right, .. } => {
            format!("({} {} {})", op.lexeme(), show(left), show(right))
        }
        Expr::Assign { left, right, .. } => format!("(= {} {})", show(left), show(right)),
        Expr::FnCall { callee, args, .. } => {
            let args: Vec<String> = args.iter().map(show).collect();
            format!("(call {} [{}])", show(callee), args.join(" "))
        }
        Expr::MagicFnCall { name, args, .. } => {
            let args: Vec<String> = args.iter().map(show).collect();
            format!("(@{} [{}])", name.lexeme(), args.join(" "))
        }
        Expr::MemberAccess { left, member, .. } => format!("(. {} {})", show(left), member.lexeme()),
        Expr::ScopeResolution { left, field, .. } => {
            format!("(:: {} {})", show(left), field.lexeme())
        }
        Expr::Struct { callee, fields, .. } => {
            let fields: Vec<String> =
                fields.iter().map(|(t, e)| format!("{}:{}", t.lexeme(), show(e))).collect();
            format!("(new {} [{}])", show(callee), fields.join(" "))
        }
        Expr::Array { elements, .. } => {
            let items: Vec<String> = elements.iter().map(show).collect();
            format!("[{}]", items.join(" "))
        }
        Expr::RangeExclusive { start, end, .. } => format!("(.. {} {})", show(start), show(end)),
        Expr::RangeInclusive { start, end, .. } => format!("(..= {} {})", show(start), show(end)),
        Expr::AddressOf { of, .. } => format!("(& {})", show(of)),
        Expr::MutableAddressOf { of, .. } => format!("(&maiba {})", show(of)),
        Expr::Deref { right, .. } => format!("(* {})", show(right)),
    }
}

#[test]
fn multiplication_binds_tighter_than_addition() {
    assert_eq!(show(&parse_expr("1 + 2 * 3")), "(+ 1 (* 2 3))");
    assert_eq!(show(&parse_expr("1 * 2 + 3")), "(+ (* 1 2) 3)");
    assert_eq!(show(&parse_expr("1 - 2 / 3")), "(- 1 (/ 2 3))");
}

#[test]
fn arithmetic_groups_to_the_left() {
    assert_eq!(show(&parse_expr("1 - 2 - 3")), "(- (- 1 2) 3)");
    assert_eq!(show(&parse_expr("8 / 4 / 2")), "(/ (/ 8 4) 2)");
}

#[test]
fn assignment_groups_to_the_right() {
    assert_eq!(show(&parse_expr("a = b = c")), "(= a (= b c))");
    assert_eq!(show(&parse_expr("a = b + 1")), "(= a (+ b 1))");
}

#[test]
fn ranges_bind_looser_than_arithmetic() {
    assert_eq!(show(&parse_expr("0..n + 1")), "(.. 0 (+ n 1))");
    assert_eq!(show(&parse_expr("a..=b")), "(..= a b)");
    assert_eq!(show(&parse_expr("x = 1..2")), "(= x (.. 1 2))");
}

#[test]
fn parentheses_group() {
    assert_eq!(show(&parse_expr("(1 + 2) * 3")), "(* (+ 1 2) 3)");
}

#[test]
fn calls_members_and_scopes() {
    assert_eq!(show(&parse_expr("f()")), "(call f [])");
    assert_eq!(show(&parse_expr("f(1, x)")), "(call f [1 x])");
    assert_eq!(show(&parse_expr("a.b")), "(. a b)");
    assert_eq!(show(&parse_expr("a.b.c")), "(. (. a b) c)");
    assert_eq!(show(&parse_expr("p.area()")), "(call (. p area) [])");
    assert_eq!(show(&parse_expr("Point::bago(1)")), "(call (:: Point bago) [1])");
    assert_eq!(show(&parse_expr("a.b + 1")), "(+ (. a b) 1)");
}

#[test]
fn record_literals_and_arrays() {
    assert_eq!(show(&parse_expr("Point!(x: 1, y: 2)")), "(new Point [x:1 y:2])");
    assert_eq!(show(&parse_expr("Point!()")), "(new Point [])");
    assert_eq!(show(&parse_expr("[1, 2, 3]")), "[1 2 3]");
    assert_eq!(show(&parse_expr("[]")), "[]");
    assert_eq!(show(&parse_expr("[[1], [2]]")), "[[1] [2]]");
}

#[test]
fn prefix_forms() {
    assert_eq!(show(&parse_expr("&x")), "(& x)");
    assert_eq!(show(&parse_expr("&maiba x")), "(&maiba x)");
    assert_eq!(show(&parse_expr("*p")), "(* p)");
    assert_eq!(show(&parse_expr("@println(b\"hi\")")), "(@println [b\"hi\"])");
    assert_eq!(show(&parse_expr("@alis(1 + 1)")), "(@alis [(+ 1 1)])");
}

#[test]
fn every_node_has_an_id_of_its_own() {
    fn ids(e: &Expr, out: &mut Vec<usize>) {
        match e {
            Expr::IntLit { id, .. }
            | Expr::FloatLit { id, .. }
            | Expr::StringLit { id, .. }
            | Expr::ByteStringLit { id, .. }
            | Expr::Identifier { id, .. } => out.push(*id),
            Expr::Binary { left, right, id, .. } | Expr::Assign { left, right, id, .. } => {
                ids(left, out);
                ids(right, out);
                out.push(*id);
            }
            Expr::FnCall { callee, args, id, .. } => {
                ids(callee, out);
                args.iter().for_each(|a| ids(a, out));
                out.push(*id);
            }
            Expr::Array { elements, id, .. } => {
                elements.iter().for_each(|a| ids(a, out));
                out.push(*id);
            }
            _ => {}
        }
    }
    let (ast, errors) = parse("f(1 + 2, [3, 4]); x = y;");
    assert!(errors.is_empty());
    let mut all = Vec::new();
    for s in &ast {
        match s {
            Stmt::ExprS { expr, id, .. } => {
                ids(expr, &mut all);
                all.push(*id);
            }
            _ => panic!(),
        }
    }
    let mut sorted = all.clone();
    sorted.sort();
    sorted.dedup();
    assert_eq!(sorted.len(), all.len());
    assert_eq!(sorted, (0..all.len()).collect::<Vec<usize>>());
}

#[test]
fn bindings() {
    let (ast, errors) = parse("ang x = 1; ang maiba y: i64 = x;");
    assert!(errors.is_empty());
    match &ast[0] {
        Stmt::Ang { mutable, ang_identifier, ang_type, rhs, line, column, .. } => {
            assert!(!*mutable);
            assert_eq!(ang_identifier.lexeme(), "x");
            assert_eq!(*ang_type, TolType::Unknown);
            assert_eq!(show(rhs), "1");
            assert_eq!((*line, *column), (1, 1));
        }
        other => panic!("{:?}", other),
    }
    match &ast[1] {
        Stmt::Ang { mutable, ang_identifier, ang_type, .. } => {
            assert!(*mutable);
            assert_eq!(ang_identifier.lexeme(), "y");
            assert_eq!(*ang_type, TolType::I64);
        }
        other => panic!("{:?}", other),
    }
}

#[test]
fn types_as_written() {
    let cases = [
        ("i8", TolType::I8),
        ("usukat", TolType::USukat),
        ("dobletang", TolType::DobleTang),
        ("bool", TolType::Bool),
        ("kar", TolType::Kar),
        ("wala", TolType::Wala),
        ("Point", TolType::UnknownIdentifier("Point".to_string())),
        ("[3]i32", TolType::Array(Box::new(TolType::I32), Some(3))),
        ("[]u8", TolType::Array(Box::new(TolType::U8), None)),
        (
            "[2][]kar",
            TolType::Array(Box::new(TolType::Array(Box::new(TolType::Kar), None)), Some(2)),
        ),
        ("*i32", TolType::Pointer(Box::new(TolType::I32))),
        ("*maiba Point", TolType::MutablePointer(Box::new(TolType::UnknownIdentifier("Point".to_string())))),
    ];
    for (text, expected) in cases {
        let (ast, errors) = parse(&format!("ang x: {} = 1;", text));
        assert_eq!(errors, Vec::<String>::new(), "{}", text);
        match &ast[0] {
            Stmt::Ang { ang_type, .. } => assert_eq!(*ang_type, expected, "{}", text),
            other => panic!("{:?}", other),
        }
    }
}

#[test]
fn array_length_has_to_fit() {
    let (ast, errors) = parse("ang x: [99999999999999999999999999]i32 = 1;");
    assert!(ast.is_empty());
    assert_eq!(errors, vec!["Nabigong gawing `usukat` ang 99999999999999999999999999"]);
}

#[test]
fn functions() {
    let (ast, errors) = parse("paraan dagdag(a: i32, b: i32) i32 { ibalik a + b; }");
    assert!(errors.is_empty());
    match &ast[0] {
        Stmt::Par { par_identifier, params, return_type, block, .. } => {
            assert_eq!(par_identifier.lexeme(), "dagdag");
            assert_eq!(params.len(), 2);
            assert_eq!(params[0].0.lexeme(), "a");
            assert_eq!(params[1].1, TolType::I32);
            assert_eq!(*return_type, TolType::I32);
            match &**block {
                Stmt::Block { statements, .. } => {
                    assert_eq!(statements.len(), 1);
                    assert!(matches!(statements[0], Stmt::Ibalik { .. }));
                }
                other => panic!("{:?}", other),
            }
        }
        other => panic!("{:?}", other),
    }
}

#[test]
fn return_type_may_follow_an_arrow_and_may_be_left_out() {
    let (ast, errors) = parse("paraan a() -> i32 { } paraan b() { }");
    assert!(errors.is_empty());
    assert!(matches!(&ast[0], Stmt::Par { return_type: TolType::I32, .. }));
    assert!(matches!(&ast[1], Stmt::Par { return_type: TolType::Wala, .. }));
}

#[test]
fn records_and_impl_blocks() {
    let (ast, errors) = parse(
        "bagay Point { x: i32, y: i32 } itupad Point { paraan kabuuan(ako) i32 { ibalik 1; } paraan bago(x: i32) Point { ibalik 1; } }",
    );
    assert!(errors.is_empty());
    match &ast[0] {
        Stmt::Bagay { bagay_identifier, fields, .. } => {
            assert_eq!(bagay_identifier.lexeme(), "Point");
            assert_eq!(fields.len(), 2);
            assert_eq!(fields[1].0.lexeme(), "y");
        }
        other => panic!("{:?}", other),
    }
    match &ast[1] {
        Stmt::Itupad { itupad_for, itupad_block, .. } => {
            assert_eq!(*itupad_for, TolType::UnknownIdentifier("Point".to_string()));
            match &**itupad_block {
                Stmt::ItupadBlock { methods, .. } => {
                    assert_eq!(methods.len(), 2);
                    match &methods[0] {
                        Stmt::Method { is_static, params, .. } => {
                            assert!(!*is_static);
                            assert_eq!(params[0].1, TolType::AkoType);
                        }
                        other => panic!("{:?}", other),
                    }
                    assert!(matches!(&methods[1], Stmt::Method { is_static: true, .. }));
                }
                other => panic!("{:?}", other),
            }
        }
        other => panic!("{:?}", other),
    }
}

#[test]
fn conditionals_keep_their_branches_in_order() {
    let (ast, errors) = parse("kung a { } kungdi b { } kungdi c { } kungwala { }");
    assert!(errors.is_empty());
    match &ast[0] {
        Stmt::Kung { branches, .. } => {
            assert_eq!(branches.len(), 4);
            assert_eq!(show(branches[0].condition.as_ref().unwrap()), "a");
            assert_eq!(show(branches[1].condition.as_ref().unwrap()), "b");
            assert_eq!(show(branches[2].condition.as_ref().unwrap()), "c");
            assert!(branches[3].condition.is_none());
        }
        other => panic!("{:?}", other),
    }
}

#[test]
fn loops_over_ranges() {
    let (ast, errors) = parse("sa 0..10 => i { f(i); }");
    assert!(errors.is_empty());
    match &ast[0] {
        Stmt::Sa { iterator, bind, .. } => {
            assert_eq!(show(iterator), "(.. 0 10)");
            assert_eq!(bind.lexeme(), "i");
        }
        other => panic!("{:?}", other),
    }
}

#[test]
fn missing_semicolon_is_reported() {
    let (ast, errors) = parse("ang x = 1 ang y = 2;");
    assert_eq!(errors, vec!["Umasa ng `;` pero nakita ay ang"]);
    assert_eq!(ast.len(), 0);
}

#[test]
fn parsing_recovers_after_a_bad_statement() {
    let (ast, errors) = parse("ang = 1; ang y = 2;");
    assert_eq!(errors, vec!["Umasa ng pangalan pero nakita ay ="]);
    assert_eq!(ast.len(), 1);
    assert!(matches!(&ast[0], Stmt::Ang { .. }));
}

#[test]
fn a_bad_statement_in_a_block_leaves_the_rest_of_the_block() {
    let (ast, errors) = parse("paraan una() { ang = 1; ang y = 2; }");
    assert_eq!(errors, vec!["Umasa ng pangalan pero nakita ay ="]);
    assert_eq!(ast.len(), 1);
    match &ast[0] {
        Stmt::Par { block, .. } => match &**block {
            Stmt::Block { statements, .. } => assert_eq!(statements.len(), 1),
            other => panic!("{:?}", other),
        },
        other => panic!("{:?}", other),
    }
}

#[test]
fn an_impl_block_with_what_is_no_method_still_ends() {
    let (ast, errors) = parse("itupad Point { ang x = 1; paraan f() { } }");
    assert!(!errors.is_empty());
    assert_eq!(ast.len(), 1);
    match &ast[0] {
        Stmt::Itupad { itupad_block, .. } => match &**itupad_block {
            Stmt::ItupadBlock { methods, .. } => assert_eq!(methods.len(), 1),
            other => panic!("{:?}", other),
        },
        other => panic!("{:?}", other),
    }
}

#[test]
fn unclosed_brace_is_reported_where_it_opened() {
    let module = Module::new("paraan una() {\n ang x = 1;".to_string(), "t".to_string());
    let mut lexer = Lexer::new(module);
    lexer.lex();
    let mut parser = Parser::new(lexer.finish());
    parser.parse();
    assert!(parser.has_error());
    assert_eq!(parser.errors()[0].message(), "Hindi naisarado ang `{`");
    assert_eq!(parser.errors()[0].line(), 1);
    assert_eq!(parser.errors()[0].column(), 14);
}

#[test]
fn unclosed_call_is_reported() {
    let (_, errors) = parse("f(");
    assert_eq!(errors, vec!["Ang `(` ay di naisarado"]);
    let (_, errors) = parse("f(1,");
    assert_eq!(errors, vec!["Ang `(` ay di naisarado"]);
    let (_, errors) = parse("f(1, 2");
    assert_eq!(errors, vec!["Umasa ng `,` o `)` pero nakita ay Eof"]);
}

#[test]
fn what_starts_no_expression_is_reported() {
    let (ast, errors) = parse(") ; x;");
    assert_eq!(errors, vec!["Umasa ng expresyon pero nakita ay )"]);
    assert_eq!(ast.len(), 1);
}

#[test]
fn a_parser_without_tokens_parses_nothing() {
    let mut parser = Parser::new(Module::new(String::new(), "t".to_string()));
    parser.parse();
    assert!(!parser.has_error());
    assert!(parser.finish().ast.is_empty());
}

#[test]
fn parsing_twice_gives_the_same_statements() {
    let module = Module::new("ang x = 1; f(x);".to_string(), "t".to_string());
    let mut lexer = Lexer::new(module);
    lexer.lex();
    let mut parser = Parser::new(lexer.finish());
    parser.parse();
    let mut again = Parser::new(parser.finish());
    again.parse();
    let ast = again.finish().ast;
    assert_eq!(ast.len(), 2);
    assert!(matches!(&ast[1], Stmt::ExprS { id: 5, .. }));
}

#[test]
fn expressions_as_text() {
    assert_eq!(parse_expr("1 + 2 * x").to_text(), "(+ 1 (* 2 x))");
    assert_eq!(parse_expr("2.5").to_text(), "2.5");
    assert_eq!(parse_expr("f(1)").to_text(), "");
    assert_eq!(parse_expr("1 + f(1)").to_text(), "(+ 1 )");
}
