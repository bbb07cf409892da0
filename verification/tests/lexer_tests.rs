use tol::lexer::token_kind::TokenKind;
use tol::lexer::Lexer;
use tol::parser::module::Module;

fn lex(source: &str) -> (Vec<(String, TokenKind, usize, usize)>, usize) {
    let module = Module::new(source.to_string(), "test.tol".to_string());
    let mut lexer = Lexer::new(module);
    lexer.lex();
    let errors = lexer.errors().len();
    let module = lexer.finish();
    let tokens = module
        .tokens
        .iter()
        .map(|t| (t.lexeme().to_string(), *t.kind(), t.line(), t.column()))
        .collect();
    (tokens, errors)
}

fn kinds(source: &str) -> Vec<TokenKind> {
    lex(source).0.into_iter().map(|t| t.1).collect()
}

fn lexemes(source: &str) -> Vec<String> {
    lex(source).0.into_iter().map(|t| t.0).collect()
}

#[test]
fn empty_source_gives_only_the_end_marker() {
    let (tokens, errors) = lex("");
    assert_eq!(errors, 0);
    assert_eq!(tokens, vec![("Eof".to_string(), TokenKind::Eof, 1, 1)]);
}

#[test]
fn single_character_operators() {
    assert_eq!(
        kinds("( ) { } [ ] ; , @ & ? . : + - * / % = ! > <"),
        vec![
            TokenKind::LeftParen,
            TokenKind::RightParen,
            TokenKind::LeftBrace,
            TokenKind::RightBrace,
            TokenKind::LeftBracket,
            TokenKind::RightBracket,
            TokenKind::SemiColon,
            TokenKind::Comma,
            TokenKind::At,
            TokenKind::Amper,
            TokenKind::Question,
            TokenKind::Dot,
            TokenKind::Colon,
            TokenKind::Plus,
            TokenKind::Minus,
            TokenKind::Star,
            TokenKind::Slash,
            TokenKind::Percent,
            TokenKind::Equal,
            TokenKind::Bang,
            TokenKind::Greater,
            TokenKind::Lesser,
            TokenKind::Eof,
        ]
    );
}

#[test]
fn multi_character_operators() {
    assert_eq!(
        kinds(":: .. ..= -> => += -= *= /= %= == != >= <="),
        vec![
            TokenKind::ColonColon,
            TokenKind::DotDot,
            TokenKind::DotDotEqual,
            TokenKind::ThinArrow,
            TokenKind::ThickArrow,
            TokenKind::PlusEqual,
            TokenKind::MinusEqual,
            TokenKind::StarEqual,
            TokenKind::SlashEqual,
            TokenKind::PercentEqual,
            TokenKind::EqualEqual,
            TokenKind::BangEqual,
            TokenKind::GreaterEqual,
            TokenKind::LesserEqual,
            TokenKind::Eof,
        ]
    );
}

#[test]
fn keywords_and_identifiers() {
    assert_eq!(
        kinds("paraan ang maiba ibalik bagay itupad kung kungdi kungwala sa paraanx ako"),
        vec![
            TokenKind::Paraan,
            TokenKind::Ang,
            TokenKind::Maiba,
            TokenKind::Ibalik,
            TokenKind::Bagay,
            TokenKind::Itupad,
            TokenKind::Kung,
            TokenKind::KungDi,
            TokenKind::KungWala,
            TokenKind::Sa,
            TokenKind::Identifier,
            TokenKind::Identifier,
            TokenKind::Eof,
        ]
    );
}

#[test]
fn numeric_underscores_are_stripped() {
    let (tokens, errors) = lex("1_000 3.14_15 7.");
    assert_eq!(errors, 0);
    assert_eq!(
        tokens,
        vec![
            ("1000".to_string(), TokenKind::IntLit, 1, 1),
            ("3.1415".to_string(), TokenKind::FloatLit, 1, 7),
            ("7".to_string(), TokenKind::IntLit, 1, 15),
            (".".to_string(), TokenKind::Dot, 1, 16),
            ("Eof".to_string(), TokenKind::Eof, 1, 16),
        ]
    );
}

#[test]
fn a_dot_belongs_to_a_number_only_before_a_digit() {
    assert_eq!(
        kinds("1..5"),
        vec![TokenKind::IntLit, TokenKind::DotDot, TokenKind::IntLit, TokenKind::Eof]
    );
    assert_eq!(lexemes("1..5"), vec!["1", "..", "5", "Eof"]);
}

#[test]
fn utf8_identifiers_are_accepted() {
    let (tokens, errors) = lex("ang niño = 1;");
    assert_eq!(errors, 0);
    assert_eq!(tokens[1], ("niño".to_string(), TokenKind::Identifier, 1, 5));
    assert_eq!(tokens[2], ("=".to_string(), TokenKind::Equal, 1, 10));
}

#[test]
fn string_escapes_are_decoded() {
    let (tokens, errors) = lex("\"a\\n\\t\\r\\\"\\\\\\q\"");
    assert_eq!(errors, 0);
    assert_eq!(tokens[0].0, "a\n\t\r\"\\q");
    assert_eq!(tokens[0].1, TokenKind::StringLit);
}

#[test]
fn byte_strings_start_with_b_and_a_quote() {
    let (tokens, errors) = lex("b\"hi\" b bago");
    assert_eq!(errors, 0);
    assert_eq!(tokens[0], ("hi".to_string(), TokenKind::ByteStringLit, 1, 1));
    assert_eq!(tokens[1], ("b".to_string(), TokenKind::Identifier, 1, 7));
    assert_eq!(tokens[2], ("bago".to_string(), TokenKind::Identifier, 1, 9));
}

#[test]
fn strings_may_span_lines() {
    let (tokens, errors) = lex("\"a\nb\" x");
    assert_eq!(errors, 0);
    assert_eq!(tokens[0], ("a\nb".to_string(), TokenKind::StringLit, 2, 1));
    assert_eq!(tokens[1].0, "x");
    assert_eq!(tokens[1].2, 2);
}

#[test]
fn unterminated_string_is_reported_at_the_opening_column() {
    let module = Module::new("  \"abc".to_string(), "test.tol".to_string());
    let mut lexer = Lexer::new(module);
    lexer.lex();
    assert!(lexer.has_error());
    assert_eq!(lexer.errors().len(), 1);
    assert_eq!(lexer.errors()[0].message(), "Ang sinulid ay hindi isinara");
    assert_eq!(lexer.errors()[0].line(), 1);
    assert_eq!(lexer.errors()[0].column(), 3);
    let module = lexer.finish();
    assert_eq!(module.tokens.len(), 1);
    assert_eq!(*module.tokens[0].kind(), TokenKind::Eof);
}

#[test]
fn invalid_character_is_reported_and_lexing_goes_on() {
    let module = Module::new("a # b".to_string(), "test.tol".to_string());
    let mut lexer = Lexer::new(module);
    lexer.lex();
    assert!(lexer.has_error());
    assert_eq!(lexer.errors().len(), 1);
    assert_eq!(lexer.errors()[0].message(), "Hindi valid na karakter: `#`");
    assert_eq!(lexer.errors()[0].column(), 3);
    assert_eq!(lexer.errors()[0].helps(), &vec!["Subukan mo itong tanggalin".to_string()]);
    assert_eq!(
        lexer.errors()[0].notes(),
        &vec!["Siguro ito ay hindi parte ng sintax ng Tol".to_string()]
    );
    let module = lexer.finish();
    let lexemes: Vec<&str> = module.tokens.iter().map(|t| t.lexeme()).collect();
    assert_eq!(lexemes, vec!["a", "b", "Eof"]);
}

#[test]
fn comments_are_discarded() {
    assert_eq!(lexemes("a // b c\nd"), vec!["a", ";", "d", "Eof"]);
    assert_eq!(lexemes("// only a comment"), vec!["Eof"]);
}

#[test]
fn semicolon_is_inferred_after_a_statement_end() {
    assert_eq!(lexemes("x\ny"), vec!["x", ";", "y", "Eof"]);
    assert_eq!(lexemes("f()\n"), vec!["f", "(", ")", ";", "Eof"]);
    assert_eq!(lexemes("a[1]\n"), vec!["a", "[", "1", "]", ";", "Eof"]);
    assert_eq!(lexemes("1.5\n"), vec!["1.5", ";", "Eof"]);
    assert_eq!(lexemes("\"s\"\n"), vec!["s", ";", "Eof"]);
    assert_eq!(lexemes("b\"s\"\n"), vec!["s", ";", "Eof"]);
}

#[test]
fn semicolon_is_not_inferred_elsewhere() {
    assert_eq!(lexemes("{\n}\n"), vec!["{", "}", "Eof"]);
    assert_eq!(lexemes("x +\ny"), vec!["x", "+", "y", "Eof"]);
    assert_eq!(lexemes("paraan\nx"), vec!["paraan", "x", "Eof"]);
    assert_eq!(lexemes("\n\n"), vec!["Eof"]);
}

#[test]
fn inferred_semicolon_stands_one_column_after_the_line_end() {
    let (tokens, _) = lex("ab\n");
    assert_eq!(tokens[0], ("ab".to_string(), TokenKind::Identifier, 1, 1));
    assert_eq!(tokens[1], (";".to_string(), TokenKind::SemiColon, 1, 4));
}

#[test]
fn lines_and_columns_are_counted_from_one() {
    let (tokens, _) = lex("a\n  b");
    assert_eq!(tokens[0], ("a".to_string(), TokenKind::Identifier, 1, 1));
    assert_eq!(tokens[2], ("b".to_string(), TokenKind::Identifier, 2, 3));
}

#[test]
fn the_stream_ends_with_exactly_one_end_marker() {
    for source in ["", "a", "a b c", "\"open", "#", "paraan una() {\n}\n", "// c"] {
        let ks = kinds(source);
        assert_eq!(ks.iter().filter(|k| **k == TokenKind::Eof).count(), 1);
        assert_eq!(*ks.last().unwrap(), TokenKind::Eof);
    }
}

#[test]
fn lexing_twice_gives_the_same_tokens() {
    let module = Module::new("ang x = 1\n".to_string(), "test.tol".to_string());
    let mut lexer = Lexer::new(module);
    lexer.lex();
    lexer.lex();
    let module = lexer.finish();
    let lexemes: Vec<&str> = module.tokens.iter().map(|t| t.lexeme()).collect();
    assert_eq!(lexemes, vec!["ang", "x", "=", "1", ";", "Eof"]);
}

#[test]
fn lexemes_spell_the_source_without_its_white_space() {
    let source = "paraan una ( ) { ang x : i32 = a1 + 2 * ( b . c ) ; f ( x , 3.5 ) ; }";
    let (tokens, errors) = lex(source);
    assert_eq!(errors, 0);
    let spelled: String =
        tokens[..tokens.len() - 1].iter().map(|t| t.0.as_str()).collect::<Vec<&str>>().join("");
    let expected: String = source.chars().filter(|c| !c.is_whitespace()).collect();
    assert_eq!(spelled, expected);
}

#[test]
fn lexemes_spell_the_source_but_for_underscores_comments_and_inferred_semicolons() {
    let source = "ang x = 1_000 // isang libo\nang y = x\n";
    let (tokens, errors) = lex(source);
    assert_eq!(errors, 0);
    let spelled: Vec<&str> = tokens.iter().map(|t| t.0.as_str()).collect();
    assert_eq!(spelled, vec!["ang", "x", "=", "1000", ";", "ang", "y", "=", "x", ";", "Eof"]);
}

#[test]
fn byte_string_escapes_are_decoded() {
    let (tokens, errors) = lex("b\"a\\n\\\"z\"");
    assert_eq!(errors, 0);
    assert_eq!(tokens[0].0, "a\n\"z");
    assert_eq!(tokens[0].1, TokenKind::ByteStringLit);
}

#[test]
fn a_backslash_at_the_end_of_the_source_leaves_the_string_open() {
    let module = Module::new("\"ab\\".to_string(), "test.tol".to_string());
    let mut lexer = Lexer::new(module);
    lexer.lex();
    assert_eq!(lexer.errors().len(), 1);
    assert_eq!(lexer.errors()[0].message(), "Ang sinulid ay hindi isinara");
    assert_eq!(lexer.errors()[0].column(), 1);
    assert_eq!(lexer.errors()[0].helps(), &vec!["Subukan mog maglagay ng `\"` sa huli".to_string()]);
}

#[test]
fn ascii_identifier_characters() {
    assert!(Lexer::is_ascii_identifier_start('a'));
    assert!(Lexer::is_ascii_identifier_start('Z'));
    assert!(Lexer::is_ascii_identifier_start('_'));
    assert!(!Lexer::is_ascii_identifier_start('1'));
    assert!(!Lexer::is_ascii_identifier_start('ñ'));
    assert!(Lexer::is_ascii_identifier_continue('1'));
    assert!(Lexer::is_ascii_identifier_continue('_'));
    assert!(!Lexer::is_ascii_identifier_continue('-'));
}
