use rustscript::ast::AstType;
use rustscript::error::Problem;
use rustscript::parser::{find_placeholder, substitute_placeholder, wrap_backticks, Parser};
use rustscript::token::{Object, Token, TokenType};

fn ptok(kind: TokenType, lexeme: &str) -> Token {
    Token::new(kind, lexeme.to_string(), None, 1)
}

fn ptok_lit(kind: TokenType, lexeme: &str, literal: Object) -> Token {
    Token::new(kind, lexeme.to_string(), Some(literal), 1)
}

fn peof() -> Token {
    ptok(TokenType::Eof, "")
}

fn parse_kinds(tokens: Vec<Token>) -> Vec<AstType> {
    let mut parser = Parser::new(tokens);
    let ir = parser.parse().expect("parse should succeed");
    ir.iter().map(|node| node.ast_type()).collect()
}

#[test]
fn simple_function_parses_to_six_nodes() {
    let tokens = vec![
        ptok(TokenType::Fn, "fn"),
        ptok(TokenType::Identifier, "foo"),
        ptok(TokenType::LeftParen, "("),
        ptok(TokenType::RightParen, ")"),
        ptok(TokenType::LeftBrace, "{"),
        ptok(TokenType::RightBrace, "}"),
        peof(),
    ];
    let kinds = parse_kinds(tokens);
    assert_eq!(
        kinds,
        vec![
            AstType::Fn,
            AstType::Identifier,
            AstType::LeftParen,
            AstType::RightParen,
            AstType::LeftBrace,
            AstType::RightBrace,
        ]
    );
}

#[test]
fn simple_function_keeps_its_name_lexeme() {
    let tokens = vec![
        ptok(TokenType::Fn, "fn"),
        ptok(TokenType::Identifier, "foo"),
        ptok(TokenType::LeftParen, "("),
        ptok(TokenType::RightParen, ")"),
        ptok(TokenType::LeftBrace, "{"),
        ptok(TokenType::RightBrace, "}"),
        peof(),
    ];
    let mut parser = Parser::new(tokens);
    let ir = parser.parse().expect("parse should succeed");
    assert_eq!(ir[1].ast_lexeme(), "foo");
}

#[test]
fn entry_point_function_is_wrapped() {
    let tokens = vec![
        ptok(TokenType::Fn, "fn"),
        ptok(TokenType::Identifier, "main"),
        ptok(TokenType::LeftParen, "("),
        ptok(TokenType::RightParen, ")"),
        ptok(TokenType::LeftBrace, "{"),
        ptok(TokenType::RightBrace, "}"),
        peof(),
    ];
    let kinds = parse_kinds(tokens);
    assert_eq!(
        kinds,
        vec![
            AstType::LeftParen,
            AstType::Fn,
            AstType::Identifier,
            AstType::LeftParen,
            AstType::RightParen,
            AstType::LeftBrace,
            AstType::RightBrace,
            AstType::Main,
        ]
    );
}

#[test]
fn nested_blocks_have_balanced_markers() {
    // fn f() { while () { } }
    let tokens = vec![
        ptok(TokenType::Fn, "fn"),
        ptok(TokenType::Identifier, "f"),
        ptok(TokenType::LeftParen, "("),
        ptok(TokenType::RightParen, ")"),
        ptok(TokenType::LeftBrace, "{"),
        ptok(TokenType::While, "while"),
        ptok(TokenType::LeftParen, "("),
        ptok(TokenType::RightParen, ")"),
        ptok(TokenType::LeftBrace, "{"),
        ptok(TokenType::RightBrace, "}"),
        ptok(TokenType::RightBrace, "}"),
        peof(),
    ];
    let kinds = parse_kinds(tokens);
    let mut depth: i64 = 0;
    let mut begins = 0;
    let mut ends = 0;
    for k in &kinds {
        match k {
            AstType::LeftBrace => {
                depth += 1;
                begins += 1;
            }
            AstType::RightBrace => {
                depth -= 1;
                ends += 1;
            }
            _ => {}
        }
        assert!(depth >= 0, "depth scan went negative");
    }
    assert_eq!(depth, 0);
    assert_eq!(begins, 2);
    assert_eq!(ends, 2);
}

#[test]
fn error_recovery_records_one_diagnostic_and_parses_on() {
    // let 5 = 10; let y = 20;
    let tokens = vec![
        ptok(TokenType::Let, "let"),
        ptok(TokenType::Number, "5"),
        ptok(TokenType::Assign, "="),
        ptok(TokenType::Number, "10"),
        ptok(TokenType::SemiColon, ";"),
        ptok(TokenType::Let, "let"),
        ptok(TokenType::Identifier, "y"),
        ptok(TokenType::Assign, "="),
        ptok(TokenType::Number, "20"),
        ptok(TokenType::SemiColon, ";"),
        peof(),
    ];
    let mut parser = Parser::new(tokens);
    let diagnostics = parser.parse().expect_err("parse should fail");
    assert_eq!(diagnostics.len(), 1);
    match &diagnostics[0] {
        Problem::ParseError { token, .. } => assert_eq!(token.lexeme, "5"),
        other => panic!("expected a parse error, got {:?}", other),
    }
    // The second declaration still parsed into the IR.
    let kinds: Vec<AstType> = parser.ast_tokens.iter().map(|n| n.ast_type()).collect();
    let n = kinds.len();
    assert_eq!(
        &kinds[n - 5..],
        &[
            AstType::Let,
            AstType::Identifier,
            AstType::Assign,
            AstType::Number,
            AstType::SemiColon,
        ]
    );
    assert_eq!(parser.ast_tokens[n - 4].ast_lexeme(), "y");
}

#[test]
fn variable_declaration_emits_five_nodes() {
    let tokens = vec![
        ptok(TokenType::Let, "let"),
        ptok_lit(TokenType::Identifier, "x", Object::Str("x".to_string())),
        ptok(TokenType::Assign, "="),
        ptok_lit(TokenType::String, "\"hi\"", Object::Str("hi".to_string())),
        ptok(TokenType::SemiColon, ";"),
        peof(),
    ];
    let kinds = parse_kinds(tokens);
    assert_eq!(
        kinds,
        vec![
            AstType::Let,
            AstType::Identifier,
            AstType::Assign,
            AstType::String,
            AstType::SemiColon,
        ]
    );
}

#[test]
fn variable_declaration_requires_a_literal_value() {
    // let x = ;
    let tokens = vec![
        ptok(TokenType::Let, "let"),
        ptok(TokenType::Identifier, "x"),
        ptok(TokenType::Assign, "="),
        ptok(TokenType::SemiColon, ";"),
        peof(),
    ];
    let mut parser = Parser::new(tokens);
    let diagnostics = parser.parse().expect_err("parse should fail");
    assert_eq!(diagnostics.len(), 1);
}

#[test]
fn print_statement_rewrites_the_literal() {
    // fn f() { print("hi"); }
    let tokens = vec![
        ptok(TokenType::Fn, "fn"),
        ptok(TokenType::Identifier, "f"),
        ptok(TokenType::LeftParen, "("),
        ptok(TokenType::RightParen, ")"),
        ptok(TokenType::LeftBrace, "{"),
        ptok(TokenType::Print, "print"),
        ptok(TokenType::LeftParen, "("),
        ptok_lit(TokenType::String, "\"hi\"", Object::Str("hi".to_string())),
        ptok(TokenType::RightParen, ")"),
        ptok(TokenType::SemiColon, ";"),
        ptok(TokenType::RightBrace, "}"),
        peof(),
    ];
    let mut parser = Parser::new(tokens);
    let ir = parser.parse().expect("parse should succeed");
    let string_node = ir
        .iter()
        .find(|n| n.ast_type() == AstType::String)
        .expect("a String node should be emitted");
    assert_eq!(string_node.ast_lexeme(), "`hi`");
}

#[test]
fn print_statement_substitutes_arguments() {
    // fn f() { print("x: {}", count); }
    let tokens = vec![
        ptok(TokenType::Fn, "fn"),
        ptok(TokenType::Identifier, "f"),
        ptok(TokenType::LeftParen, "("),
        ptok(TokenType::RightParen, ")"),
        ptok(TokenType::LeftBrace, "{"),
        ptok(TokenType::Print, "print"),
        ptok(TokenType::LeftParen, "("),
        ptok_lit(TokenType::String, "\"x: {}\"", Object::Str("x: {}".to_string())),
        ptok(TokenType::Comma, ","),
        ptok(TokenType::Identifier, "count"),
        ptok(TokenType::RightParen, ")"),
        ptok(TokenType::SemiColon, ";"),
        ptok(TokenType::RightBrace, "}"),
        peof(),
    ];
    let mut parser = Parser::new(tokens);
    let ir = parser.parse().expect("parse should succeed");
    let string_node = ir
        .iter()
        .find(|n| n.ast_type() == AstType::String)
        .expect("a String node should be emitted");
    assert_eq!(string_node.ast_lexeme(), "`x: ${count}`");
}

#[test]
fn print_statement_keeps_extra_placeholders() {
    // fn f() { print("a{}b{}", v); } : the second placeholder stays.
    let tokens = vec![
        ptok(TokenType::Fn, "fn"),
        ptok(TokenType::Identifier, "f"),
        ptok(TokenType::LeftParen, "("),
        ptok(TokenType::RightParen, ")"),
        ptok(TokenType::LeftBrace, "{"),
        ptok(TokenType::Print, "print"),
        ptok(TokenType::LeftParen, "("),
        ptok_lit(TokenType::String, "\"a{}b{}\"", Object::Str("a{}b{}".to_string())),
        ptok(TokenType::Comma, ","),
        ptok(TokenType::Identifier, "v"),
        ptok(TokenType::RightParen, ")"),
        ptok(TokenType::SemiColon, ";"),
        ptok(TokenType::RightBrace, "}"),
        peof(),
    ];
    let mut parser = Parser::new(tokens);
    let ir = parser.parse().expect("parse should succeed");
    let string_node = ir
        .iter()
        .find(|n| n.ast_type() == AstType::String)
        .expect("a String node should be emitted");
    assert_eq!(string_node.ast_lexeme(), "`a${v}b{}`");
}

#[test]
fn function_parameters_are_echoed() {
    // fn add(a: number, b: number) {}
    let tokens = vec![
        ptok(TokenType::Fn, "fn"),
        ptok(TokenType::Identifier, "add"),
        ptok(TokenType::LeftParen, "("),
        ptok(TokenType::Identifier, "a"),
        ptok(TokenType::Annotation, ":"),
        ptok(TokenType::NumberType, "number"),
        ptok(TokenType::Comma, ","),
        ptok(TokenType::Identifier, "b"),
        ptok(TokenType::Annotation, ":"),
        ptok(TokenType::NumberType, "number"),
        ptok(TokenType::RightParen, ")"),
        ptok(TokenType::LeftBrace, "{"),
        ptok(TokenType::RightBrace, "}"),
        peof(),
    ];
    let kinds = parse_kinds(tokens);
    assert_eq!(
        kinds,
        vec![
            AstType::Fn,
            AstType::Identifier,
            AstType::LeftParen,
            AstType::Identifier,
            AstType::Comma,
            AstType::Identifier,
            AstType::RightParen,
            AstType::LeftBrace,
            AstType::RightBrace,
        ]
    );
}

#[test]
fn parameter_without_type_is_rejected() {
    // fn f(a) {}
    let tokens = vec![
        ptok(TokenType::Fn, "fn"),
        ptok(TokenType::Identifier, "f"),
        ptok(TokenType::LeftParen, "("),
        ptok(TokenType::Identifier, "a"),
        ptok(TokenType::RightParen, ")"),
        ptok(TokenType::LeftBrace, "{"),
        ptok(TokenType::RightBrace, "}"),
        peof(),
    ];
    let mut parser = Parser::new(tokens);
    let diagnostics = parser.parse().expect_err("parse should fail");
    assert!(!diagnostics.is_empty());
}

#[test]
fn bare_function_call_is_echoed() {
    // greet(name, "hi");
    let tokens = vec![
        ptok(TokenType::Identifier, "greet"),
        ptok(TokenType::LeftParen, "("),
        ptok(TokenType::Identifier, "name"),
        ptok(TokenType::Comma, ","),
        ptok_lit(TokenType::String, "\"hi\"", Object::Str("hi".to_string())),
        ptok(TokenType::RightParen, ")"),
        ptok(TokenType::SemiColon, ";"),
        peof(),
    ];
    let kinds = parse_kinds(tokens);
    assert_eq!(
        kinds,
        vec![
            AstType::Identifier,
            AstType::LeftParen,
            AstType::Identifier,
            AstType::String,
            AstType::RightParen,
            AstType::SemiColon,
        ]
    );
}

#[test]
fn class_declaration_validates_but_emits_only_methods() {
    // class C < D { m() {} } : methods are parsed by the function rule,
    // which is entered with the method name under the cursor.
    let tokens = vec![
        ptok(TokenType::Class, "class"),
        ptok(TokenType::Identifier, "C"),
        ptok(TokenType::Less, "<"),
        ptok(TokenType::Identifier, "D"),
        ptok(TokenType::LeftBrace, "{"),
        ptok(TokenType::Identifier, "m"),
        ptok(TokenType::LeftParen, "("),
        ptok(TokenType::RightParen, ")"),
        ptok(TokenType::LeftBrace, "{"),
        ptok(TokenType::RightBrace, "}"),
        ptok(TokenType::RightBrace, "}"),
        peof(),
    ];
    let kinds = parse_kinds(tokens);
    assert_eq!(
        kinds,
        vec![
            AstType::Fn,
            AstType::Identifier,
            AstType::LeftParen,
            AstType::RightParen,
            AstType::LeftBrace,
            AstType::RightBrace,
        ]
    );
}

#[test]
fn class_method_body_comes_after_class_tokens() {
    // The class rule parses each method through the function rule.
    let tokens = vec![
        ptok(TokenType::Class, "class"),
        ptok(TokenType::Identifier, "C"),
        ptok(TokenType::LeftBrace, "{"),
        ptok(TokenType::RightBrace, "}"),
        peof(),
    ];
    let kinds = parse_kinds(tokens);
    assert!(kinds.is_empty());
}

#[test]
fn unterminated_block_fails() {
    let tokens = vec![
        ptok(TokenType::Fn, "fn"),
        ptok(TokenType::Identifier, "f"),
        ptok(TokenType::LeftParen, "("),
        ptok(TokenType::RightParen, ")"),
        ptok(TokenType::LeftBrace, "{"),
        peof(),
    ];
    let mut parser = Parser::new(tokens);
    let diagnostics = parser.parse().expect_err("parse should fail");
    assert!(!diagnostics.is_empty());
}

#[test]
fn break_and_for_shapes_parse() {
    // fn f() { break; for (let i = 1;;) }
    let tokens = vec![
        ptok(TokenType::Fn, "fn"),
        ptok(TokenType::Identifier, "f"),
        ptok(TokenType::LeftParen, "("),
        ptok(TokenType::RightParen, ")"),
        ptok(TokenType::LeftBrace, "{"),
        ptok(TokenType::Break, "break"),
        ptok(TokenType::SemiColon, ";"),
        ptok(TokenType::For, "for"),
        ptok(TokenType::LeftParen, "("),
        ptok(TokenType::Let, "let"),
        ptok(TokenType::Identifier, "i"),
        ptok(TokenType::Assign, "="),
        ptok(TokenType::Number, "1"),
        ptok(TokenType::SemiColon, ";"),
        ptok(TokenType::SemiColon, ";"),
        ptok(TokenType::RightParen, ")"),
        ptok(TokenType::RightBrace, "}"),
        peof(),
    ];
    let kinds = parse_kinds(tokens);
    assert_eq!(
        kinds,
        vec![
            AstType::Fn,
            AstType::Identifier,
            AstType::LeftParen,
            AstType::RightParen,
            AstType::LeftBrace,
            AstType::Let,
            AstType::Identifier,
            AstType::Assign,
            AstType::Number,
            AstType::SemiColon,
            AstType::RightBrace,
        ]
    );
}

#[test]
fn break_without_semicolon_fails() {
    // fn f() { break }
    let tokens = vec![
        ptok(TokenType::Fn, "fn"),
        ptok(TokenType::Identifier, "f"),
        ptok(TokenType::LeftParen, "("),
        ptok(TokenType::RightParen, ")"),
        ptok(TokenType::LeftBrace, "{"),
        ptok(TokenType::Break, "break"),
        ptok(TokenType::RightBrace, "}"),
        peof(),
    ];
    let mut parser = Parser::new(tokens);
    let diagnostics = parser.parse().expect_err("parse should fail");
    assert!(!diagnostics.is_empty());
}

#[test]
fn if_else_with_blocks_parses() {
    // fn f() { if () { } else { } }
    let tokens = vec![
        ptok(TokenType::Fn, "fn"),
        ptok(TokenType::Identifier, "f"),
        ptok(TokenType::LeftParen, "("),
        ptok(TokenType::RightParen, ")"),
        ptok(TokenType::LeftBrace, "{"),
        ptok(TokenType::If, "if"),
        ptok(TokenType::LeftParen, "("),
        ptok(TokenType::RightParen, ")"),
        ptok(TokenType::LeftBrace, "{"),
        ptok(TokenType::RightBrace, "}"),
        ptok(TokenType::Else, "else"),
        ptok(TokenType::LeftBrace, "{"),
        ptok(TokenType::RightBrace, "}"),
        ptok(TokenType::RightBrace, "}"),
        peof(),
    ];
    let kinds = parse_kinds(tokens);
    assert_eq!(
        kinds,
        vec![
            AstType::Fn,
            AstType::Identifier,
            AstType::LeftParen,
            AstType::RightParen,
            AstType::LeftBrace,
            AstType::LeftBrace,
            AstType::RightBrace,
            AstType::LeftBrace,
            AstType::RightBrace,
            AstType::RightBrace,
        ]
    );
}

#[test]
fn find_placeholder_locates_first_pair() {
    assert_eq!(find_placeholder("a{}b{}"), Some(1));
    assert_eq!(find_placeholder("{}"), Some(0));
    assert_eq!(find_placeholder("no pair {"), None);
    assert_eq!(find_placeholder(""), None);
}

#[test]
fn substitute_placeholder_replaces_once() {
    assert_eq!(substitute_placeholder("a{}b", "x"), "a${x}b");
    assert_eq!(substitute_placeholder("{}{}", "x"), "${x}{}");
    assert_eq!(substitute_placeholder("plain", "x"), "plain");
}

#[test]
fn wrap_backticks_wraps() {
    assert_eq!(wrap_backticks("hi"), "`hi`");
    assert_eq!(wrap_backticks(""), "``");
}
