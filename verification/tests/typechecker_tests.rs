use rustscript::ast::AstType;
use rustscript::environment::TypeEnvironment;
use rustscript::parser::Parser;
use rustscript::token::{Object, Token, TokenType};
use rustscript::typechecker::{TypeChecker, TypeDiagnostic};
use rustscript::types::{RustScriptType, Types};

fn number() -> Types {
    Types::new(RustScriptType::Number)
}

fn string_type() -> Types {
    Types::new(RustScriptType::String)
}

fn unknown() -> Types {
    Types::new(RustScriptType::UnKnown)
}

#[test]
fn number_minus_number_is_number() {
    let mut checker = TypeChecker::new();
    let result = checker.exec(vec![AstType::Number, AstType::Minus, AstType::Number]);
    assert!(result.equals(number()));
    assert!(checker.diagnostics.is_empty());
}

#[test]
fn string_minus_string_reports_but_returns_a_type() {
    let mut checker = TypeChecker::new();
    let result = checker.exec(vec![AstType::String, AstType::Minus, AstType::String]);
    assert!(result.equals(string_type()));
    assert_eq!(
        checker.diagnostics,
        vec![
            TypeDiagnostic::OperandNotAllowed {
                operand: string_type(),
                operator: AstType::Minus,
            },
            TypeDiagnostic::OperandNotAllowed {
                operand: string_type(),
                operator: AstType::Minus,
            },
        ]
    );
}

#[test]
fn string_plus_string_is_string() {
    let mut checker = TypeChecker::new();
    let result = checker.exec(vec![AstType::String, AstType::Plus, AstType::String]);
    assert!(result.equals(string_type()));
    assert!(checker.diagnostics.is_empty());
}

#[test]
fn number_plus_string_reports_mismatch_but_returns_a_type() {
    let mut checker = TypeChecker::new();
    let result = checker.exec(vec![AstType::Number, AstType::Plus, AstType::String]);
    assert!(result.equals(string_type()));
    assert_eq!(
        checker.diagnostics,
        vec![TypeDiagnostic::Mismatch { actual: string_type(), expected: number() }]
    );
}

#[test]
fn chained_operators_fold_left_to_right() {
    let mut checker = TypeChecker::new();
    let result = checker.exec(vec![
        AstType::Number,
        AstType::Plus,
        AstType::Number,
        AstType::Minus,
        AstType::Number,
    ]);
    assert!(result.equals(number()));
    assert!(checker.diagnostics.is_empty());
}

#[test]
fn chained_string_subtraction_reports_per_triple() {
    let mut checker = TypeChecker::new();
    let result = checker.exec(vec![
        AstType::String,
        AstType::Plus,
        AstType::String,
        AstType::Minus,
        AstType::String,
    ]);
    assert!(result.equals(string_type()));
    // The re-injected String marker and the right operand both violate `-`.
    assert_eq!(checker.diagnostics.len(), 2);
}

#[test]
fn let_binds_inferred_type_into_scope() {
    let mut checker = TypeChecker::new();
    let mut env = TypeEnvironment::new();
    let slice = vec![
        AstType::Let,
        AstType::StringType("x".to_string()),
        AstType::String,
    ];
    let bound = checker.tc(&slice, &mut env);
    assert!(bound.equals(string_type()));
    let looked = env.lookup("x".to_string()).expect("x should be bound");
    assert!(looked.equals(string_type()));
    assert!(checker.diagnostics.is_empty());
}

#[test]
fn parsed_let_round_trips_through_the_checker() {
    // let x = "hi"; parsed into IR, the declaration shape fed to the
    // checker, and the binding read back from the scope.
    let tokens = vec![
        Token::new(TokenType::Let, "let".to_string(), None, 1),
        Token::new(TokenType::Identifier, "x".to_string(), None, 1),
        Token::new(TokenType::Assign, "=".to_string(), None, 1),
        Token::new(
            TokenType::String,
            "\"hi\"".to_string(),
            Some(Object::Str("hi".to_string())),
            1,
        ),
        Token::new(TokenType::SemiColon, ";".to_string(), None, 1),
        Token::new(TokenType::Eof, "".to_string(), None, 1),
    ];
    let mut parser = Parser::new(tokens);
    let ir = parser.parse().expect("parse should succeed");
    assert_eq!(ir[0].ast_type(), AstType::Let);
    let name = ir[1].ast_lexeme().to_string();
    let value_kind = ir[3].ast_type();
    let mut checker = TypeChecker::new();
    let mut env = TypeEnvironment::new();
    let slice = vec![AstType::Let, AstType::StringType(name), value_kind];
    let bound = checker.tc(&slice, &mut env);
    assert!(bound.equals(string_type()));
    let looked = env.lookup("x".to_string()).expect("x should be bound");
    assert!(looked.equals(string_type()));
}

#[test]
fn undefined_variable_is_reported_not_fatal() {
    let mut checker = TypeChecker::new();
    let result = checker.exec(vec![AstType::NumberType("nope".to_string())]);
    assert!(result.equals(unknown()));
    assert_eq!(
        checker.diagnostics,
        vec![TypeDiagnostic::UndefinedVariable { name: "nope".to_string() }]
    );
}

#[test]
fn assignment_type_must_match_the_binding() {
    let mut checker = TypeChecker::new();
    let mut env = TypeEnvironment::new();
    env.define("x".to_string(), number());
    let slice = vec![
        AstType::SetVar,
        AstType::NumberType("x".to_string()),
        AstType::String,
    ];
    let result = checker.tc(&slice, &mut env);
    assert!(result.equals(string_type()));
    assert_eq!(
        checker.diagnostics,
        vec![TypeDiagnostic::Mismatch { actual: string_type(), expected: number() }]
    );
}

#[test]
fn matching_assignment_passes() {
    let mut checker = TypeChecker::new();
    let mut env = TypeEnvironment::new();
    env.define("x".to_string(), number());
    let slice = vec![
        AstType::SetVar,
        AstType::NumberType("x".to_string()),
        AstType::Number,
    ];
    let result = checker.tc(&slice, &mut env);
    assert!(result.equals(number()));
    assert!(checker.diagnostics.is_empty());
}

#[test]
fn block_returns_last_statement_type() {
    let mut checker = TypeChecker::new();
    let result = checker.exec(vec![
        AstType::LeftBrace,
        AstType::Number,
        AstType::SemiColon,
        AstType::String,
        AstType::SemiColon,
        AstType::RightBrace,
    ]);
    assert!(result.equals(string_type()));
    assert!(checker.diagnostics.is_empty());
}

#[test]
fn empty_block_is_unknown() {
    let mut checker = TypeChecker::new();
    let result = checker.exec(vec![AstType::LeftBrace, AstType::RightBrace]);
    assert!(result.equals(unknown()));
    assert!(checker.diagnostics.is_empty());
}

#[test]
fn block_sees_enclosing_bindings() {
    let mut checker = TypeChecker::new();
    let mut env = TypeEnvironment::new();
    env.define("x".to_string(), number());
    let slice = vec![
        AstType::LeftBrace,
        AstType::NumberType("x".to_string()),
        AstType::SemiColon,
        AstType::RightBrace,
    ];
    let result = checker.tc(&slice, &mut env);
    assert!(result.equals(number()));
    assert!(checker.diagnostics.is_empty());
}

#[test]
fn block_bindings_do_not_escape() {
    let mut checker = TypeChecker::new();
    let mut env = TypeEnvironment::new();
    let slice = vec![
        AstType::LeftBrace,
        AstType::Let,
        AstType::StringType("inner".to_string()),
        AstType::String,
        AstType::SemiColon,
        AstType::RightBrace,
    ];
    let result = checker.tc(&slice, &mut env);
    assert!(result.equals(string_type()));
    assert!(env.lookup("inner".to_string()).is_err());
}

#[test]
fn unrecognized_shape_is_reported() {
    let mut checker = TypeChecker::new();
    let result = checker.exec(vec![AstType::Comma]);
    assert!(result.equals(unknown()));
    assert_eq!(checker.diagnostics, vec![TypeDiagnostic::UnrecognizedExpression]);
}

#[test]
fn empty_slice_is_unrecognized() {
    let mut checker = TypeChecker::new();
    let result = checker.exec(vec![]);
    assert!(result.equals(unknown()));
    assert_eq!(checker.diagnostics, vec![TypeDiagnostic::UnrecognizedExpression]);
}

#[test]
fn operand_sets_follow_the_operator() {
    let checker = TypeChecker::new();
    let plus = checker.get_operand_types(AstType::Plus);
    assert_eq!(plus.len(), 2);
    assert!(plus[0].equals(string_type()));
    assert!(plus[1].equals(number()));
    let minus = checker.get_operand_types(AstType::Minus);
    assert_eq!(minus.len(), 1);
    assert!(minus[0].equals(number()));
    let star = checker.get_operand_types(AstType::Star);
    assert_eq!(star.len(), 1);
    assert!(star[0].equals(number()));
    let slash = checker.get_operand_types(AstType::Slash);
    assert_eq!(slash.len(), 1);
    assert!(slash[0].equals(number()));
}

#[test]
fn test_compares_against_expectation() {
    let mut checker = TypeChecker::new();
    assert!(checker.test(
        vec![AstType::Number, AstType::Plus, AstType::Number],
        number(),
    ));
    assert!(!checker.test(
        vec![AstType::Number, AstType::Plus, AstType::Number],
        string_type(),
    ));
}
