use rustscript::ast::{AstToken, AstType};
use rustscript::context::Context;
use rustscript::error::Problem;
use rustscript::token::{Object, Token, TokenType};
use rustscript::types::{RustScriptType, Types};

#[test]
fn type_equality_is_tag_equality() {
    let a = Types::new(RustScriptType::Number);
    let b = Types::new(RustScriptType::Number);
    let c = Types::new(RustScriptType::String);
    assert!(a.equals(b));
    assert!(!a.equals(c));
    assert!(a.self_nb().equals(b));
}

#[test]
fn from_string_is_identity_on_tags() {
    assert!(Types::from_string(RustScriptType::Number).equals(Types::new(RustScriptType::Number)));
    assert!(Types::from_string(RustScriptType::String).equals(Types::new(RustScriptType::String)));
    assert!(
        Types::from_string(RustScriptType::UnKnown).equals(Types::new(RustScriptType::UnKnown))
    );
}

#[test]
fn type_to_token_maps_each_tag() {
    assert_eq!(Types::new(RustScriptType::Number).type_to_token(), AstType::Number);
    assert_eq!(Types::new(RustScriptType::String).type_to_token(), AstType::String);
    assert_eq!(Types::new(RustScriptType::UnKnown).type_to_token(), AstType::UnKnown);
}

#[test]
fn type_names_render() {
    assert_eq!(Types::new(RustScriptType::Number).to_string(), "Number");
    assert_eq!(Types::new(RustScriptType::String).to_string(), "String");
    assert_eq!(Types::new(RustScriptType::UnKnown).to_string(), "UnKnown");
    assert_eq!(Types::new(RustScriptType::Number).get_name(), RustScriptType::Number);
}

#[test]
fn tokens_carry_their_parts() {
    let t = Token::new(
        TokenType::String,
        "\"hi\"".to_string(),
        Some(Object::Str("hi".to_string())),
        3,
    );
    assert_eq!(t.token_type(), TokenType::String);
    assert!(t.is(TokenType::String));
    assert!(!t.is(TokenType::Number));
    assert_eq!(t.as_string(), "\"hi\"");
    assert_eq!(t.line, 3);
    let copy = t.dup();
    assert_eq!(copy, t);
}

#[test]
fn objects_render_as_text() {
    assert_eq!(Object::Str("hi".to_string()).to_string(), "hi");
    assert_eq!(Object::Num("42".to_string()).to_string(), "42");
    assert_eq!(Object::Bool(true).to_string(), "true");
    assert_eq!(Object::Bool(false).to_string(), "false");
    assert_eq!(Object::Nil.to_string(), "nil");
}

#[test]
fn ast_tokens_carry_their_parts() {
    let node = AstToken::new(
        AstType::StringType("x".to_string()),
        "x".to_string(),
        Some(Object::Str("x".to_string())),
    );
    assert_eq!(node.ast_type(), AstType::StringType("x".to_string()));
    assert_eq!(node.ast_lexeme(), "x");
    let copy = node.dup();
    assert_eq!(copy.ast_type(), node.ast_type());
    assert_eq!(copy.ast_lexeme(), node.ast_lexeme());
}

#[test]
fn problem_constructors_carry_context() {
    let tok = Token::new(TokenType::Number, "5".to_string(), None, 7);
    match Problem::parse_error(&tok, "bad") {
        Problem::ParseError { token, message } => {
            assert_eq!(token.lexeme, "5");
            assert_eq!(token.line, 7);
            assert_eq!(message, "bad");
        }
        other => panic!("unexpected problem {:?}", other),
    }
    match Problem::error(9, "line error") {
        Problem::Error { line, message } => {
            assert_eq!(line, 9);
            assert_eq!(message, "line error");
        }
        other => panic!("unexpected problem {:?}", other),
    }
    match Problem::runtime_error(&tok, "rt") {
        Problem::RuntimeError { token, .. } => assert_eq!(token.lexeme, "5"),
        other => panic!("unexpected problem {:?}", other),
    }
    match Problem::system_error("sys") {
        Problem::SystemError { message } => assert_eq!(message, "sys"),
        other => panic!("unexpected problem {:?}", other),
    }
    assert_eq!(Problem::fail(), Problem::Fail);
    match Problem::return_value(Object::Nil) {
        Problem::ReturnValue { value } => assert_eq!(value, Object::Nil),
        other => panic!("unexpected problem {:?}", other),
    }
}

#[test]
fn context_records_declarations() {
    let mut ctx = Context::new();
    ctx.variable_context("x".to_string(), "number".to_string())
        .expect("recording a variable succeeds");
    ctx.function_context("f".to_string(), "a".to_string(), "number".to_string())
        .expect("recording a function succeeds");
    assert_eq!(ctx.variables.len(), 1);
    assert_eq!(ctx.variables[0].var_name, "x");
    assert_eq!(ctx.variables[0].var_type, "number");
    assert_eq!(ctx.functions.len(), 1);
    assert_eq!(ctx.functions[0].name, "f");
    assert_eq!(ctx.functions[0].params[0].param_name, "a");
    assert_eq!(ctx.functions[0].returns[0].return_type, "number");
}
