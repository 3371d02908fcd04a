use rustscript::environment::TypeEnvironment;
use rustscript::types::{RustScriptType, Types};

fn num() -> Types {
    Types::new(RustScriptType::Number)
}

fn strt() -> Types {
    Types::new(RustScriptType::String)
}

#[test]
fn define_then_lookup_in_same_scope() {
    let mut env = TypeEnvironment::new();
    let returned = env.define("x".to_string(), num());
    assert!(returned.equals(num()));
    let looked = env.lookup("x".to_string()).expect("x should be bound");
    assert!(looked.equals(num()));
}

#[test]
fn lookup_of_unbound_name_fails() {
    let env = TypeEnvironment::new();
    assert!(env.lookup("missing".to_string()).is_err());
}

#[test]
fn redefinition_overwrites() {
    let mut env = TypeEnvironment::new();
    env.define("x".to_string(), num());
    env.define("x".to_string(), strt());
    let looked = env.lookup("x".to_string()).expect("x should be bound");
    assert!(looked.equals(strt()));
}

#[test]
fn global_binding_is_visible_three_scopes_deep() {
    let mut global = TypeEnvironment::new();
    global.define("x".to_string(), num());
    let first = TypeEnvironment::branch_env(global);
    let second = TypeEnvironment::branch_env(first);
    let third = TypeEnvironment::branch_env(second);
    let looked = third.lookup("x".to_string()).expect("x should be visible");
    assert!(looked.equals(num()));
}

#[test]
fn inner_binding_shadows_outer() {
    let mut global = TypeEnvironment::new();
    global.define("x".to_string(), num());
    let mut inner = TypeEnvironment::branch_env(global);
    inner.define("x".to_string(), strt());
    let looked = inner.lookup("x".to_string()).expect("x should be bound");
    assert!(looked.equals(strt()));
}

#[test]
fn middle_scope_binding_found_from_innermost() {
    let global = TypeEnvironment::new();
    let mut middle = TypeEnvironment::branch_env(global);
    middle.define("y".to_string(), strt());
    let inner = TypeEnvironment::branch_env(middle);
    let looked = inner.lookup("y".to_string()).expect("y should be visible");
    assert!(looked.equals(strt()));
}

#[test]
fn resolve_matches_lookup() {
    let mut env = TypeEnvironment::new();
    env.define("z".to_string(), num());
    let via_resolve = env.resolve("z".to_string()).expect("z should be bound");
    assert!(via_resolve.equals(num()));
}
