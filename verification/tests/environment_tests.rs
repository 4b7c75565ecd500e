use lox::environment::Environment;
use lox::interpreter::GLOBALS;
use lox::object::Object;
use lox::token::{Literal, Token, TokenType};

fn number(x: f64) -> Object {
    Object::Number(x.to_bits())
}

fn identifier(name: &str) -> Token {
    Token::new(TokenType::Identifier, name.to_string(), None, 1, 1)
}

#[test]
fn test_variable_definition() {
    let mut e = Environment::new();
    e.define(GLOBALS, "var_bool", Object::Bool(true));
    e.define(GLOBALS, "var_num", number(123.));
    assert!(e.get(GLOBALS, &identifier("var_bool")).is_ok());
    assert!(e.get(GLOBALS, &identifier("var_num")).is_ok());
    assert_eq!(e.get(GLOBALS, &identifier("var_bool")).unwrap(), Object::Bool(true));
    assert_eq!(e.get(GLOBALS, &identifier("var_num")).unwrap(), number(123.));
}

#[test]
fn test_variable_redefinition() {
    let mut e = Environment::new();
    e.define(GLOBALS, "same_name", Object::Bool(true));
    e.define(GLOBALS, "same_name", number(123.));
    assert_eq!(e.get(GLOBALS, &identifier("same_name")).unwrap(), number(123.));
}

#[test]
fn test_variable_lookup_ok() {
    let tok = Token::new(
        TokenType::Identifier,
        "var_str".to_string(),
        Some(Literal::Identifier("var_str".to_string())),
        1,
        1,
    );
    let mut e = Environment::new();
    e.define(GLOBALS, "var_str", Object::Str("str_val".to_string()));
    assert_eq!(e.get(GLOBALS, &tok).unwrap(), Object::Str("str_val".to_string()));
}

#[test]
fn test_variable_lookup_failed() {
    let tok = Token::new(TokenType::Identifier, "var_str".to_string(), None, 1, 1);
    let e = Environment::new();
    assert!(e.get(GLOBALS, &tok).is_err());
}

#[test]
fn test_variable_assignment() {
    let mut e = Environment::new();
    let token = Token::new(TokenType::Identifier, "var_num".to_string(), None, 1, 1);
    e.define(GLOBALS, "var_num", number(123.));
    assert!(e.assign(GLOBALS, &token, number(456.)).is_ok());
    assert_eq!(e.get(GLOBALS, &token).unwrap(), number(456.));
}

#[test]
fn test_variable_assignment_failed() {
    let mut e = Environment::new();
    let token = Token::new(TokenType::Identifier, "var_num".to_string(), None, 1, 1);
    assert!(e.assign(GLOBALS, &token, number(456.)).is_err());
}

#[test]
fn test_enclosing_env() {
    let mut store = Environment::new();
    let e = GLOBALS;
    let f = store.new_enclosing(e);
    assert_eq!(store.enclosing(f), Some(e));
}

#[test]
fn test_read_var_enclosed_env() {
    let token = Token::new(TokenType::Identifier, "var_num".to_string(), None, 1, 1);
    let mut store = Environment::new();
    let e = GLOBALS;
    store.define(e, "var_num", number(123.));
    let f = store.new_enclosing(e);
    assert_eq!(store.get(f, &token).unwrap(), number(123.));
}

#[test]
fn test_write_var_enclosed_env() {
    let token = Token::new(TokenType::Identifier, "var_num".to_string(), None, 1, 1);
    let mut store = Environment::new();
    let e = GLOBALS;
    store.define(e, "var_num", number(123.));
    let f = store.new_enclosing(e);
    assert!(store.assign(f, &token, number(456.)).is_ok());
    assert_eq!(store.get(f, &token).unwrap(), number(456.));
}

#[test]
fn assignment_through_one_scope_is_seen_through_its_sibling() {
    let token = identifier("counter");
    let mut store = Environment::new();
    let shared = store.new_enclosing(GLOBALS);
    store.define(shared, "counter", number(0.));
    let a = store.new_enclosing(shared);
    let b = store.new_enclosing(shared);
    assert!(store.assign(a, &token, number(7.)).is_ok());
    assert_eq!(store.get(b, &token).unwrap(), number(7.));
    assert_eq!(store.get(shared, &token).unwrap(), number(7.));
    assert!(store.get(GLOBALS, &token).is_err());
}

#[test]
fn lookup_by_depth_hops_exactly_that_many_scopes() {
    let token = identifier("x");
    let mut store = Environment::new();
    store.define(GLOBALS, "x", number(1.));
    let inner = store.new_enclosing(GLOBALS);
    store.define(inner, "x", number(2.));
    let innermost = store.new_enclosing(inner);
    assert_eq!(store.get_at(innermost, 1, &token).unwrap(), number(2.));
    assert_eq!(store.get_at(innermost, 2, &token).unwrap(), number(1.));
    assert!(store.get_at(innermost, 0, &token).is_err());
    assert!(store.get_at(innermost, 3, &token).is_err());
    assert!(store.assign_at(innermost, 1, &token, number(5.)).is_ok());
    assert_eq!(store.get(innermost, &token).unwrap(), number(5.));
    assert_eq!(store.get(GLOBALS, &token).unwrap(), number(1.));
    assert!(store.assign_at(innermost, 9, &token, number(5.)).is_err());
}

#[test]
fn shadowing_hides_the_outer_binding_only_inside() {
    let token = identifier("a");
    let mut store = Environment::new();
    store.define(GLOBALS, "a", number(1.));
    let block = store.new_enclosing(GLOBALS);
    store.define(block, "a", number(2.));
    assert_eq!(store.get(block, &token).unwrap(), number(2.));
    assert_eq!(store.get(GLOBALS, &token).unwrap(), number(1.));
}
