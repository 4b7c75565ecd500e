use lox::ast::Ast;
use lox::error::LoxResult;
use lox::expr::Expr;
use lox::parser::Parser;
use lox::resolver::Resolver;
use lox::scanner::Scanner;
use lox::stmt::Stmt;
use lox::token::{Literal, Token, TokenType};

fn tokens(source: &str) -> Vec<Token> {
    let mut scanner = Scanner::new(source);
    let (tokens, ok) = scanner.scan_tokens();
    assert!(ok);
    tokens
}

fn parse(source: &str) -> (Ast, Vec<usize>, Vec<LoxResult>) {
    let mut parser = Parser::new(tokens(source));
    let stmts = parser.parse();
    let errors = parser.errors().clone();
    assert_eq!(parser.success(), errors.is_empty());
    (parser.into_ast(), stmts, errors)
}

fn messages(errors: &[LoxResult]) -> Vec<String> {
    errors.iter().map(|e| e.report()).collect()
}

fn resolve_errors(source: &str) -> Vec<String> {
    let (ast, stmts, errors) = parse(source);
    assert!(errors.is_empty(), "{:?}", errors);
    let mut resolver = Resolver::new();
    // An error is recorded, not thrown: the pass runs to the end.
    assert_eq!(resolver.resolve(&ast, &stmts), Ok(()));
    assert_eq!(resolver.success(), resolver.errors().is_empty());
    messages(resolver.errors())
}

fn depths(source: &str) -> Vec<(String, usize)> {
    let (ast, stmts, errors) = parse(source);
    assert!(errors.is_empty());
    let mut resolver = Resolver::new();
    assert!(resolver.resolve(&ast, &stmts).is_ok());
    resolver
        .locals()
        .iter()
        .map(|(expr, depth)| {
            let name = match ast.expr(*expr) {
                Expr::Variable { name } => name.lexeme.clone(),
                Expr::Assign { name, .. } => format!("{}=", name.lexeme),
                Expr::This { keyword } => keyword.lexeme.clone(),
                Expr::Super { keyword, .. } => keyword.lexeme.clone(),
                _ => panic!("not a use of a name"),
            };
            (name, *depth)
        })
        .collect()
}

fn arguments(count: usize) -> String {
    let list: Vec<String> = (0..count).map(|i| i.to_string()).collect();
    format!("f({});", list.join(", "))
}

#[test]
fn a_call_may_have_255_arguments() {
    let (ast, stmts, errors) = parse(&arguments(255));
    assert!(errors.is_empty());
    assert_eq!(stmts.len(), 1);
    match ast.stmt(stmts[0]) {
        Stmt::Expression(stmt) => match ast.expr(stmt.expression) {
            Expr::Call { arguments, .. } => assert_eq!(arguments.len(), 255),
            _ => panic!("not a call"),
        },
        _ => panic!("not an expression statement"),
    }
}

#[test]
fn the_256th_argument_is_reported_and_parsing_goes_on() {
    let source = format!("{} print 1;", arguments(256));
    let (ast, stmts, errors) = parse(&source);
    assert_eq!(errors.len(), 1);
    assert!(errors[0].report().ends_with("Error at '255': Can't have more than 255 arguments"));
    assert_eq!(stmts.len(), 2);
    assert!(matches!(ast.stmt(stmts[1]), Stmt::Print(_)));
}

#[test]
fn a_function_may_have_255_parameters() {
    let names = |count: usize| {
        let list: Vec<String> = (0..count).map(|i| format!("p{}", i)).collect();
        format!("fun f({}) {{}}", list.join(", "))
    };
    let (_, stmts, errors) = parse(&names(255));
    assert!(errors.is_empty());
    assert_eq!(stmts.len(), 1);
    let (_, stmts, errors) = parse(&names(256));
    assert_eq!(messages(&errors).len(), 1);
    assert!(errors[0].report().ends_with("Can't have more than 255 parameters"));
    assert_eq!(stmts.len(), 1);
}

#[test]
fn a_for_loop_is_a_while_loop_in_a_block() {
    let (ast, stmts, errors) = parse("for (var i = 0; i < 3; i = i + 1) print i;");
    assert!(errors.is_empty());
    assert_eq!(stmts.len(), 1);
    let outer = match ast.stmt(stmts[0]) {
        Stmt::Block(block) => block.statements.clone(),
        _ => panic!("not a block"),
    };
    assert_eq!(outer.len(), 2);
    assert!(matches!(ast.stmt(outer[0]), Stmt::Var(_)));
    let body = match ast.stmt(outer[1]) {
        Stmt::While(repeat) => {
            assert!(matches!(ast.expr(repeat.condition), Expr::Binary { .. }));
            repeat.body
        }
        _ => panic!("not a loop"),
    };
    let inner = match ast.stmt(body) {
        Stmt::Block(block) => block.statements.clone(),
        _ => panic!("not a block"),
    };
    assert_eq!(inner.len(), 2);
    assert!(matches!(ast.stmt(inner[0]), Stmt::Print(_)));
    match ast.stmt(inner[1]) {
        Stmt::Expression(stmt) => assert!(matches!(ast.expr(stmt.expression), Expr::Assign { .. })),
        _ => panic!("not an expression statement"),
    }
}

#[test]
fn a_for_loop_without_parts_loops_on_true() {
    let (ast, stmts, errors) = parse("for (;;) break;");
    assert!(errors.is_empty());
    match ast.stmt(stmts[0]) {
        Stmt::While(repeat) => {
            match ast.expr(repeat.condition) {
                Expr::Literal { value } => assert_eq!(*value, Literal::Bool(true)),
                _ => panic!("not a literal"),
            }
            assert!(matches!(ast.stmt(repeat.body), Stmt::Break(_)));
        }
        _ => panic!("not a loop"),
    }
}

#[test]
fn after_an_error_the_parser_synchronizes() {
    let (ast, stmts, errors) = parse("var = 1; print 2; 3 +; print 4");
    assert_eq!(messages(&errors), vec![
        "[line 1 col 5] Error at '=': Expect variable name.",
        "[line 1 col 22] Error at ';': Expression expected",
        "[line 1 col 30] Error at eof: Expect ';' after value.",
    ]);
    assert_eq!(stmts.len(), 1);
    assert!(matches!(ast.stmt(stmts[0]), Stmt::Print(_)));
}

#[test]
fn an_invalid_assignment_target_is_reported_without_recovery() {
    let (ast, stmts, errors) = parse("1 = 2; print 3;");
    assert_eq!(messages(&errors), vec!["[line 1 col 3] Error at '=': Invalid assignment target."]);
    assert_eq!(stmts.len(), 2);
    match ast.stmt(stmts[0]) {
        Stmt::Expression(stmt) => assert!(matches!(ast.expr(stmt.expression), Expr::Literal { .. })),
        _ => panic!("not an expression statement"),
    }
}

#[test]
fn every_statement_has_its_message() {
    let cases = [
        ("{ print 1;", "Expect '}' after block."),
        ("if 1", "Expect '(' after 'if'."),
        ("if (1 print 2;", "Expect ')' after 'if'."),
        ("while 1", "Expect '(' after 'while'."),
        ("while (1 print 2;", "Expect ')' after while condition."),
        ("for 1", "Expect '(' after 'for'."),
        ("for (;1 2", "Expect ';' after for loop condition."),
        ("for (;;1 2", "Expect ')' after for loop."),
        ("return 1", "Expect ';' after return statement."),
        ("break", "Expect ';' after break statement."),
        ("var a = 1", "Expect ';' after variable declaration"),
        ("fun (", "Expect 'function' name."),
        ("fun f", "Expect '(' after 'function' name."),
        ("fun f(1", "Expect parameter name"),
        ("fun f(a", "Expect ')' after parameters"),
        ("fun f(a)", "Expect '{' before 'function' body"),
        ("class {", "Expect class name."),
        ("class A <", "Expect superclass name."),
        ("class A", "Expect '{' before class body."),
        ("class A { f() {}", "Expect '}' after class body."),
        ("class A { 1 }", "Expect 'method' name."),
        ("f(1;", "Expect ')' after arguments"),
        ("(1;", "Expect `)` after expression"),
        ("a.1;", "Expect property name after '.'."),
        ("super;", "Expect '.' after 'super'."),
        ("super.1;", "Expect superclass method name."),
    ];
    for (source, message) in cases {
        let (_, _, errors) = parse(source);
        assert!(!errors.is_empty(), "{}", source);
        assert!(errors[0].report().ends_with(message), "{}: {}", source, errors[0].report());
    }
}

#[test]
fn classes_and_functions_are_declared() {
    let (ast, stmts, errors) = parse("class B < A { init(n) { this.n = n; } speak() {} }");
    assert!(errors.is_empty());
    match ast.stmt(stmts[0]) {
        Stmt::Class(class) => {
            assert_eq!(class.name.lexeme, "B");
            match ast.expr(class.superclass.unwrap()) {
                Expr::Variable { name } => assert_eq!(name.lexeme, "A"),
                _ => panic!("not a name"),
            }
            assert_eq!(class.methods.len(), 2);
            match ast.stmt(class.methods[0]) {
                Stmt::Function(function) => {
                    assert_eq!(function.name.lexeme, "init");
                    assert_eq!(function.params.len(), 1);
                    assert_eq!(function.body.len(), 1);
                }
                _ => panic!("not a function"),
            }
        }
        _ => panic!("not a class"),
    }
}

#[test]
fn a_parser_reports_on_request() {
    let mut parser = Parser::new(tokens("1;"));
    assert!(parser.success());
    let token = Token::new(TokenType::Number, "1".to_string(), None, 1, 1);
    let error = parser.parse_error(&token, "no");
    assert_eq!(error, LoxResult::error_at_token(&token, "no"));
    assert!(!parser.success());
    assert_eq!(parser.errors().len(), 1);
    assert_eq!(parser.ast().expr_count(), 0);
}

#[test]
fn reading_a_variable_in_its_own_initializer() {
    assert_eq!(resolve_errors("{ var a = a; }"), vec![
        "[line 1 col 11] Error at 'a': Can't read local variable in its own initializer"
    ]);
    assert!(resolve_errors("var a = a;").is_empty());
    assert!(resolve_errors("var a = 1; { var b = a; }").is_empty());
}

#[test]
fn return_must_be_in_a_function() {
    assert_eq!(resolve_errors("return;"), vec![
        "[line 1 col 6] Error at 'return': Can't return from top-level code"
    ]);
    assert_eq!(resolve_errors("class A { init() { return 1; } }"), vec![
        "[line 1 col 25] Error at 'return': Can't return a value from an initializer"
    ]);
    assert!(resolve_errors("class A { init() { return; } }").is_empty());
    assert!(resolve_errors("fun f() { return 1; }").is_empty());
    assert!(resolve_errors("class A { m() { return 1; } }").is_empty());
}

#[test]
fn break_must_be_in_a_loop() {
    assert_eq!(resolve_errors("break;"), vec![
        "[line 1 col 5] Error at 'break': break statements are not allowed here"
    ]);
    assert_eq!(resolve_errors("while (true) {} break;").len(), 1);
    assert!(resolve_errors("while (true) { break; }").is_empty());
    assert!(resolve_errors("for (;;) { if (true) break; }").is_empty());
}

#[test]
fn this_and_super_must_be_in_a_class() {
    assert!(resolve_errors("print this;")[0].ends_with("Can't use 'this' outside of a class."));
    assert!(resolve_errors("fun f() { this; }")[0].ends_with("Can't use 'this' outside of a class."));
    assert!(resolve_errors("super.m();")[0].ends_with("Can't use 'super' outside of a class."));
    assert!(resolve_errors("class A { m() { super.m(); } }")[0]
        .ends_with("Can't use 'super' in a class with no superclass."));
    assert!(resolve_errors("class A < A {}")[0].ends_with("A class can't inherit from itself."));
    assert!(resolve_errors("class A {} class B < A { m() { super.m(); this; } }").is_empty());
}

#[test]
fn a_name_may_be_declared_once_in_a_scope() {
    assert!(resolve_errors("{ var a = 1; var a = 2; }")[0]
        .ends_with("A variable with the same name already exists in this scope"));
    assert!(resolve_errors("fun f(a, a) {}")[0]
        .ends_with("A variable with the same name already exists in this scope"));
    assert!(resolve_errors("var a = 1; var a = 2;").is_empty());
    assert!(resolve_errors("{ var a = 1; { var a = 2; } }").is_empty());
}

#[test]
fn every_error_is_reported_in_one_pass() {
    assert_eq!(resolve_errors("return; break; print this;").len(), 3);
    assert_eq!(resolve_errors("return 1; print 2;"), vec![
        "[line 1 col 6] Error at 'return': Can't return from top-level code"
    ]);
    assert_eq!(resolve_errors("{ var a = 1; var a = 2; } print 3;").len(), 1);
    assert!(resolve_errors("{ var a = 1; var b = 2; } print 3;").is_empty());
}

#[test]
fn a_use_is_bound_to_the_innermost_scope_that_declares_it() {
    assert_eq!(depths("var g = 1; print g;"), vec![]);
    assert_eq!(depths("{ var a = 1; print a; }"), vec![("a".to_string(), 0)]);
    assert_eq!(depths("{ var a = 1; { print a; { a = 2; } } }"), vec![
        ("a".to_string(), 1),
        ("a=".to_string(), 2)
    ]);
    assert_eq!(depths("{ var a = 1; { var a = 2; print a; } print a; }"), vec![
        ("a".to_string(), 0),
        ("a".to_string(), 0)
    ]);
    assert_eq!(depths("fun f(p) { print p; { print p; print f; } }"), vec![
        ("p".to_string(), 0),
        ("p".to_string(), 1)
    ]);
    assert_eq!(depths("class A {} class B < A { m() { this; super.m; } }"), vec![
        ("this".to_string(), 1),
        ("super".to_string(), 2)
    ]);
}
