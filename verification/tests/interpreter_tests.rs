use lox::ast::Ast;
use lox::error::LoxResult;
use lox::expr::Expr;
use lox::interpreter::Interpreter;
use lox::machine::{Action, Event};
use lox::object::Object;
use lox::parser::Parser;
use lox::resolver::Resolver;
use lox::scanner::Scanner;
use lox::stmt::{Stmt, VarStmt};
use lox::token::{Literal, Token, TokenType};

// The host: it performs what the evaluator asks for and hands the answer
// back, until the run has ended. The lines printed are collected.
fn host(interpreter: &mut Interpreter, out: &mut Vec<String>) -> Result<Object, LoxResult> {
    let mut event = Event::Resume;
    loop {
        event = match interpreter.step(event) {
            Action::Continue => Event::Resume,
            Action::Print(line) => {
                out.push(line);
                Event::Resume
            }
            Action::Parse(text) => match text.parse::<f64>() {
                Ok(x) => Event::Number(x.to_bits()),
                Err(_) => Event::Failed(format!("not a number: {}", text)),
            },
            Action::Negate(a) => Event::Number((-f64::from_bits(a)).to_bits()),
            Action::Arithmetic(op, a, b) => {
                let (a, b) = (f64::from_bits(a), f64::from_bits(b));
                match op {
                    TokenType::Plus => Event::Number((a + b).to_bits()),
                    TokenType::Minus => Event::Number((a - b).to_bits()),
                    TokenType::Star => Event::Number((a * b).to_bits()),
                    TokenType::Slash => Event::Number((a / b).to_bits()),
                    _ => Event::Failed("not an arithmetic operator".to_string()),
                }
            }
            Action::Compare(op, a, b) => {
                let (a, b) = (f64::from_bits(a), f64::from_bits(b));
                match op {
                    TokenType::Greater => Event::Bool(a > b),
                    TokenType::GreaterEqual => Event::Bool(a >= b),
                    TokenType::Less => Event::Bool(a < b),
                    TokenType::LessEqual => Event::Bool(a <= b),
                    TokenType::EqualEqual => Event::Bool(a == b),
                    TokenType::BangEqual => Event::Bool(a != b),
                    _ => Event::Failed("not a comparison".to_string()),
                }
            }
            Action::Format(a) => Event::Text(format!("{}", f64::from_bits(a))),
            Action::Truncate(a) => Event::Count(f64::from_bits(a) as usize),
            Action::Clock => Event::Number(1_700_000_000_000f64.to_bits()),
            Action::Finished(result) => return result,
        };
    }
}

// Runs a program through the whole pipeline; the lines printed, and how the
// run ended.
fn run(source: &str) -> (Vec<String>, Result<Object, String>) {
    let mut out = Vec::new();
    let mut scanner = Scanner::new(source);
    let (tokens, scanned) = scanner.scan_tokens();
    if !scanned {
        return (out, Err(scanner.recorded_errors()[0].report()));
    }
    let mut parser = Parser::new(tokens);
    let stmts = parser.parse();
    if !parser.success() {
        return (out, Err(parser.errors()[0].report()));
    }
    let ast = parser.into_ast();
    let mut resolver = Resolver::new();
    let _ = resolver.resolve(&ast, &stmts);
    if !resolver.success() {
        return (out, Err(resolver.errors()[0].report()));
    }
    let mut interpreter = Interpreter::new();
    interpreter.set_ast(ast);
    for (expr, depth) in resolver.locals() {
        interpreter.resolve(*expr, *depth);
    }
    interpreter.interpret(stmts);
    let result = host(&mut interpreter, &mut out);
    (out, result.map_err(|e| e.report()))
}

fn printed(source: &str) -> Vec<String> {
    let (out, result) = run(source);
    assert!(result.is_ok(), "{:?}", result);
    out
}

fn number(x: f64) -> Object {
    Object::Number(x.to_bits())
}

fn number_literal(text: &str) -> Expr {
    Expr::Literal { value: Literal::Number(text.to_string()) }
}

fn make_token(ttype: TokenType, lexeme: &str) -> Token {
    Token::new(ttype, lexeme.to_string(), None, 1, 0)
}

// Evaluates `operator right`.
fn unary(operator: Token, right: Expr) -> Result<Object, LoxResult> {
    let mut ast = Ast::new();
    let right = ast.push_expr(right);
    let expr = ast.push_expr(Expr::Unary { operator, right });
    evaluate(ast, expr)
}

// Evaluates `left operator right`.
fn binary(left: Expr, operator: Token, right: Expr) -> Result<Object, LoxResult> {
    let mut ast = Ast::new();
    let left = ast.push_expr(left);
    let right = ast.push_expr(right);
    let expr = ast.push_expr(Expr::Binary { left, operator, right });
    evaluate(ast, expr)
}

fn evaluate(ast: Ast, expr: usize) -> Result<Object, LoxResult> {
    let mut interpreter = Interpreter::new();
    interpreter.set_ast(ast);
    interpreter.evaluate(expr);
    host(&mut interpreter, &mut Vec::new())
}

#[test]
fn test_unary_minus() {
    let result = unary(make_token(TokenType::Minus, "-"), number_literal("123"));
    assert!(result.is_ok());
    assert_eq!(result.ok(), Some(number(-123.0)));
}

#[test]
fn test_unary_not() {
    let result = unary(
        make_token(TokenType::Bang, "!"),
        Expr::Literal { value: Literal::Bool(false) },
    );
    assert!(result.is_ok());
    assert_eq!(result.ok(), Some(Object::Bool(true)));
}

#[test]
fn test_binary_sub() {
    let result = binary(
        number_literal("321"),
        make_token(TokenType::Minus, "-"),
        number_literal("123"),
    );
    assert!(result.is_ok());
    assert_eq!(result.ok(), Some(number(198.)));
}

#[test]
fn test_binary_div() {
    let result = binary(
        number_literal("100"),
        make_token(TokenType::Slash, "/"),
        number_literal("10"),
    );
    assert!(result.is_ok());
    assert_eq!(result.ok(), Some(number(10.)));
}

#[test]
fn test_binary_mul() {
    let result = binary(
        number_literal("100"),
        make_token(TokenType::Star, "*"),
        number_literal("10"),
    );
    assert!(result.is_ok());
    assert_eq!(result.ok(), Some(number(1000.)));
}

#[test]
fn test_binary_add() {
    let result = binary(
        number_literal("100"),
        make_token(TokenType::Plus, "+"),
        number_literal("10"),
    );
    assert!(result.is_ok());
    assert_eq!(result.ok(), Some(number(110.)));
}

#[test]
fn test_binary_concat() {
    let result = binary(
        Expr::Literal { value: Literal::Str("Hello, ".to_string()) },
        make_token(TokenType::Plus, "+"),
        Expr::Literal { value: Literal::Str("World!".to_string()) },
    );
    assert!(result.is_ok());
    assert_eq!(result.ok(), Some(Object::Str("Hello, World!".to_string())));
}

#[test]
fn test_binary_illegal() {
    let result = binary(
        number_literal("321"),
        make_token(TokenType::Minus, "-"),
        Expr::Literal { value: Literal::Bool(true) },
    );
    assert!(result.is_err());
}

#[test]
fn test_binary_eq_nil() {
    let result = binary(
        Expr::Literal { value: Literal::Nil },
        make_token(TokenType::EqualEqual, "=="),
        Expr::Literal { value: Literal::Nil },
    );
    assert!(result.is_ok());
    assert_eq!(result.ok(), Some(Object::Bool(true)));
}

#[test]
fn test_binary_eq_str() {
    let result = binary(
        Expr::Literal { value: Literal::Str("Hello".to_string()) },
        make_token(TokenType::EqualEqual, "=="),
        Expr::Literal { value: Literal::Str("Hello".to_string()) },
    );
    assert!(result.is_ok());
    assert_eq!(result.ok(), Some(Object::Bool(true)));
}

#[test]
fn test_binary_ne_str() {
    let result = binary(
        Expr::Literal { value: Literal::Str("Hello".to_string()) },
        make_token(TokenType::EqualEqual, "=="),
        Expr::Literal { value: Literal::Str("World".to_string()) },
    );
    assert!(result.is_ok());
    assert_eq!(result.ok(), Some(Object::Bool(false)));
}

// Use a helper to test '==' and '!=', '>', '>=', '<', and '<='
fn run_comparisons(tok: &Token, nums: Vec<&str>, value: &str, results: Vec<bool>) {
    for (num, r) in nums.iter().zip(results) {
        let result = binary(number_literal(num), tok.clone(), number_literal(value));
        assert!(result.is_ok());
        assert_eq!(
            result.ok(),
            Some(Object::Bool(r)),
            "Testing {} {} {}",
            num,
            tok.lexeme,
            value
        );
    }
}

#[test]
fn test_binary_eq() {
    let numbers = vec!["14", "15", "16"];
    let results = vec![false, true, false];
    run_comparisons(&make_token(TokenType::EqualEqual, "=="), numbers, "15", results);
}

#[test]
fn test_binary_ne() {
    let numbers = vec!["14", "15", "16"];
    let results = vec![true, false, true];
    run_comparisons(&make_token(TokenType::BangEqual, "!="), numbers, "15", results);
}

#[test]
fn test_binary_gt() {
    let numbers = vec!["14", "15", "16"];
    let results = vec![false, false, true];
    run_comparisons(&make_token(TokenType::Greater, ">"), numbers, "15", results);
}

#[test]
fn test_binary_ge() {
    let numbers = vec!["14", "15", "16"];
    let results = vec![false, true, true];
    run_comparisons(&make_token(TokenType::GreaterEqual, ">="), numbers, "15", results);
}

#[test]
fn test_binary_lt() {
    let numbers = vec!["14", "15", "16"];
    let results = vec![true, false, false];
    run_comparisons(&make_token(TokenType::Less, "<"), numbers, "15", results);
}

#[test]
fn test_binary_le() {
    let numbers = vec!["14", "15", "16"];
    let results = vec![true, true, false];
    run_comparisons(&make_token(TokenType::LessEqual, "<="), numbers, "15", results);
}

#[test]
fn test_nested_expr() {
    //-123 * (45.67) = -5617.41
    let mut ast = Ast::new();
    let operand = ast.push_expr(number_literal("123"));
    let left = ast.push_expr(Expr::Unary {
        operator: make_token(TokenType::Minus, "-"),
        right: operand,
    });
    let right = ast.push_expr(number_literal("45.67"));
    let expr = ast.push_expr(Expr::Binary {
        left,
        operator: make_token(TokenType::Star, "*"),
        right,
    });
    let result = evaluate(ast, expr);
    assert!(result.is_ok());
    assert_eq!(result.ok(), Some(number(-5617.41)));
}

#[test]
fn test_var_stmt() {
    let token = Token::new(TokenType::Identifier, "var_num".to_string(), None, 1, 1);
    let mut ast = Ast::new();
    let stmt = ast.push_stmt(Stmt::Var(VarStmt { name: token.clone(), initializer: None }));
    let mut interpreter = Interpreter::new();
    interpreter.set_ast(ast);
    interpreter.interpret(vec![stmt]);
    assert!(host(&mut interpreter, &mut Vec::new()).is_ok());
    assert_eq!(
        interpreter.environments().get(interpreter.environment(), &token).unwrap(),
        Object::Nil
    );
}

#[test]
fn test_var_stmt_initialized() {
    let token = Token::new(TokenType::Identifier, "var_num".to_string(), None, 1, 1);
    let mut ast = Ast::new();
    let initializer = ast.push_expr(number_literal("123"));
    let stmt = ast.push_stmt(Stmt::Var(VarStmt {
        name: token.clone(),
        initializer: Some(initializer),
    }));
    let mut interpreter = Interpreter::new();
    interpreter.set_ast(ast);
    interpreter.interpret(vec![stmt]);
    assert!(host(&mut interpreter, &mut Vec::new()).is_ok());
    assert_eq!(
        interpreter.environments().get(interpreter.environment(), &token).unwrap(),
        number(123.)
    );
}

#[test]
fn test_variable_expression() {
    // First define a variable
    let token = Token::new(TokenType::Identifier, "var_num".to_string(), None, 1, 1);
    let mut ast = Ast::new();
    let initializer = ast.push_expr(number_literal("123"));
    let stmt = ast.push_stmt(Stmt::Var(VarStmt {
        name: token.clone(),
        initializer: Some(initializer),
    }));
    // Now use the defined variable in an expression
    let var_expr = ast.push_expr(Expr::Variable { name: token.clone() });
    let mut interpreter = Interpreter::new();
    interpreter.set_ast(ast);
    interpreter.interpret(vec![stmt]);
    assert!(host(&mut interpreter, &mut Vec::new()).is_ok());

    interpreter.evaluate(var_expr);
    assert!(host(&mut interpreter, &mut Vec::new()).is_ok());
    interpreter.evaluate(var_expr);
    assert_eq!(host(&mut interpreter, &mut Vec::new()).unwrap(), number(123.));
}

#[test]
fn test_variable_expression_undefined() {
    let token = Token::new(TokenType::Identifier, "var_num".to_string(), None, 1, 1);
    // Try to use an undefined variable in an expression
    let mut ast = Ast::new();
    let var_expr = ast.push_expr(Expr::Variable { name: token.clone() });
    assert!(evaluate(ast, var_expr).is_err());
}

#[test]
fn arithmetic_follows_precedence() {
    assert_eq!(printed("print 1 + 2 * 3;"), vec!["7"]);
    assert_eq!(printed("print (1 + 2) * 3;"), vec!["9"]);
    assert_eq!(printed("print 10 - 4 - 3;"), vec!["3"]);
    assert_eq!(printed("print -2 * -3;"), vec!["6"]);
    assert_eq!(printed("print 7 / 2;"), vec!["3.5"]);
}

#[test]
fn a_number_joins_a_string_by_its_display_form() {
    assert_eq!(printed("var a = \"hi\"; print a + \" \" + 1;"), vec!["hi 1"]);
    assert_eq!(printed("print 1.50 + \"x\";"), vec!["1.5x"]);
    assert_eq!(printed("print \"ab\" * 3;"), vec!["ababab"]);
    assert_eq!(printed("print 2.9 * \"ab\";"), vec!["abab"]);
    assert_eq!(printed("print \"ab\" * 0;"), vec![""]);
}

#[test]
fn a_block_shadows_and_restores() {
    assert_eq!(printed("var a = 1; { var a = 2; print a; } print a;"), vec!["2", "1"]);
}

#[test]
fn a_closure_keeps_its_variable() {
    let source = "fun c(){var i=0; fun inc(){i=i+1; return i;} return inc;} \
                  var f=c(); print f(); print f(); print f();";
    assert_eq!(printed(source), vec!["1", "2", "3"]);
}

#[test]
fn two_closures_share_the_scope_they_were_made_in() {
    let source = "var get; var set; \
                  { var x = 1; fun g(){ return x; } fun s(v){ x = v; } get = g; set = s; } \
                  print get(); set(5); print get();";
    assert_eq!(printed(source), vec!["1", "5"]);
}

#[test]
fn a_closure_is_bound_where_it_was_declared() {
    let source = "var a = \"global\"; \
                  { fun show(){ print a; } show(); var a = \"block\"; show(); }";
    assert_eq!(printed(source), vec!["global", "global"]);
}

#[test]
fn a_method_reads_the_fields_of_this() {
    let source = "class A{ greet(){ print \"hi \"+this.n; } } var a=A(); a.n=\"x\"; a.greet();";
    assert_eq!(printed(source), vec!["hi x"]);
}

#[test]
fn a_subclass_inherits_the_initializer() {
    let source = "class A{ init(n){this.n=n;} } class B<A{ speak(){ print this.n;} } \
                  B(\"ok\").speak();";
    assert_eq!(printed(source), vec!["ok"]);
}

#[test]
fn super_calls_the_method_of_the_superclass() {
    let source = "class A{ say(){ print \"A\"; } } \
                  class B<A{ say(){ super.say(); print \"B\"; } } B().say();";
    assert_eq!(printed(source), vec!["A", "B"]);
    let (_, missing) = run("class A{} class B<A{ f(){ super.g(); } } B().f();");
    assert!(missing.unwrap_err().contains("Undefined property"));
}

#[test]
fn a_method_declared_again_takes_the_place_of_the_first() {
    assert_eq!(printed("class A{ f(){ print 1; } f(){ print 2; } } A().f();"), vec!["2"]);
    let overridden = "class A{ f(){ print 1; } } class B<A{ f(){ print 2; } } B().f(); A().f();";
    assert_eq!(printed(overridden), vec!["2", "1"]);
}

#[test]
fn a_for_loop_counts() {
    assert_eq!(printed("for (var i=0; i<3; i=i+1) print i;"), vec!["0", "1", "2"]);
}

#[test]
fn a_for_loop_behaves_like_its_while_loop() {
    let with_for = printed("var s = 0; for (var i=1; i<=4; i=i+1) { s = s + i; print s; }");
    let with_while =
        printed("var s = 0; { var i=1; while (i<=4) { { s = s + i; print s; } i=i+1; } }");
    assert_eq!(with_for, with_while);
    assert_eq!(with_for, vec!["1", "3", "6", "10"]);
}

#[test]
fn equality_is_by_value_and_never_across_kinds() {
    assert_eq!(printed("print \"a\" == \"a\"; print nil == false;"), vec!["true", "false"]);
    assert_eq!(printed("print nil == nil; print 1 == \"1\"; print true != 1;"), vec![
        "true", "false", "true"
    ]);
    assert_eq!(printed("fun f(){} var g = f; print f == g; print f == 1;"), vec![
        "true", "false"
    ]);
    assert_eq!(printed("class A{} print A() == A(); var a = A(); print a == a;"), vec![
        "false", "true"
    ]);
}

#[test]
fn double_negation_is_truthiness() {
    assert_eq!(
        printed("print !!0; print !!\"\"; print !!nil; print !!false; print !!true;"),
        vec!["true", "true", "false", "false", "true"]
    );
}

#[test]
fn logical_operators_short_circuit() {
    assert_eq!(printed("print nil or \"x\"; print 1 or 2; print nil and 1; print 1 and 2;"), vec![
        "x", "1", "nil", "2"
    ]);
    assert_eq!(printed("var a = 1; true or (a = 2); false and (a = 3); print a;"), vec!["1"]);
}

#[test]
fn break_leaves_the_innermost_loop() {
    let source = "var i = 0; while (true) { i = i + 1; if (i > 2) break; print i; } print \"done\";";
    assert_eq!(printed(source), vec!["1", "2", "done"]);
    let nested = "for (var i=0; i<2; i=i+1) { while (true) { break; } print i; }";
    assert_eq!(printed(nested), vec!["0", "1"]);
}

#[test]
fn a_variable_holds_its_value_until_reassigned() {
    assert_eq!(printed("var x = 1 + 1; print x; print x; x = 5; print x;"), vec!["2", "2", "5"]);
    assert_eq!(printed("var x; print x;"), vec!["nil"]);
}

#[test]
fn a_global_may_be_declared_from_itself_once_it_is_bound() {
    assert_eq!(printed("var a = 1; var a = a; print a;"), vec!["1"]);
    let (_, unbound) = run("var a = a;");
    assert!(unbound.unwrap_err().contains("Undefined variable 'a'"));
}

#[test]
fn an_assignment_touches_one_slot() {
    let source = "var x = 0; { var x = 1; var y = 2; { x = 5; print x; print y; } print x; } \
                  print x;";
    assert_eq!(printed(source), vec!["5", "2", "5", "0"]);
}

#[test]
fn leaving_a_call_restores_the_scope_of_the_caller() {
    let source = "var a = 1; fun f(a) { { var a = 3; } return a; } \
                  { var a = 2; print f(9); print a; } print a;";
    assert_eq!(printed(source), vec!["9", "2", "1"]);
}

#[test]
fn an_initializer_returns_this() {
    let source = "class A{ init(){ this.v = 1; return; } } var a = A(); print a.v; \
                  print a.init() == a;";
    assert_eq!(printed(source), vec!["1", "true"]);
}

#[test]
fn values_have_display_forms() {
    let source = "class A{} fun f(a, b){} print A; print A(); print f; print clock; print nil; \
                  print true;";
    assert_eq!(printed(source), vec![
        "<class A>",
        "instance of A",
        "<fun f(a, b)>",
        "<native-fun()>",
        "nil",
        "true"
    ]);
}

#[test]
fn the_clock_is_a_number_of_the_host() {
    assert_eq!(printed("print clock() > 0;"), vec!["true"]);
    let (_, wrong) = run("clock(1);");
    assert!(wrong.unwrap_err().contains("Expected 0 arguments but got 1"));
}

#[test]
fn runtime_errors_end_the_run() {
    let (out, result) = run("print 1; print -\"a\"; print 2;");
    assert_eq!(out, vec!["1"]);
    assert_eq!(result.unwrap_err(), "[line 1 col 16] Error at '-': Operand must be a number");
    let (_, result) = run("print 1 - true;");
    assert_eq!(result.unwrap_err(), "[line 1 col 9] Error at '-': Illegal operation");
    let (_, result) = run("print x;");
    assert_eq!(result.unwrap_err(), "[line 1 col 7] Error at 'x': Undefined variable 'x'");
    let (_, result) = run("x = 1;");
    assert!(result.unwrap_err().contains("Undefined variable 'x'"));
    let (_, result) = run("\"text\"();");
    assert!(result.unwrap_err().contains("Can only call functions and classes"));
    let (_, result) = run("fun f(a){} f(1, 2);");
    assert!(result.unwrap_err().contains("Expected 1 arguments but got 2"));
    let (_, result) = run("var A = 1; class B < A {}");
    assert!(result.unwrap_err().contains("Superclass must be a class"));
    let (_, result) = run("class A{} print A().x;");
    assert!(result.unwrap_err().contains("Undefined property x"));
    let (_, result) = run("var a = 1; print a.x;");
    assert!(result.unwrap_err().contains("Only instances have properties"));
    let (_, result) = run("var a = 1; a.x = 2;");
    assert!(result.unwrap_err().contains("Only instances have fields"));
}

#[test]
fn the_state_survives_from_one_run_to_the_next() {
    let mut interpreter = Interpreter::new();
    let mut out = Vec::new();
    for line in ["var a = 1;", "fun next(){ a = a + 1; return a; }", "print next();", "print a;"] {
        let mut scanner = Scanner::new(line);
        let (tokens, _) = scanner.scan_tokens();
        let mut parser = Parser::with_ast(tokens, interpreter.take_ast());
        let stmts = parser.parse();
        assert!(parser.success());
        let ast = parser.into_ast();
        let mut resolver = Resolver::new();
        assert!(resolver.resolve(&ast, &stmts).is_ok());
        assert!(resolver.success());
        interpreter.set_ast(ast);
        for (expr, depth) in resolver.locals() {
            interpreter.resolve(*expr, *depth);
        }
        interpreter.interpret(stmts);
        assert!(host(&mut interpreter, &mut out).is_ok());
    }
    assert_eq!(out, vec!["2", "2"]);
}

#[test]
fn the_stages_run_in_turn_and_stop_at_the_first_that_fails() {
    let mut interpreter = Interpreter::new();
    let mut out = Vec::new();
    assert!(lox::pipeline::run(&mut interpreter, "var a = 2; print a * 3;").is_ok());
    assert!(host(&mut interpreter, &mut out).is_ok());
    assert_eq!(out, vec!["6"]);

    let scan = lox::pipeline::run(&mut interpreter, "print #; print (;").unwrap_err();
    assert_eq!(scan, vec![LoxResult::error(1, 7, "scanner can't handle #")]);
    let parse = lox::pipeline::run(&mut interpreter, "print (; return;").unwrap_err();
    assert_eq!(parse.len(), 1);
    assert_eq!(parse[0].report(), "[line 1 col 8] Error at ';': Expression expected");
    let resolve = lox::pipeline::run(&mut interpreter, "return; break;").unwrap_err();
    assert_eq!(resolve.len(), 2);
    assert!(matches!(resolve[0], LoxResult::ResolveError { .. }));

    // Nothing of the failed runs is left to do, and the state is as before.
    assert_eq!(interpreter.step(Event::Resume), Action::Finished(Ok(Object::Nil)));
    assert!(lox::pipeline::run(&mut interpreter, "print a;").is_ok());
    assert!(host(&mut interpreter, &mut out).is_ok());
    assert_eq!(out, vec!["6", "2"]);
}

#[test]
fn recursion_and_return() {
    let source = "fun fib(n){ if (n < 2) return n; return fib(n-1) + fib(n-2); } print fib(10);";
    assert_eq!(printed(source), vec!["55"]);
    assert_eq!(printed("fun f(){ } print f();"), vec!["nil"]);
    assert_eq!(printed("fun f(){ while (true) { return 3; } } print f();"), vec!["3"]);
}

#[test]
fn an_answer_that_was_not_asked_for_is_a_fault() {
    let mut ast = Ast::new();
    let expr = ast.push_expr(number_literal("1"));
    let mut interpreter = Interpreter::new();
    interpreter.set_ast(ast);
    interpreter.evaluate(expr);
    assert_eq!(interpreter.step(Event::Resume), Action::Parse("1".to_string()));
    assert_eq!(interpreter.step(Event::Bool(true)), Action::Continue);
    match interpreter.step(Event::Resume) {
        Action::Finished(Err(LoxResult::SystemError { message })) => {
            assert_eq!(message, "unexpected answer from the host")
        }
        other => panic!("{:?}", other),
    }
}
