use lox::ast::Ast;
use lox::environment::Environment;
use lox::error::LoxResult;
use lox::expr::Expr;
use lox::functions_lox::LoxFunction;
use lox::functions_native::NativeClock;
use lox::interpreter::{escaped, Interpreter, GLOBALS};
use lox::lox_class::LoxClass;
use lox::lox_instance::LoxInstance;
use lox::machine::{
    answer, catch, evaluate, execute, resume, visit_binary_expr, visit_logical_expr,
    visit_unary_expr, Action, Caught, Event, Frame, Move, Pending, Signal,
};
use lox::names::index_of;
use lox::object::{repeat, Object};
use lox::stmt::{BlockStmt, BreakStmt, ExpressionStmt, PrintStmt, ReturnStmt, Stmt, WhileStmt};
use lox::token::{Literal, Token, TokenType};

fn token(ttype: TokenType, lexeme: &str) -> Token {
    Token::new(ttype, lexeme.to_string(), None, 1, 1)
}

fn text(s: &str) -> Object {
    Object::Str(s.to_string())
}

fn illegal(operator: &Token) -> Move {
    Move::Unwind(Signal::Error(LoxResult::error_runtime(operator, "Illegal operation")))
}

#[test]
fn numbers_are_left_to_the_host() {
    let plus = token(TokenType::Plus, "+");
    assert_eq!(
        visit_binary_expr(&plus, Object::Number(1), Object::Number(2)),
        Move::Ask(Action::Arithmetic(TokenType::Plus, 1, 2), Pending::Number)
    );
    for op in [TokenType::Minus, TokenType::Star, TokenType::Slash] {
        assert_eq!(
            visit_binary_expr(&token(op, "?"), Object::Number(5), Object::Number(6)),
            Move::Ask(Action::Arithmetic(op, 5, 6), Pending::Number)
        );
    }
    for op in [
        TokenType::Greater,
        TokenType::GreaterEqual,
        TokenType::Less,
        TokenType::LessEqual,
        TokenType::EqualEqual,
        TokenType::BangEqual,
    ] {
        assert_eq!(
            visit_binary_expr(&token(op, "?"), Object::Number(5), Object::Number(6)),
            Move::Ask(Action::Compare(op, 5, 6), Pending::Bool)
        );
    }
    let and = token(TokenType::And, "and");
    assert_eq!(visit_binary_expr(&and, Object::Number(5), Object::Number(6)), illegal(&and));
}

#[test]
fn strings_join_and_repeat() {
    let plus = token(TokenType::Plus, "+");
    let star = token(TokenType::Star, "*");
    let minus = token(TokenType::Minus, "-");
    assert_eq!(visit_binary_expr(&plus, text("ab"), text("cd")), Move::Give(text("abcd")));
    assert_eq!(
        visit_binary_expr(&plus, Object::Number(9), text("x")),
        Move::Ask(Action::Format(9), Pending::Joined {
            before: String::new(),
            behind: "x".to_string()
        })
    );
    assert_eq!(
        visit_binary_expr(&plus, text("x"), Object::Number(9)),
        Move::Ask(Action::Format(9), Pending::Joined {
            before: "x".to_string(),
            behind: String::new()
        })
    );
    assert_eq!(
        visit_binary_expr(&star, text("x"), Object::Number(9)),
        Move::Ask(Action::Truncate(9), Pending::Repeat { text: "x".to_string() })
    );
    assert_eq!(
        visit_binary_expr(&star, Object::Number(9), text("x")),
        Move::Ask(Action::Truncate(9), Pending::Repeat { text: "x".to_string() })
    );
    assert_eq!(visit_binary_expr(&star, text("x"), text("y")), illegal(&star));
    assert_eq!(visit_binary_expr(&minus, text("x"), Object::Number(1)), illegal(&minus));
    assert_eq!(visit_binary_expr(&minus, Object::Nil, Object::Nil), illegal(&minus));
    assert_eq!(repeat(&"ab".to_string(), 3), "ababab");
    assert_eq!(repeat(&"ab".to_string(), 0), "");
}

#[test]
fn equality_compares_any_two_values() {
    let eq = token(TokenType::EqualEqual, "==");
    let ne = token(TokenType::BangEqual, "!=");
    let cases = [
        (Object::Nil, Object::Nil, true),
        (Object::Nil, Object::Bool(false), false),
        (Object::Bool(true), Object::Bool(true), true),
        (text("a"), text("a"), true),
        (text("a"), text("b"), false),
        (text("1"), Object::Number(1), false),
        (Object::Number(1), text("1"), false),
        (Object::Func(1), Object::Func(1), true),
        (Object::Func(1), Object::Func(2), false),
        (Object::Func(1), Object::Class(1), false),
        (Object::Class(3), Object::Class(3), true),
        (Object::Instance(3), Object::Instance(4), false),
        (Object::Native(0), Object::Native(0), true),
    ];
    for (left, right, same) in cases {
        assert_eq!(left.same_as(&right), same);
        assert_eq!(
            visit_binary_expr(&eq, left.clone(), right.clone()),
            Move::Give(Object::Bool(same))
        );
        assert_eq!(visit_binary_expr(&ne, left, right), Move::Give(Object::Bool(!same)));
    }
}

#[test]
fn unary_operators() {
    let minus = token(TokenType::Minus, "-");
    let bang = token(TokenType::Bang, "!");
    assert_eq!(
        visit_unary_expr(&minus, Object::Number(4)),
        Move::Ask(Action::Negate(4), Pending::Number)
    );
    assert_eq!(
        visit_unary_expr(&minus, text("4")),
        Move::Unwind(Signal::Error(LoxResult::error_runtime(&minus, "Operand must be a number")))
    );
    assert_eq!(visit_unary_expr(&bang, Object::Nil), Move::Give(Object::Bool(true)));
    assert_eq!(visit_unary_expr(&bang, Object::Number(0)), Move::Give(Object::Bool(false)));
    assert_eq!(visit_unary_expr(&bang, text("")), Move::Give(Object::Bool(false)));
    for value in [Object::Nil, Object::Bool(false), Object::Bool(true), Object::Number(0), text("")] {
        assert_eq!(value.not().not(), Object::Bool(value.is_truthy()));
    }
}

#[test]
fn logical_operators_decide_on_the_left_operand() {
    let or = token(TokenType::Or, "or");
    let and = token(TokenType::And, "and");
    assert_eq!(visit_logical_expr(&or, text("x"), 7), Move::Give(text("x")));
    assert_eq!(visit_logical_expr(&or, Object::Nil, 7), Move::Evaluate(7));
    assert_eq!(visit_logical_expr(&and, Object::Nil, 7), Move::Give(Object::Nil));
    assert_eq!(visit_logical_expr(&and, Object::Number(0), 7), Move::Evaluate(7));
}

#[test]
fn the_host_answers_what_was_asked() {
    assert_eq!(answer(Pending::Number, Event::Number(5)), Move::Give(Object::Number(5)));
    assert_eq!(answer(Pending::Bool, Event::Bool(true)), Move::Give(Object::Bool(true)));
    assert_eq!(
        answer(
            Pending::Joined { before: "a".to_string(), behind: "c".to_string() },
            Event::Text("b".to_string())
        ),
        Move::Give(text("abc"))
    );
    assert_eq!(
        answer(Pending::Printable, Event::Text("1.5".to_string())),
        Move::Ask(Action::Print("1.5".to_string()), Pending::Printed)
    );
    assert_eq!(answer(Pending::Printed, Event::Resume), Move::Give(Object::Nil));
    assert_eq!(
        answer(Pending::Repeat { text: "ab".to_string() }, Event::Count(2)),
        Move::Give(text("abab"))
    );
    assert_eq!(
        answer(Pending::Number, Event::Failed("no clock".to_string())),
        Move::Unwind(Signal::Error(LoxResult::system_error("no clock")))
    );
    assert_eq!(
        answer(Pending::Number, Event::Bool(true)),
        Move::Unwind(Signal::Error(LoxResult::system_error("unexpected answer from the host")))
    );
}

#[test]
fn signals_stop_at_their_frames() {
    assert_eq!(
        catch(Frame::WhileBody { stmt: 1 }, Signal::Break),
        Caught::Stopped(Move::Give(Object::Nil))
    );
    assert_eq!(
        catch(Frame::WhileBody { stmt: 1 }, Signal::Return(Object::Nil)),
        Caught::Passed(None, Signal::Return(Object::Nil))
    );
    assert_eq!(
        catch(
            Frame::Call { saved: 2, closure: 1, is_initializer: false },
            Signal::Return(text("r"))
        ),
        Caught::Stopped(Move::LeaveCall {
            saved: 2,
            closure: 1,
            is_initializer: false,
            value: text("r")
        })
    );
    assert_eq!(
        catch(Frame::Call { saved: 2, closure: 1, is_initializer: false }, Signal::Break),
        Caught::Passed(Some(2), Signal::Break)
    );
    assert_eq!(
        catch(Frame::Sequence { stmt: 0, next: 1, saved: Some(4) }, Signal::Break),
        Caught::Passed(Some(4), Signal::Break)
    );
    let error = LoxResult::system_error("x");
    assert_eq!(
        catch(Frame::Program { stmts: vec![], next: 0, saved: 0 }, Signal::Error(error.clone())),
        Caught::Passed(Some(0), Signal::Error(error.clone()))
    );
    assert_eq!(
        catch(Frame::Print, Signal::Error(error.clone())),
        Caught::Passed(None, Signal::Error(error.clone()))
    );
    assert_eq!(escaped(Signal::Error(error.clone())), error);
    assert_eq!(escaped(Signal::Break), LoxResult::system_error("break outside of a loop"));
    assert_eq!(
        escaped(Signal::Return(Object::Nil)),
        LoxResult::system_error("return outside of a function")
    );
}

#[test]
fn nodes_say_how_they_begin() {
    let mut ast = Ast::new();
    let one = ast.push_expr(Expr::Literal { value: Literal::Number("1".to_string()) });
    let name = ast.push_expr(Expr::Variable { name: token(TokenType::Identifier, "a") });
    let sum = ast.push_expr(Expr::Binary {
        left: one,
        operator: token(TokenType::Plus, "+"),
        right: name,
    });
    let group = ast.push_expr(Expr::Grouping { expression: sum });
    let literal = ast.push_expr(Expr::Literal { value: Literal::Str("s".to_string()) });
    assert_eq!(evaluate(&ast, one), Move::Ask(Action::Parse("1".to_string()), Pending::Number));
    assert_eq!(evaluate(&ast, name), Move::Lookup {
        expr: name,
        name: token(TokenType::Identifier, "a")
    });
    assert_eq!(evaluate(&ast, sum), Move::PushEvaluate(Frame::BinaryLeft { expr: sum }, one));
    assert_eq!(evaluate(&ast, group), Move::Evaluate(sum));
    assert_eq!(evaluate(&ast, literal), Move::Give(text("s")));
    assert_eq!(
        evaluate(&ast, 99),
        Move::Unwind(Signal::Error(LoxResult::system_error("no such expression")))
    );

    let print = ast.push_stmt(Stmt::Print(PrintStmt { expression: one }));
    let expression = ast.push_stmt(Stmt::Expression(ExpressionStmt { expression: sum }));
    let block = ast.push_stmt(Stmt::Block(BlockStmt { statements: vec![print, expression] }));
    let stop = ast.push_stmt(Stmt::Break(BreakStmt { token: token(TokenType::Break, "break") }));
    let done = ast.push_stmt(Stmt::Return(ReturnStmt {
        keyword: token(TokenType::Return, "return"),
        value: None,
    }));
    let repeat = ast.push_stmt(Stmt::While(WhileStmt { condition: name, body: block }));
    assert_eq!(execute(&ast, print), Move::PushEvaluate(Frame::Print, one));
    assert_eq!(execute(&ast, expression), Move::Evaluate(sum));
    assert_eq!(execute(&ast, block), Move::EnterBlock(block));
    assert_eq!(execute(&ast, stop), Move::Unwind(Signal::Break));
    assert_eq!(execute(&ast, done), Move::Unwind(Signal::Return(Object::Nil)));
    assert_eq!(
        execute(&ast, repeat),
        Move::PushEvaluate(Frame::WhileCondition { stmt: repeat }, name)
    );
    assert_eq!(
        execute(&ast, 99),
        Move::Unwind(Signal::Error(LoxResult::system_error("no such statement")))
    );

    assert_eq!(
        resume(&ast, Frame::BinaryLeft { expr: sum }, Object::Number(1)),
        Move::PushEvaluate(Frame::BinaryRight { expr: sum, left: Object::Number(1) }, name)
    );
    assert_eq!(
        resume(&ast, Frame::BinaryRight { expr: sum, left: Object::Number(1) }, Object::Number(2)),
        Move::Ask(Action::Arithmetic(TokenType::Plus, 1, 2), Pending::Number)
    );
    assert_eq!(
        resume(&ast, Frame::Sequence { stmt: block, next: 0, saved: Some(0) }, Object::Nil),
        Move::PushExecute(Frame::Sequence { stmt: block, next: 1, saved: Some(0) }, print)
    );
    assert_eq!(
        resume(&ast, Frame::Sequence { stmt: block, next: 2, saved: Some(0) }, Object::Nil),
        Move::LeaveBlock(Some(0))
    );
    assert_eq!(
        resume(&ast, Frame::WhileCondition { stmt: repeat }, Object::Bool(true)),
        Move::PushExecute(Frame::WhileBody { stmt: repeat }, block)
    );
    assert_eq!(
        resume(&ast, Frame::WhileCondition { stmt: repeat }, Object::Nil),
        Move::Give(Object::Nil)
    );
    assert_eq!(
        resume(&ast, Frame::WhileBody { stmt: repeat }, Object::Nil),
        Move::PushEvaluate(Frame::WhileCondition { stmt: repeat }, name)
    );
    assert_eq!(resume(&ast, Frame::Print, Object::Number(3)), Move::Ask(
        Action::Format(3),
        Pending::Printable
    ));
    assert_eq!(resume(&ast, Frame::Print, text("s")), Move::Print(text("s")));
    assert_eq!(resume(&ast, Frame::Return, text("s")), Move::Unwind(Signal::Return(text("s"))));
    assert_eq!(
        resume(&ast, Frame::Unary { expr: sum }, Object::Nil),
        Move::Unwind(Signal::Error(LoxResult::system_error("frame does not fit its node")))
    );
}

#[test]
fn a_method_is_found_up_the_chain_of_superclasses() {
    let mut base = LoxClass::new("A", None);
    base.add_method(&"init".to_string(), 10);
    base.add_method(&"f".to_string(), 9);
    base.add_method(&"f".to_string(), 11);
    let mut derived = LoxClass::new("B", Some(0));
    derived.add_method(&"f".to_string(), 20);
    derived.add_method(&"g".to_string(), 21);
    assert_eq!(base.name(), "A");
    assert_eq!(derived.superclass(), Some(0));
    let classes = vec![base, derived];
    assert_eq!(LoxClass::find_method(&classes, 1, &"f".to_string()), Some(20));
    assert_eq!(LoxClass::find_method(&classes, 1, &"g".to_string()), Some(21));
    assert_eq!(LoxClass::find_method(&classes, 1, &"init".to_string()), Some(10));
    assert_eq!(LoxClass::find_method(&classes, 0, &"f".to_string()), Some(11));
    assert_eq!(LoxClass::find_method(&classes, 0, &"g".to_string()), None);
    assert_eq!(LoxClass::find_method(&classes, 1, &"h".to_string()), None);
    assert_eq!(LoxClass::find_method(&classes, 2, &"f".to_string()), None);
    assert_eq!(index_of(&vec!["a".to_string(), "b".to_string(), "a".to_string()], &"a".to_string()), Some(0));
    assert_eq!(index_of(&vec!["a".to_string()], &"b".to_string()), None);
}

#[test]
fn an_instance_keeps_its_fields() {
    let n = token(TokenType::Identifier, "n");
    let m = token(TokenType::Identifier, "m");
    let mut instance = LoxInstance::new(4);
    assert_eq!(instance.klass(), 4);
    assert_eq!(instance.get(&n), None);
    instance.set(&n, Object::Number(1));
    instance.set(&m, text("x"));
    instance.set(&n, Object::Number(2));
    assert_eq!(instance.get(&n), Some(Object::Number(2)));
    assert_eq!(instance.get(&m), Some(text("x")));
}

#[test]
fn binding_a_method_makes_a_scope_for_this() {
    let this = token(TokenType::This, "this");
    let mut store = Environment::new();
    let closure = store.new_enclosing(GLOBALS);
    let method = LoxFunction::new(7, closure, true);
    let bound = method.bind(&mut store, Object::Instance(3)).unwrap();
    assert_eq!(bound, LoxFunction { declaration: 7, closure: 2, is_initializer: true });
    assert_eq!(store.enclosing(bound.closure), Some(closure));
    assert_eq!(store.get_at(bound.closure, 0, &this).unwrap(), Object::Instance(3));
    assert!(store.get(closure, &this).is_err());
    assert_eq!(LoxFunction::new(7, 99, false).bind(&mut store, Object::Nil), None);
    assert_eq!(store.len(), 3);
    assert_eq!(NativeClock {}.arity(), 0);
}

#[test]
fn the_side_table_decides_where_a_name_is_looked_up() {
    let a = token(TokenType::Identifier, "a");
    let mut ast = Ast::new();
    let global_use = ast.push_expr(Expr::Variable { name: a.clone() });
    let local_use = ast.push_expr(Expr::Variable { name: a.clone() });
    let block = ast.push_stmt(Stmt::Block(BlockStmt { statements: vec![] }));
    let mut interpreter = Interpreter::new();
    interpreter.set_ast(ast);
    assert_eq!(interpreter.ast().expr_count(), 2);
    assert!(interpreter.lookup_variable(&a, global_use).is_err());
    interpreter.resolve(local_use, 0);
    assert_eq!(interpreter.environment(), GLOBALS);

    // Enter a block, and bind the name in it by hand.
    let inner = {
        let scopes = interpreter.environments().len();
        interpreter.execute_block(block, GLOBALS);
        scopes
    };
    assert_eq!(interpreter.step(Event::Resume), Action::Continue);
    assert_eq!(interpreter.step(Event::Resume), Action::Finished(Ok(Object::Nil)));
    assert_eq!(inner, 1);
    assert_eq!(
        interpreter.lookup_variable(&a, local_use),
        Err(LoxResult::RuntimeError {
            token: a.clone(),
            message: "Undefined variable 'a'".to_string()
        })
    );
    assert_eq!(interpreter.display(&Object::Bool(false)), "false");
    assert_eq!(interpreter.display(&Object::Func(9)), "<fun>");
    assert_eq!(interpreter.display(&Object::Number(9)), "");
    assert_eq!(interpreter.step(Event::Resume), Action::Finished(Ok(Object::Nil)));
}
