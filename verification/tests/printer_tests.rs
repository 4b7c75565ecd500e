use lox::ast::Ast;
use lox::ast_printer::AstPrinter;
use lox::error::LoxResult;
use lox::expr::Expr;
use lox::parser::Parser;
use lox::scanner::Scanner;
use lox::stmt::Stmt;
use lox::token::{Literal, Token, TokenType};

#[test]
fn ast_test1() -> Result<(), LoxResult> {
    //-123 * (45.67)   -->>    (* (- 123) (group 45.67))
    let mut ast = Ast::new();
    let operand = ast.push_expr(Expr::Literal { value: Literal::Number("123".to_string()) });
    let left = ast.push_expr(Expr::Unary {
        operator: Token {
            ttype: TokenType::Minus,
            lexeme: "-".to_string(),
            literal: None,
            line: 1,
            col: 1,
        },
        right: operand,
    });
    let inner = ast.push_expr(Expr::Literal { value: Literal::Number("45.67".to_string()) });
    let right = ast.push_expr(Expr::Grouping { expression: inner });
    let expression = ast.push_expr(Expr::Binary {
        left,
        operator: Token {
            ttype: TokenType::Star,
            lexeme: "*".to_string(),
            literal: None,
            line: 1,
            col: 1,
        },
        right,
    });
    let result = AstPrinter::default().print(&ast, expression)?;
    assert_eq!(result, "(* (- 123) (group 45.67))");
    Ok(())
}

// The prefix form of the expression statement that `source` holds.
fn prefix_form(source: &str) -> String {
    let mut scanner = Scanner::new(source);
    let (tokens, ok) = scanner.scan_tokens();
    assert!(ok);
    let mut parser = Parser::new(tokens);
    let stmts = parser.parse();
    assert!(parser.success());
    assert_eq!(stmts.len(), 1);
    let ast = parser.into_ast();
    match ast.stmt(stmts[0]) {
        Stmt::Expression(stmt) => AstPrinter::default().print(&ast, stmt.expression).unwrap(),
        _ => panic!("not an expression statement"),
    }
}

#[test]
fn the_parser_gives_operators_their_precedence() {
    assert_eq!(prefix_form("1 + 2 * 3;"), "(+ 1 (* 2 3))");
    assert_eq!(prefix_form("1 * 2 + 3;"), "(+ (* 1 2) 3)");
    assert_eq!(prefix_form("1 - 2 - 3;"), "(- (- 1 2) 3)");
    assert_eq!(prefix_form("1 < 2 == 3 > 4;"), "(== (< 1 2) (> 3 4))");
    assert_eq!(prefix_form("!true == false;"), "(== (! true) false)");
    assert_eq!(prefix_form("- -1;"), "(- (- 1))");
    assert_eq!(prefix_form("a or b and c;"), "(or a (and b c))");
    assert_eq!(prefix_form("a = b = 1;"), "(= a (= b 1))");
    assert_eq!(prefix_form("(1 + 2) * 3;"), "(* (group (+ 1 2)) 3)");
}

#[test]
fn the_printer_shows_calls_and_properties() {
    assert_eq!(prefix_form("f(1, \"x\")(nil);"), "(call (call f 1 x) nil)");
    assert_eq!(prefix_form("a.b.c;"), "(. c (. b a))");
    assert_eq!(prefix_form("a.b = 2;"), "(= b a 2)");
    assert_eq!(prefix_form("this;"), "this");
    assert_eq!(prefix_form("super.m;"), "(super m)");
    assert_eq!(prefix_form("f();"), "(call f)");
}
