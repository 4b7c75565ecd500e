//! The recursive-descent parser: tokens to syntax-tree nodes, with error
//! recovery. Every rule is held to its counterpart in [`crate::grammar`].

use vstd::prelude::*;
use vstd::string::*;
use crate::ast::Ast;
use crate::error::{LoxResult, LoxResultView, errors_view};
use crate::expr::{Expr, ExprView};
use crate::grammar::{
    Build, MAX_ARITY, Parsed, add_expr, after, arguments, arguments_rest, assignment, at_end,
    binary, binary_rest, block, block_rest, break_statement, call, call_rest, check,
    class_declaration, consume, declaration, desugar_for, done, ends_with_eof, expect_kind,
    expression,
    expression_statement, failed, finish_call, for_initializer, for_statement, function,
    if_statement, is_operator, methods_rest, operand, optional_expression, parameters, params_rest,
    primary, print_statement, program, report, return_statement, starts_statement, statement,
    synchronize, synchronize_rest, unary, var_declaration, while_statement,
};
use crate::stmt::{
    BlockStmt, BreakStmt, ClassStmt, ExpressionStmt, FunctionStmt, IfStmt, PrintStmt, ReturnStmt,
    Stmt, VarStmt, WhileStmt,
};
use crate::token::{Literal, Token, TokenType, TokenView, tokens_view};

verus! {

/// The parser: the tokens, the position reached in them, the errors
/// reported, and the arena the nodes go to.
pub struct Parser {
    tokens: Vec<Token>,
    current: usize,
    had_error: bool,
    errors: Vec<LoxResult>,
    ast: Ast,
}

fn is_operator_kind(level: u8, ttype: TokenType) -> (b: bool)
    ensures
        b == is_operator(level as nat, ttype),
{
    if level == 0 {
        ttype == TokenType::Slash || ttype == TokenType::Star
    } else if level == 1 {
        ttype == TokenType::Minus || ttype == TokenType::Plus
    } else if level == 2 {
        ttype == TokenType::Greater || ttype == TokenType::GreaterEqual || ttype
            == TokenType::Less || ttype == TokenType::LessEqual
    } else if level == 3 {
        ttype == TokenType::BangEqual || ttype == TokenType::EqualEqual
    } else if level == 4 {
        ttype == TokenType::And
    } else {
        ttype == TokenType::Or
    }
}

fn starts_statement_kind(ttype: TokenType) -> (b: bool)
    ensures
        b == starts_statement(ttype),
{
    ttype == TokenType::Class || ttype == TokenType::Fun || ttype == TokenType::Var || ttype
        == TokenType::For || ttype == TokenType::If || ttype == TokenType::While || ttype
        == TokenType::Print || ttype == TokenType::Return
}

fn kind_message(before: &str, kind: &str, behind: &str) -> (s: String)
    ensures
        s@ == expect_kind(before@, kind@, behind@),
{
    let mut s = String::from_str(before);
    s.append(kind);
    s.append(behind);
    s
}

impl Parser {
    /// The tokens being parsed.
    pub closed spec fn tokens(&self) -> Seq<TokenView> {
        tokens_view(self.tokens@)
    }

    /// The index of the next token.
    pub closed spec fn position(&self) -> nat {
        self.current as nat
    }

    /// The errors reported and the nodes built so far.
    pub closed spec fn build(&self) -> Build {
        Build {
            errors: errors_view(self.errors@),
            exprs: self.ast@.exprs,
            stmts: self.ast@.stmts,
        }
    }

    /// The parser's invariant: the tokens end with the end marker, the
    /// position is within them, and every node's parts come before it.
    pub closed spec fn wf(&self) -> bool {
        &&& ends_with_eof(tokens_view(self.tokens@))
        &&& self.current < self.tokens.len()
        &&& self.ast@.wf()
        &&& self.had_error == (self.errors.len() > 0)
    }

    /// The parser came from `before` by using `used` tokens and building
    /// `build`; the tokens are the same, and nothing built before is lost.
    pub closed spec fn went(&self, before: &Parser, used: nat, build: Build) -> bool {
        &&& self.wf()
        &&& self.tokens@ == before.tokens@
        &&& self.current == before.current + used
        &&& self.build() == build
        &&& self.ast@.exprs.len() >= before.ast@.exprs.len()
        &&& self.ast@.stmts.len() >= before.ast@.stmts.len()
        &&& self.errors.len() >= before.errors.len()
    }

    // `r` is what a rule with outcome `m` returns.
    spec fn gave<T>(r: Result<T, LoxResult>, m: Parsed<T>) -> bool {
        match r {
            Ok(v) => m.value == Some(v),
            Err(e) => m.value is None && m.build.errors.len() > 0 && e@ == m.build.errors.last(),
        }
    }

    // `r` is the expression that a rule with outcome `m` yields.
    spec fn gave_expr(&self, r: Result<usize, LoxResult>, m: Parsed<usize>) -> bool {
        &&& Self::gave(r, m)
        &&& r matches Ok(id) ==> id < self.ast@.exprs.len() && m.used >= 1
    }

    // `r` is the statement that a rule with outcome `m` yields.
    spec fn gave_stmt(&self, r: Result<usize, LoxResult>, m: Parsed<usize>) -> bool {
        &&& Self::gave(r, m)
        &&& r matches Ok(id) ==> id < self.ast@.stmts.len()
    }

    // From `before`, a rule with outcome `m` gave the expression `r`.
    spec fn parsed_expr(&self, before: &Parser, r: Result<usize, LoxResult>, m: Parsed<usize>)
        -> bool {
        self.went(before, m.used, m.build) && self.gave_expr(r, m)
    }

    // From `before`, a rule with outcome `m` gave the statement `r`.
    spec fn parsed_stmt(&self, before: &Parser, r: Result<usize, LoxResult>, m: Parsed<usize>)
        -> bool {
        self.went(before, m.used, m.build) && self.gave_stmt(r, m) && (r is Ok ==> m.used >= 1)
    }

    // `r` is the list of statements that a rule with outcome `m` yields.
    spec fn gave_stmts(&self, r: Result<Vec<usize>, LoxResult>, m: Parsed<Seq<usize>>) -> bool {
        match r {
            Ok(v) => m.value == Some(v@) && crate::stmt::all_below(
                v@,
                self.ast@.stmts.len() as int,
            ),
            Err(e) => m.value is None && m.build.errors.len() > 0 && e@ == m.build.errors.last(),
        }
    }

    /// A parser for `tokens`, with an empty arena.
    pub fn new(tokens: Vec<Token>) -> (p: Parser)
        requires
            ends_with_eof(tokens_view(tokens@)),
        ensures
            p.wf(),
            p.tokens() == tokens_view(tokens@),
            p.position() == 0,
            p.build() == (Build { errors: seq![], exprs: seq![], stmts: seq![] }),
    {
        let p = Parser { tokens, current: 0, had_error: false, errors: Vec::new(), ast: Ast::new() };
        assert(p.build().errors =~= seq![]);
        assert(p.build().exprs =~= seq![]);
        assert(p.build().stmts =~= seq![]);
        p
    }

    /// A parser for `tokens` that adds its nodes to `ast`.
    pub fn with_ast(tokens: Vec<Token>, ast: Ast) -> (p: Parser)
        requires
            ends_with_eof(tokens_view(tokens@)),
            ast@.wf(),
        ensures
            p.wf(),
            p.tokens() == tokens_view(tokens@),
            p.position() == 0,
            p.build() == (Build { errors: seq![], exprs: ast@.exprs, stmts: ast@.stmts }),
    {
        let p = Parser { tokens, current: 0, had_error: false, errors: Vec::new(), ast };
        assert(p.build().errors =~= seq![]);
        p
    }

    /// The arena with the nodes built.
    pub fn into_ast(self) -> (ast: Ast)
        requires
            self.wf(),
        ensures
            ast@.wf(),
            ast@.exprs == self.build().exprs,
            ast@.stmts == self.build().stmts,
    {
        self.ast
    }

    /// The arena with the nodes built so far.
    pub fn ast(&self) -> (ast: &Ast)
        requires
            self.wf(),
        ensures
            ast@.wf(),
            ast@.exprs == self.build().exprs,
            ast@.stmts == self.build().stmts,
    {
        &self.ast
    }

    /// The errors reported so far.
    pub fn errors(&self) -> (r: &Vec<LoxResult>)
        ensures
            errors_view(r@) == self.build().errors,
    {
        &self.errors
    }

    /// Parses the rest of the tokens as a program and returns its statements.
    /// A declaration with an error is left out, and parsing goes on behind it.
    #[verifier::spinoff_prover]
    #[verifier::rlimit(60)]
    pub fn parse(&mut self) -> (stmts: Vec<usize>)
        requires
            old(self).wf(),
        ensures
            final(self).wf(),
            final(self).tokens() == old(self).tokens(),
            ({
                let m = program(old(self).tokens(), old(self).position(), old(self).build(), seq![]);
                &&& m.value == Some(stmts@)
                &&& final(self).build() == m.build
                &&& final(self).position() == old(self).position() + m.used
            }),
            crate::stmt::all_below(stmts@, final(self).build().stmts.len() as int),
            at_end(final(self).tokens(), final(self).position()),
    {
        proof {
            reveal(program);
        }
        let ghost toks = self.tokens();
        let ghost origin = self.position();
        let ghost built = self.build();
        let ghost goal = program(toks, origin, built, seq![]);
        let mut stmts: Vec<usize> = Vec::new();
        assert(stmts@ =~= Seq::<usize>::empty());
        while !self.is_at_end()
            invariant
                self.went(old(self), (self.current - old(self).current) as nat, self.build()),
                toks == self.tokens(),
                toks == old(self).tokens(),
                origin == old(self).current,
                goal == program(toks, origin, built, seq![]),
                goal == after(
                    (self.current - origin) as nat,
                    program(toks, self.position(), self.build(), stmts@),
                ),
                crate::stmt::all_below(stmts@, self.ast@.stmts.len() as int),
            decreases self.tokens.len() - self.current,
        {
            proof {
                reveal(program);
            }
            let ghost here = self.position();
            let ghost hb = self.build();
            let ghost before = stmts@;
            let ghost d_m = declaration(toks, here, hb);
            // An error has been recorded and the parser has synchronized:
            // parsing goes on with the next declaration.
            match self.declaration() {
                Ok(stmt) => {
                    stmts.push(stmt);
                },
                Err(_) => {},
            }
            assert(program(toks, here, hb, before) == after(
                d_m.used,
                program(toks, here + d_m.used, self.build(), stmts@),
            ));
        }
        stmts
    }

    // An expression, unless the next token is of kind `unless`.
    fn optional_expression(&mut self, unless: TokenType) -> (r: Result<Option<usize>, LoxResult>)
        requires
            old(self).wf(),
        ensures
            final(self).went(
                old(self),
                optional_expression(
                    old(self).tokens(),
                    old(self).position(),
                    old(self).build(),
                    unless,
                ).used,
                optional_expression(
                    old(self).tokens(),
                    old(self).position(),
                    old(self).build(),
                    unless,
                ).build,
            ),
            Self::gave(
                r,
                optional_expression(
                    old(self).tokens(),
                    old(self).position(),
                    old(self).build(),
                    unless,
                ),
            ),
            r matches Ok(Some(id)) ==> id < final(self).ast@.exprs.len(),
    {
        proof {
            reveal(optional_expression);
        }
        if self.check(unless) {
            Ok(None)
        } else {
            match self.expression() {
                Ok(e) => Ok(Some(e)),
                Err(e) => Err(e),
            }
        }
    }

    fn expression(&mut self) -> (r: Result<usize, LoxResult>)
        requires
            old(self).wf(),
        ensures
            final(self).parsed_expr(
                old(self),
                r,
                expression(old(self).tokens(), old(self).position(), old(self).build()),
            ),
        decreases old(self).tokens.len() - old(self).current, 31nat,
    {
        proof {
            reveal(expression);
            reveal(assignment);
        }
        self.assignment()
    }

    #[verifier::spinoff_prover]
    #[verifier::rlimit(60)]
    fn assignment(&mut self) -> (r: Result<usize, LoxResult>)
        requires
            old(self).wf(),
        ensures
            final(self).parsed_expr(
                old(self),
                r,
                assignment(old(self).tokens(), old(self).position(), old(self).build()),
            ),
        decreases old(self).tokens.len() - old(self).current, 30nat,
    {
        proof {
            reveal(assignment);
            reveal(binary);
        }
        let ghost toks = self.tokens();
        let ghost origin = self.position();
        let ghost built = self.build();
        let ghost target_m = binary(5, toks, origin, built);
        let expr = match self.logical_or() {
            Ok(e) => e,
            Err(e) => {
                return Err(e);
            },
        };
        let ghost at = self.position();
        assert(at == origin + target_m.used);
        if self.matches(TokenType::Equal) {
            let equals = self.previous().clone();
            let ghost rhs_m = assignment(toks, at + 1, target_m.build);
            let value = match self.assignment() {
                Ok(v) => v,
                Err(e) => {
                    assert(self.went(old(self), target_m.used + 1 + rhs_m.used, rhs_m.build));
                    return Err(e);
                },
            };
            assert(self.went(old(self), target_m.used + 1 + rhs_m.used, rhs_m.build));
            let target = match self.ast.expr(expr) {
                Expr::Variable { name } => Some(Expr::Assign { name: name.clone(), value }),
                Expr::Get { object, name } => Some(
                    Expr::SetProperty { object: *object, name: name.clone(), value },
                ),
                _ => None,
            };
            match target {
                Some(node) => {
                    proof {
                        self.ast.lemma_parts_below(expr);
                    }
                    let id = self.ast.push_expr(node);
                    return Ok(id);
                },
                None => {
                    // Report but do not throw the error because the parser
                    // does not need to panic and synchronize
                    self.parse_error(&equals, "Invalid assignment target.");
                },
            }
        }
        Ok(expr)
    }

    fn logical_or(&mut self) -> (r: Result<usize, LoxResult>)
        requires
            old(self).wf(),
        ensures
            final(self).parsed_expr(
                old(self),
                r,
                binary(5, old(self).tokens(), old(self).position(), old(self).build()),
            ),
        decreases old(self).tokens.len() - old(self).current, 28nat,
    {
        self.binary(5)
    }

    fn logical_and(&mut self) -> (r: Result<usize, LoxResult>)
        requires
            old(self).wf(),
        ensures
            final(self).parsed_expr(
                old(self),
                r,
                binary(4, old(self).tokens(), old(self).position(), old(self).build()),
            ),
        decreases old(self).tokens.len() - old(self).current, 25nat,
    {
        self.binary(4)
    }

    fn equality(&mut self) -> (r: Result<usize, LoxResult>)
        requires
            old(self).wf(),
        ensures
            final(self).parsed_expr(
                old(self),
                r,
                binary(3, old(self).tokens(), old(self).position(), old(self).build()),
            ),
        decreases old(self).tokens.len() - old(self).current, 22nat,
    {
        self.binary(3)
    }

    fn comparison(&mut self) -> (r: Result<usize, LoxResult>)
        requires
            old(self).wf(),
        ensures
            final(self).parsed_expr(
                old(self),
                r,
                binary(2, old(self).tokens(), old(self).position(), old(self).build()),
            ),
        decreases old(self).tokens.len() - old(self).current, 19nat,
    {
        self.binary(2)
    }

    // In order of precedence, first addition and subtraction
    fn term(&mut self) -> (r: Result<usize, LoxResult>)
        requires
            old(self).wf(),
        ensures
            final(self).parsed_expr(
                old(self),
                r,
                binary(1, old(self).tokens(), old(self).position(), old(self).build()),
            ),
        decreases old(self).tokens.len() - old(self).current, 16nat,
    {
        self.binary(1)
    }

    // Multiplication and then division
    fn factor(&mut self) -> (r: Result<usize, LoxResult>)
        requires
            old(self).wf(),
        ensures
            final(self).parsed_expr(
                old(self),
                r,
                binary(0, old(self).tokens(), old(self).position(), old(self).build()),
            ),
        decreases old(self).tokens.len() - old(self).current, 13nat,
    {
        self.binary(0)
    }

    // The operand of a level: the next tighter level, or a unary expression.
    fn operand(&mut self, level: u8) -> (r: Result<usize, LoxResult>)
        requires
            old(self).wf(),
            level <= 5,
        ensures
            final(self).parsed_expr(
                old(self),
                r,
                operand(level as nat, old(self).tokens(), old(self).position(), old(self).build()),
            ),
        decreases old(self).tokens.len() - old(self).current, 11nat + 3 * level,
    {
        proof {
            reveal(operand);
            reveal(unary);
            reveal(binary);
        }
        if level == 0 {
            self.unary()
        } else if level == 1 {
            self.factor()
        } else if level == 2 {
            self.term()
        } else if level == 3 {
            self.comparison()
        } else if level == 4 {
            self.equality()
        } else {
            self.logical_and()
        }
    }

    // One level of left-associative binary operators. The loop maps to the
    // ( ... )* of the rule: each round takes the operator and its right
    // operand and makes the node built so far the left operand of a new one.
    #[verifier::spinoff_prover]
    #[verifier::rlimit(60)]
    fn binary(&mut self, level: u8) -> (r: Result<usize, LoxResult>)
        requires
            old(self).wf(),
            level <= 5,
        ensures
            final(self).parsed_expr(
                old(self),
                r,
                binary(level as nat, old(self).tokens(), old(self).position(), old(self).build()),
            ),
        decreases old(self).tokens.len() - old(self).current, 12nat + 3 * level,
    {
        proof {
            reveal(binary);
            reveal(binary_rest);
            reveal(operand);
        }
        let ghost toks = self.tokens();
        let ghost origin = self.position();
        let ghost built = self.build();
        let ghost first_m = operand(level as nat, toks, origin, built);
        let mut expr = match self.operand(level) {
            Ok(e) => e,
            Err(e) => {
                return Err(e);
            },
        };
        let ghost at = self.position();
        let ghost goal = binary_rest(level as nat, toks, at, first_m.build, expr);
        assert(binary(level as nat, toks, origin, built) == after(first_m.used, goal));
        while !self.is_at_end() && is_operator_kind(level, self.peek().ttype)
            invariant
                self.went(old(self), (self.current - old(self).current) as nat, self.build()),
                level <= 5,
                toks == self.tokens(),
                toks == old(self).tokens(),
                built == old(self).build(),
                origin == old(self).current,
                origin < at <= self.current,
                expr < self.ast@.exprs.len(),
                goal == after(
                    (self.current - at) as nat,
                    binary_rest(level as nat, toks, self.position(), self.build(), expr),
                ),
                binary(level as nat, toks, origin, built) == after(first_m.used, goal),
                at == origin + first_m.used,
            decreases self.tokens.len() - self.current,
        {
            proof {
                reveal(binary_rest);
                reveal(operand);
            }
            let ghost here = self.position();
            let ghost hb = self.build();
            let ghost right_m = operand(level as nat, toks, here + 1, hb);
            let ghost left_operand = expr;
            self.advance();
            let operator = self.previous().clone();
            let right = match self.operand(level) {
                Ok(e) => e,
                Err(e) => {
                    proof {
                        let rest = binary_rest(level as nat, toks, here, hb, left_operand);
                        assert(rest == after(1, right_m));
                        assert(goal == after((here - at) as nat, rest));
                        assert(self.went(
                            old(self),
                            binary(level as nat, toks, origin, built).used,
                            binary(level as nat, toks, origin, built).build,
                        ));
                    }
                    return Err(e);
                },
            };
            expr = if level >= 4 {
                self.ast.push_expr(Expr::Logical { left: expr, operator, right })
            } else {
                self.ast.push_expr(Expr::Binary { left: expr, operator, right })
            };
            proof {
                let rest = binary_rest(level as nat, toks, here, hb, left_operand);
                assert(rest == after(
                    1 + right_m.used,
                    binary_rest(
                        level as nat,
                        toks,
                        here + 1 + right_m.used,
                        self.build(),
                        expr,
                    ),
                ));
            }
        }
        Ok(expr)
    }

    // A unary operator applies to the unary expression behind it.
    fn unary(&mut self) -> (r: Result<usize, LoxResult>)
        requires
            old(self).wf(),
        ensures
            final(self).parsed_expr(
                old(self),
                r,
                unary(old(self).tokens(), old(self).position(), old(self).build()),
            ),
        decreases old(self).tokens.len() - old(self).current, 9nat,
    {
        proof {
            reveal(unary);
            reveal(call);
        }
        if self.check(TokenType::Bang) || self.check(TokenType::Minus) {
            self.advance();
            let operator = self.previous().clone();
            let right = match self.unary() {
                Ok(e) => e,
                Err(e) => {
                    return Err(e);
                },
            };
            return Ok(self.ast.push_expr(Expr::Unary { operator, right }));
        }
        self.call()
    }

    #[verifier::spinoff_prover]
    #[verifier::rlimit(60)]
    fn call(&mut self) -> (r: Result<usize, LoxResult>)
        requires
            old(self).wf(),
        ensures
            final(self).parsed_expr(
                old(self),
                r,
                call(old(self).tokens(), old(self).position(), old(self).build()),
            ),
        decreases old(self).tokens.len() - old(self).current, 8nat,
    {
        proof {
            reveal(call);
            reveal(call_rest);
            reveal(primary);
        }
        let ghost toks = self.tokens();
        let ghost origin = self.position();
        let ghost built = self.build();
        let ghost callee_m = primary(toks, origin, built);
        let mut expr = match self.primary() {
            Ok(e) => e,
            Err(e) => {
                return Err(e);
            },
        };
        let ghost at = self.position();
        let ghost goal = call_rest(toks, at, callee_m.build, expr);
        assert(call(toks, origin, built) == after(callee_m.used, goal));
        while self.check(TokenType::LeftParen) || self.check(TokenType::Dot)
            invariant
                self.went(old(self), (self.current - old(self).current) as nat, self.build()),
                toks == self.tokens(),
                toks == old(self).tokens(),
                built == old(self).build(),
                origin == old(self).current,
                origin < at <= self.current,
                expr < self.ast@.exprs.len(),
                goal == after(
                    (self.current - at) as nat,
                    call_rest(toks, self.position(), self.build(), expr),
                ),
                call(toks, origin, built) == after(callee_m.used, goal),
                at == origin + callee_m.used,
            decreases self.tokens.len() - self.current,
        {
            proof {
                reveal(call_rest);
                reveal(finish_call);
            }
            let ghost here = self.position();
            let ghost hb = self.build();
            let ghost callee = expr;
            if self.check(TokenType::LeftParen) {
                self.advance();
                let ghost finished_m = finish_call(toks, here + 1, hb, callee);
                expr = match self.finish_call(expr) {
                    Ok(e) => e,
                    Err(e) => {
                        proof {
                            assert(call_rest(toks, here, hb, callee) == after(1, finished_m));
                            assert(self.went(
                                old(self),
                                call(toks, origin, built).used,
                                call(toks, origin, built).build,
                            ));
                        }
                        return Err(e);
                    },
                };
                assert(call_rest(toks, here, hb, callee) == after(
                    1 + finished_m.used,
                    call_rest(toks, here + 1 + finished_m.used, self.build(), expr),
                ));
            } else {
                self.advance();
                let ghost name_m = consume(
                    toks,
                    here + 1,
                    hb,
                    TokenType::Identifier,
                    "Expect property name after '.'."@,
                );
                let name = match self.consume(
                    TokenType::Identifier,
                    "Expect property name after '.'.",
                ) {
                    Ok(t) => t,
                    Err(e) => {
                        proof {
                            assert(call_rest(toks, here, hb, callee) == failed::<usize>(
                                1 + name_m.used,
                                name_m.build,
                            ));
                            assert(self.went(
                                old(self),
                                call(toks, origin, built).used,
                                call(toks, origin, built).build,
                            ));
                        }
                        return Err(e);
                    },
                };
                expr = self.ast.push_expr(Expr::Get { object: expr, name });
                assert(call_rest(toks, here, hb, callee) == after(
                    2,
                    call_rest(toks, here + 2, self.build(), expr),
                ));
            }
        }
        Ok(expr)
    }

    // Process function call arguments and consume the closing parenthesis
    #[verifier::spinoff_prover]
    #[verifier::rlimit(60)]
    fn finish_call(&mut self, callee: usize) -> (r: Result<usize, LoxResult>)
        requires
            old(self).wf(),
            callee < old(self).ast@.exprs.len(),
            old(self).current >= 1,
        ensures
            final(self).parsed_expr(
                old(self),
                r,
                finish_call(old(self).tokens(), old(self).position(), old(self).build(), callee),
            ),
        decreases old(self).tokens.len() - old(self).current, 33nat,
    {
        proof {
            reveal(finish_call);
            reveal(arguments);
        }
        let ghost toks = self.tokens();
        let ghost origin = self.position();
        let ghost built = self.build();
        let args = match self.arguments() {
            Ok(a) => a,
            Err(e) => {
                return Err(e);
            },
        };
        let ghost args_m = arguments(toks, origin, built);
        assert(self.went(old(self), args_m.used, args_m.build));
        let paren = match self.consume(TokenType::RightParen, "Expect ')' after arguments") {
            Ok(t) => t,
            Err(e) => {
                return Err(e);
            },
        };
        Ok(self.ast.push_expr(Expr::Call { callee, paren, arguments: args }))
    }

    // The arguments of a call, up to the closing parenthesis.
    #[verifier::spinoff_prover]
    #[verifier::rlimit(60)]
    fn arguments(&mut self) -> (r: Result<Vec<usize>, LoxResult>)
        requires
            old(self).wf(),
        ensures
            final(self).went(
                old(self),
                arguments(old(self).tokens(), old(self).position(), old(self).build()).used,
                arguments(old(self).tokens(), old(self).position(), old(self).build()).build,
            ),
            match r {
                Ok(v) => arguments(
                    old(self).tokens(),
                    old(self).position(),
                    old(self).build(),
                ).value == Some(v@) && crate::stmt::all_below(
                    v@,
                    final(self).ast@.exprs.len() as int,
                ),
                Err(e) => Self::gave::<Seq<usize>>(
                    Err(e),
                    arguments(old(self).tokens(), old(self).position(), old(self).build()),
                ),
            },
        decreases old(self).tokens.len() - old(self).current, 32nat,
    {
        proof {
            reveal(arguments);
            reveal(arguments_rest);
            reveal(expression);
        }
        let ghost toks = self.tokens();
        let ghost origin = self.position();
        let ghost built = self.build();
        let mut list: Vec<usize> = Vec::new();
        // If there are arguments to the function
        if self.check(TokenType::RightParen) {
            assert(list@ =~= Seq::<usize>::empty());
            return Ok(list);
        }
        let ghost first_m = expression(toks, origin, built);
        match self.expression() {
            Ok(e) => {
                list.push(e);
            },
            Err(e) => {
                return Err(e);
            },
        }
        assert(list@ =~= seq![first_m.value->Some_0]);
        let ghost at = self.position();
        let ghost goal = arguments_rest(toks, at, first_m.build, list@);
        assert(arguments(toks, origin, built) == after(first_m.used, goal));
        while self.check(TokenType::Comma)
            invariant
                self.went(old(self), (self.current - old(self).current) as nat, self.build()),
                toks == self.tokens(),
                toks == old(self).tokens(),
                built == old(self).build(),
                origin == old(self).current,
                origin <= at <= self.current,
                crate::stmt::all_below(list@, self.ast@.exprs.len() as int),
                goal == after(
                    (self.current - at) as nat,
                    arguments_rest(toks, self.position(), self.build(), list@),
                ),
                arguments(toks, origin, built) == after(first_m.used, goal),
                at == origin + first_m.used,
            decreases self.tokens.len() - self.current,
        {
            proof {
                reveal(arguments_rest);
                reveal(expression);
            }
            let ghost here = self.position();
            let ghost hb = self.build();
            let ghost before = list@;
            self.advance();
            if list.len() >= MAX_ARITY {
                let token = self.peek().clone();
                self.parse_error(&token, "Can't have more than 255 arguments");
            }
            let ghost checked = self.build();
            let ghost next_m = expression(toks, here + 1, checked);
            match self.expression() {
                Ok(e) => {
                    list.push(e);
                },
                Err(e) => {
                    proof {
                        assert(arguments_rest(toks, here, hb, before) == failed::<Seq<usize>>(
                            1 + next_m.used,
                            next_m.build,
                        ));
                        assert(self.went(
                            old(self),
                            arguments(toks, origin, built).used,
                            arguments(toks, origin, built).build,
                        ));
                    }
                    return Err(e);
                },
            }
            assert(arguments_rest(toks, here, hb, before) == after(
                1 + next_m.used,
                arguments_rest(toks, here + 1 + next_m.used, self.build(), list@),
            ));
        }
        Ok(list)
    }

    // Reached highest level of precedence after crawling up the
    // precedence hierarchy. Most of the primary rules are terminals.
    #[verifier::spinoff_prover]
    #[verifier::rlimit(60)]
    fn primary(&mut self) -> (r: Result<usize, LoxResult>)
        requires
            old(self).wf(),
        ensures
            final(self).parsed_expr(
                old(self),
                r,
                primary(old(self).tokens(), old(self).position(), old(self).build()),
            ),
        decreases old(self).tokens.len() - old(self).current, 7nat,
    {
        proof {
            reveal(primary);
            reveal(expression);
        }
        let ghost toks = self.tokens();
        let ghost origin = self.position();
        let ghost built = self.build();
        let token = self.peek().clone();
        if self.is_at_end() {
            return Err(self.parse_error(&token, "Expression expected"));
        }
        match token.ttype {
            TokenType::False => {
                self.advance();
                Ok(self.ast.push_expr(Expr::Literal { value: Literal::Bool(false) }))
            },
            TokenType::True => {
                self.advance();
                Ok(self.ast.push_expr(Expr::Literal { value: Literal::Bool(true) }))
            },
            TokenType::Nil => {
                self.advance();
                Ok(self.ast.push_expr(Expr::Literal { value: Literal::Nil }))
            },
            TokenType::Number | TokenType::StringLiteral => {
                self.advance();
                let value = match token.literal {
                    Some(l) => l,
                    None => Literal::Nil,
                };
                Ok(self.ast.push_expr(Expr::Literal { value }))
            },
            TokenType::Super => {
                self.advance();
                match self.consume(TokenType::Dot, "Expect '.' after 'super'.") {
                    Ok(_) => {},
                    Err(e) => {
                        return Err(e);
                    },
                }
                assert(self.went(old(self), 2, built));
                let method = match self.consume(
                    TokenType::Identifier,
                    "Expect superclass method name.",
                ) {
                    Ok(t) => t,
                    Err(e) => {
                        return Err(e);
                    },
                };
                assert(self.went(old(self), 3, built));
                Ok(self.ast.push_expr(Expr::Super { keyword: token, method }))
            },
            TokenType::This => {
                self.advance();
                Ok(self.ast.push_expr(Expr::This { keyword: token }))
            },
            TokenType::Identifier => {
                self.advance();
                Ok(self.ast.push_expr(Expr::Variable { name: token }))
            },
            TokenType::LeftParen => {
                self.advance();
                let ghost inner_m = expression(toks, origin + 1, built);
                let expr = match self.expression() {
                    Ok(e) => e,
                    Err(e) => {
                        assert(self.went(old(self), 1 + inner_m.used, inner_m.build));
                        return Err(e);
                    },
                };
                assert(self.went(old(self), 1 + inner_m.used, inner_m.build));
                match self.consume(TokenType::RightParen, "Expect `)` after expression") {
                    Ok(_) => {},
                    Err(e) => {
                        return Err(e);
                    },
                }
                assert(self.went(old(self), 1 + inner_m.used + 1, inner_m.build));
                Ok(self.ast.push_expr(Expr::Grouping { expression: expr }))
            },
            // Encountered a token that can't start an expression.
            _ => Err(self.parse_error(&token, "Expression expected")),
        }
    }

    #[verifier::spinoff_prover]
    #[verifier::rlimit(60)]
    fn declaration(&mut self) -> (r: Result<usize, LoxResult>)
        requires
            old(self).wf(),
        ensures
            final(self).went(
                old(self),
                declaration(old(self).tokens(), old(self).position(), old(self).build()).used,
                declaration(old(self).tokens(), old(self).position(), old(self).build()).build,
            ),
            final(self).gave_stmt(
                r,
                declaration(old(self).tokens(), old(self).position(), old(self).build()),
            ),
            !at_end(old(self).tokens(), old(self).position()) ==> declaration(
                old(self).tokens(),
                old(self).position(),
                old(self).build(),
            ).used >= 1,
        decreases old(self).tokens.len() - old(self).current, 40nat,
    {
        proof {
            reveal(declaration);
            reveal(class_declaration);
            reveal(function);
            reveal(statement);
            reveal(synchronize);
        }
        let ghost toks = self.tokens();
        let ghost origin = self.position();
        let ghost built = self.build();
        let result = if self.check(TokenType::Class) {
            self.advance();
            self.class_declaration()
        } else if self.check(TokenType::Fun) {
            self.advance();
            self.fun_declaration("function")
        } else if self.check(TokenType::Var) {
            self.advance();
            self.var_declaration()
        } else {
            self.statement()
        };
        match result {
            Ok(s) => Ok(s),
            Err(e) => {
                self.synchronize();
                Err(e)
            },
        }
    }

    #[verifier::spinoff_prover]
    #[verifier::rlimit(60)]
    fn class_declaration(&mut self) -> (r: Result<usize, LoxResult>)
        requires
            old(self).wf(),
        ensures
            final(self).parsed_stmt(
                old(self),
                r,
                class_declaration(old(self).tokens(), old(self).position(), old(self).build()),
            ),
        decreases old(self).tokens.len() - old(self).current, 30nat,
    {
        proof {
            reveal(class_declaration);
            reveal(methods_rest);
        }
        let ghost toks = self.tokens();
        let ghost origin = self.position();
        let ghost built = self.build();
        let name = match self.consume(TokenType::Identifier, "Expect class name.") {
            Ok(t) => t,
            Err(e) => {
                return Err(e);
            },
        };
        assert(self.went(old(self), 1, built));
        let ghost parent_m: Parsed<Option<usize>> = if check(toks, origin + 1, TokenType::Less) {
            let super_name = consume(
                toks,
                origin + 2,
                built,
                TokenType::Identifier,
                "Expect superclass name."@,
            );
            match super_name.value {
                None => failed(1 + super_name.used, super_name.build),
                Some(s) => {
                    let node = add_expr(2, super_name.build, ExprView::Variable { name: s });
                    done(2, node.build, node.value)
                },
            }
        } else {
            done(0, built, None)
        };
        let superclass = if self.check(TokenType::Less) {
            self.advance();
            let super_name = match self.consume(TokenType::Identifier, "Expect superclass name.") {
                Ok(t) => t,
                Err(e) => {
                    assert(parent_m.value is None);
                    assert(self.went(old(self), 1 + parent_m.used, parent_m.build));
                    return Err(e);
                },
            };
            Some(self.ast.push_expr(Expr::Variable { name: super_name }))
        } else {
            None
        };
        assert(parent_m.value == Some(superclass));
        assert(self.went(old(self), 1 + parent_m.used, parent_m.build));
        let ghost open_m = consume(
            toks,
            origin + 1 + parent_m.used,
            parent_m.build,
            TokenType::LeftBrace,
            "Expect '{' before class body."@,
        );
        match self.consume(TokenType::LeftBrace, "Expect '{' before class body.") {
            Ok(_) => {},
            Err(e) => {
                assert(self.went(old(self), 1 + parent_m.used + open_m.used, open_m.build));
                return Err(e);
            },
        }
        assert(self.went(old(self), 1 + parent_m.used + 1, open_m.build));
        let ghost at = self.position();
        let ghost begun = self.build();
        let ghost goal = methods_rest(toks, at, begun, seq![]);
        let mut methods: Vec<usize> = Vec::new();
        assert(methods@ =~= Seq::<usize>::empty());
        while !self.check(TokenType::RightBrace) && !self.is_at_end()
            invariant
                self.went(old(self), (self.current - old(self).current) as nat, self.build()),
                toks == self.tokens(),
                toks == old(self).tokens(),
                built == old(self).build(),
                origin == old(self).current,
                at == origin + 1 + parent_m.used + 1,
                at <= self.current,
                crate::stmt::option_below(superclass, self.ast@.exprs.len() as int),
                goal == methods_rest(toks, at, begun, seq![]),
                goal == after(
                    (self.current - at) as nat,
                    methods_rest(toks, self.position(), self.build(), methods@),
                ),
                crate::stmt::all_below(methods@, self.ast@.stmts.len() as int),
                goal.value is None ==> class_declaration(toks, origin, built) == failed::<usize>(
                    1 + parent_m.used + 1 + goal.used,
                    goal.build,
                ),
            decreases self.tokens.len() - self.current,
        {
            proof {
                reveal(methods_rest);
                reveal(function);
            }
            let ghost here = self.position();
            let ghost hb = self.build();
            let ghost before = methods@;
            let ghost method_m = function(toks, here, hb, "method"@);
            match self.fun_declaration("method") {
                Ok(m) => {
                    methods.push(m);
                },
                Err(e) => {
                    proof {
                        assert(methods_rest(toks, here, hb, before) == failed::<Seq<usize>>(
                            method_m.used,
                            method_m.build,
                        ));
                        assert(goal.value is None);
                    }
                    return Err(e);
                },
            }
            assert(methods_rest(toks, here, hb, before) == after(
                method_m.used,
                methods_rest(toks, here + method_m.used, self.build(), methods@),
            ));
        }
        assert(goal == done::<Seq<usize>>((self.current - at) as nat, self.build(), methods@));
        let ghost close_m = consume(
            toks,
            at + goal.used,
            goal.build,
            TokenType::RightBrace,
            "Expect '}' after class body."@,
        );
        match self.consume(TokenType::RightBrace, "Expect '}' after class body.") {
            Ok(_) => {},
            Err(e) => {
                assert(self.went(
                    old(self),
                    1 + parent_m.used + 1 + goal.used + close_m.used,
                    close_m.build,
                ));
                return Err(e);
            },
        }
        assert(self.went(old(self), 1 + parent_m.used + 1 + goal.used + 1, close_m.build));
        Ok(self.ast.push_stmt(Stmt::Class(ClassStmt { name, superclass, methods })))
    }

    #[verifier::spinoff_prover]
    #[verifier::rlimit(60)]
    fn var_declaration(&mut self) -> (r: Result<usize, LoxResult>)
        requires
            old(self).wf(),
        ensures
            final(self).parsed_stmt(
                old(self),
                r,
                var_declaration(old(self).tokens(), old(self).position(), old(self).build()),
            ),
    {
        proof {
            reveal(var_declaration);
        }
        let ghost toks = self.tokens();
        let ghost origin = self.position();
        let ghost built = self.build();
        let name = match self.consume(TokenType::Identifier, "Expect variable name.") {
            Ok(t) => t,
            Err(e) => {
                return Err(e);
            },
        };
        assert(self.went(old(self), 1, built));
        let ghost init_m: Parsed<Option<usize>> = if check(toks, origin + 1, TokenType::Equal) {
            let e = expression(toks, origin + 2, built);
            match e.value {
                None => failed(1 + e.used, e.build),
                Some(expr) => done(1 + e.used, e.build, Some(expr)),
            }
        } else {
            done(0, built, None)
        };
        let initializer = if self.check(TokenType::Equal) {
            self.advance();
            match self.expression() {
                Ok(e) => Some(e),
                Err(e) => {
                    assert(init_m.value is None);
                    assert(self.went(old(self), 1 + init_m.used, init_m.build));
                    return Err(e);
                },
            }
        } else {
            None
        };
        assert(init_m.value == Some(initializer));
        assert(self.went(old(self), 1 + init_m.used, init_m.build));
        match self.consume(TokenType::Semicolon, "Expect ';' after variable declaration") {
            Ok(_) => {},
            Err(e) => {
                return Err(e);
            },
        }
        assert(self.went(old(self), 1 + init_m.used + 1, init_m.build));
        Ok(self.ast.push_stmt(Stmt::Var(VarStmt { name, initializer })))
    }

    #[verifier::spinoff_prover]
    #[verifier::rlimit(60)]
    fn fun_declaration(&mut self, kind: &str) -> (r: Result<usize, LoxResult>)
        requires
            old(self).wf(),
        ensures
            final(self).parsed_stmt(
                old(self),
                r,
                function(old(self).tokens(), old(self).position(), old(self).build(), kind@),
            ),
        decreases old(self).tokens.len() - old(self).current, 30nat,
    {
        proof {
            reveal(function);
            reveal(block);
        }
        let ghost toks = self.tokens();
        let ghost origin = self.position();
        let ghost built = self.build();
        let name_message = kind_message("Expect '", kind, "' name.");
        let name = match self.consume(TokenType::Identifier, name_message.as_str()) {
            Ok(t) => t,
            Err(e) => {
                return Err(e);
            },
        };
        assert(self.went(old(self), 1, built));
        let paren_message = kind_message("Expect '(' after '", kind, "' name.");
        match self.consume(TokenType::LeftParen, paren_message.as_str()) {
            Ok(_) => {},
            Err(e) => {
                return Err(e);
            },
        }
        assert(self.went(old(self), 2, built));
        let ghost params_m = parameters(toks, origin + 2, built);
        let params = match self.parameters() {
            Ok(p) => p,
            Err(e) => {
                assert(self.went(old(self), 2 + params_m.used, params_m.build));
                return Err(e);
            },
        };
        assert(self.went(old(self), 2 + params_m.used, params_m.build));
        let ghost close_m = consume(
            toks,
            origin + 2 + params_m.used,
            params_m.build,
            TokenType::RightParen,
            "Expect ')' after parameters"@,
        );
        match self.consume(TokenType::RightParen, "Expect ')' after parameters") {
            Ok(_) => {},
            Err(e) => {
                assert(self.went(old(self), 2 + params_m.used + close_m.used, close_m.build));
                return Err(e);
            },
        }
        assert(self.went(old(self), 2 + params_m.used + 1, params_m.build));
        // Parse function body
        let brace_message = kind_message("Expect '{' before '", kind, "' body");
        let ghost brace_m = consume(
            toks,
            origin + 2 + params_m.used + 1,
            params_m.build,
            TokenType::LeftBrace,
            brace_message@,
        );
        match self.consume(TokenType::LeftBrace, brace_message.as_str()) {
            Ok(_) => {},
            Err(e) => {
                assert(self.went(old(self), 2 + params_m.used + 1 + brace_m.used, brace_m.build));
                return Err(e);
            },
        }
        assert(self.went(old(self), 2 + params_m.used + 2, params_m.build));
        let ghost body_m = block(toks, origin + 2 + params_m.used + 2, params_m.build);
        let body = match self.block() {
            Ok(b) => b,
            Err(e) => {
                assert(self.went(old(self), 2 + params_m.used + 2 + body_m.used, body_m.build));
                return Err(e);
            },
        };
        assert(self.went(old(self), 2 + params_m.used + 2 + body_m.used, body_m.build));
        Ok(self.ast.push_stmt(Stmt::Function(FunctionStmt { name, params, body })))
    }

    // The parameters of a function, up to the closing parenthesis.
    #[verifier::spinoff_prover]
    #[verifier::rlimit(60)]
    fn parameters(&mut self) -> (r: Result<Vec<Token>, LoxResult>)
        requires
            old(self).wf(),
        ensures
            final(self).went(
                old(self),
                parameters(old(self).tokens(), old(self).position(), old(self).build()).used,
                parameters(old(self).tokens(), old(self).position(), old(self).build()).build,
            ),
            match r {
                Ok(v) => parameters(
                    old(self).tokens(),
                    old(self).position(),
                    old(self).build(),
                ).value == Some(tokens_view(v@)),
                Err(e) => Self::gave::<Seq<TokenView>>(
                    Err(e),
                    parameters(old(self).tokens(), old(self).position(), old(self).build()),
                ),
            },
    {
        proof {
            reveal(parameters);
            reveal(params_rest);
        }
        let ghost toks = self.tokens();
        let ghost origin = self.position();
        let ghost built = self.build();
        let mut params: Vec<Token> = Vec::new();
        if self.check(TokenType::RightParen) {
            assert(tokens_view(params@) =~= Seq::<TokenView>::empty());
            return Ok(params);
        }
        match self.consume(TokenType::Identifier, "Expect parameter name") {
            Ok(t) => {
                params.push(t);
            },
            Err(e) => {
                return Err(e);
            },
        }
        assert(tokens_view(params@) =~= seq![params@[0]@]);
        let ghost at = self.position();
        let ghost goal = params_rest(toks, at, built, tokens_view(params@));
        assert(parameters(toks, origin, built) == after(1, goal));
        while self.check(TokenType::Comma)
            invariant
                self.went(old(self), (self.current - old(self).current) as nat, self.build()),
                toks == self.tokens(),
                toks == old(self).tokens(),
                built == old(self).build(),
                origin == old(self).current,
                at == origin + 1,
                at <= self.current,
                goal == after(
                    (self.current - at) as nat,
                    params_rest(toks, self.position(), self.build(), tokens_view(params@)),
                ),
                parameters(toks, origin, built) == after(1, goal),
            decreases self.tokens.len() - self.current,
        {
            proof {
                reveal(params_rest);
            }
            let ghost here = self.position();
            let ghost hb = self.build();
            let ghost before = tokens_view(params@);
            self.advance();
            if params.len() >= MAX_ARITY {
                let token = self.peek().clone();
                self.parse_error(&token, "Can't have more than 255 parameters");
            }
            let ghost checked = self.build();
            let ghost next_m = consume(
                toks,
                here + 1,
                checked,
                TokenType::Identifier,
                "Expect parameter name"@,
            );
            match self.consume(TokenType::Identifier, "Expect parameter name") {
                Ok(t) => {
                    params.push(t);
                    assert(tokens_view(params@) =~= before.push(params@.last()@));
                },
                Err(e) => {
                    proof {
                        assert(params_rest(toks, here, hb, before) == failed::<Seq<TokenView>>(
                            1 + next_m.used,
                            next_m.build,
                        ));
                        assert(self.went(
                            old(self),
                            parameters(toks, origin, built).used,
                            parameters(toks, origin, built).build,
                        ));
                    }
                    return Err(e);
                },
            }
            assert(params_rest(toks, here, hb, before) == after(
                2,
                params_rest(toks, here + 2, self.build(), tokens_view(params@)),
            ));
        }
        Ok(params)
    }

    #[verifier::spinoff_prover]
    #[verifier::rlimit(60)]
    fn statement(&mut self) -> (r: Result<usize, LoxResult>)
        requires
            old(self).wf(),
        ensures
            final(self).parsed_stmt(
                old(self),
                r,
                statement(old(self).tokens(), old(self).position(), old(self).build()),
            ),
        decreases old(self).tokens.len() - old(self).current, 39nat,
    {
        proof {
            reveal(statement);
            reveal(for_statement);
            reveal(if_statement);
            reveal(while_statement);
            reveal(block);
        }
        let ghost toks = self.tokens();
        let ghost origin = self.position();
        let ghost built = self.build();
        if self.is_at_end() {
            return self.expression_statement();
        }
        let ttype = self.peek().ttype;
        match ttype {
            TokenType::For => {
                self.advance();
                self.for_statement()
            },
            TokenType::If => {
                self.advance();
                self.if_statement()
            },
            TokenType::Print => {
                self.advance();
                self.print_statement()
            },
            TokenType::Return => {
                self.advance();
                self.return_statement()
            },
            TokenType::While => {
                self.advance();
                self.while_statement()
            },
            TokenType::Break => {
                self.advance();
                self.break_statement()
            },
            TokenType::LeftBrace => {
                self.advance();
                let ghost body_m = block(toks, origin + 1, built);
                let statements = match self.block() {
                    Ok(b) => b,
                    Err(e) => {
                        return Err(e);
                    },
                };
                assert(self.went(old(self), 1 + body_m.used, body_m.build));
                Ok(self.ast.push_stmt(Stmt::Block(BlockStmt { statements })))
            },
            _ => self.expression_statement(),
        }
    }

    #[verifier::spinoff_prover]
    #[verifier::rlimit(60)]
    fn if_statement(&mut self) -> (r: Result<usize, LoxResult>)
        requires
            old(self).wf(),
        ensures
            final(self).parsed_stmt(
                old(self),
                r,
                if_statement(old(self).tokens(), old(self).position(), old(self).build()),
            ),
        decreases old(self).tokens.len() - old(self).current, 30nat,
    {
        proof {
            reveal(if_statement);
            reveal(statement);
        }
        let ghost toks = self.tokens();
        let ghost origin = self.position();
        let ghost built = self.build();
        match self.consume(TokenType::LeftParen, "Expect '(' after 'if'.") {
            Ok(_) => {},
            Err(e) => {
                return Err(e);
            },
        }
        assert(self.went(old(self), 1, built));
        let ghost cond_m = expression(toks, origin + 1, built);
        let condition = match self.expression() {
            Ok(c) => c,
            Err(e) => {
                assert(self.went(old(self), 1 + cond_m.used, cond_m.build));
                return Err(e);
            },
        };
        assert(self.went(old(self), 1 + cond_m.used, cond_m.build));
        let ghost close_m = consume(
            toks,
            origin + 1 + cond_m.used,
            cond_m.build,
            TokenType::RightParen,
            "Expect ')' after 'if'."@,
        );
        match self.consume(TokenType::RightParen, "Expect ')' after 'if'.") {
            Ok(_) => {},
            Err(e) => {
                assert(self.went(old(self), 1 + cond_m.used + close_m.used, close_m.build));
                return Err(e);
            },
        }
        let ghost used = 1 + cond_m.used + 1;
        assert(self.went(old(self), used, cond_m.build));
        let ghost then_m = statement(toks, origin + used, cond_m.build);
        let then_branch = match self.statement() {
            Ok(s) => s,
            Err(e) => {
                assert(self.went(old(self), used + then_m.used, then_m.build));
                return Err(e);
            },
        };
        assert(self.went(old(self), used + then_m.used, then_m.build));
        let ghost at = origin + used + then_m.used;
        let ghost else_m = statement(toks, at + 1, then_m.build);
        let else_branch = if self.check(TokenType::Else) {
            self.advance();
            match self.statement() {
                Ok(s) => Some(s),
                Err(e) => {
                    assert(self.went(old(self), used + then_m.used + 1 + else_m.used, else_m.build));
                    return Err(e);
                },
            }
        } else {
            None
        };
        Ok(self.ast.push_stmt(Stmt::If(IfStmt { condition, then_branch, else_branch })))
    }

    fn print_statement(&mut self) -> (r: Result<usize, LoxResult>)
        requires
            old(self).wf(),
        ensures
            final(self).parsed_stmt(
                old(self),
                r,
                print_statement(old(self).tokens(), old(self).position(), old(self).build()),
            ),
    {
        proof {
            reveal(print_statement);
        }
        let ghost toks = self.tokens();
        let ghost origin = self.position();
        let ghost built = self.build();
        let ghost e_m = expression(toks, origin, built);
        let value = match self.expression() {
            Ok(v) => v,
            Err(e) => {
                return Err(e);
            },
        };
        match self.consume(TokenType::Semicolon, "Expect ';' after value.") {
            Ok(_) => {},
            Err(e) => {
                return Err(e);
            },
        }
        assert(self.went(old(self), e_m.used + 1, e_m.build));
        Ok(self.ast.push_stmt(Stmt::Print(PrintStmt { expression: value })))
    }

    fn return_statement(&mut self) -> (r: Result<usize, LoxResult>)
        requires
            old(self).wf(),
            old(self).current >= 1,
        ensures
            final(self).went(
                old(self),
                return_statement(
                    old(self).tokens(),
                    old(self).position(),
                    old(self).build(),
                    old(self).tokens()[old(self).current - 1],
                ).used,
                return_statement(
                    old(self).tokens(),
                    old(self).position(),
                    old(self).build(),
                    old(self).tokens()[old(self).current - 1],
                ).build,
            ),
            final(self).gave_stmt(
                r,
                return_statement(
                    old(self).tokens(),
                    old(self).position(),
                    old(self).build(),
                    old(self).tokens()[old(self).current - 1],
                ),
            ),
    {
        proof {
            reveal(return_statement);
        }
        let ghost toks = self.tokens();
        let ghost origin = self.position();
        let ghost built = self.build();
        let keyword = self.previous().clone();
        let ghost value_m = optional_expression(toks, origin, built, TokenType::Semicolon);
        let value = match self.optional_expression(TokenType::Semicolon) {
            Ok(v) => v,
            Err(e) => {
                return Err(e);
            },
        };
        match self.consume(TokenType::Semicolon, "Expect ';' after return statement.") {
            Ok(_) => {},
            Err(e) => {
                return Err(e);
            },
        }
        assert(self.went(old(self), value_m.used + 1, value_m.build));
        Ok(self.ast.push_stmt(Stmt::Return(ReturnStmt { keyword, value })))
    }

    #[verifier::spinoff_prover]
    #[verifier::rlimit(60)]
    fn while_statement(&mut self) -> (r: Result<usize, LoxResult>)
        requires
            old(self).wf(),
        ensures
            final(self).parsed_stmt(
                old(self),
                r,
                while_statement(old(self).tokens(), old(self).position(), old(self).build()),
            ),
        decreases old(self).tokens.len() - old(self).current, 30nat,
    {
        proof {
            reveal(while_statement);
            reveal(statement);
        }
        let ghost toks = self.tokens();
        let ghost origin = self.position();
        let ghost built = self.build();
        match self.consume(TokenType::LeftParen, "Expect '(' after 'while'.") {
            Ok(_) => {},
            Err(e) => {
                return Err(e);
            },
        }
        assert(self.went(old(self), 1, built));
        let ghost cond_m = expression(toks, origin + 1, built);
        let condition = match self.expression() {
            Ok(c) => c,
            Err(e) => {
                assert(self.went(old(self), 1 + cond_m.used, cond_m.build));
                return Err(e);
            },
        };
        assert(self.went(old(self), 1 + cond_m.used, cond_m.build));
        let ghost close_m = consume(
            toks,
            origin + 1 + cond_m.used,
            cond_m.build,
            TokenType::RightParen,
            "Expect ')' after while condition."@,
        );
        match self.consume(TokenType::RightParen, "Expect ')' after while condition.") {
            Ok(_) => {},
            Err(e) => {
                assert(self.went(old(self), 1 + cond_m.used + close_m.used, close_m.build));
                return Err(e);
            },
        }
        let ghost used = 1 + cond_m.used + 1;
        assert(self.went(old(self), used, cond_m.build));
        let ghost body_m = statement(toks, origin + used, cond_m.build);
        let body = match self.statement() {
            Ok(s) => s,
            Err(e) => {
                assert(self.went(old(self), used + body_m.used, body_m.build));
                return Err(e);
            },
        };
        assert(self.went(old(self), used + body_m.used, body_m.build));
        Ok(self.ast.push_stmt(Stmt::While(WhileStmt { condition, body })))
    }

    fn break_statement(&mut self) -> (r: Result<usize, LoxResult>)
        requires
            old(self).wf(),
            old(self).current >= 1,
        ensures
            final(self).went(
                old(self),
                break_statement(
                    old(self).tokens(),
                    old(self).position(),
                    old(self).build(),
                    old(self).tokens()[old(self).current - 1],
                ).used,
                break_statement(
                    old(self).tokens(),
                    old(self).position(),
                    old(self).build(),
                    old(self).tokens()[old(self).current - 1],
                ).build,
            ),
            final(self).gave_stmt(
                r,
                break_statement(
                    old(self).tokens(),
                    old(self).position(),
                    old(self).build(),
                    old(self).tokens()[old(self).current - 1],
                ),
            ),
    {
        proof {
            reveal(break_statement);
        }
        let token = self.previous().clone();
        match self.consume(TokenType::Semicolon, "Expect ';' after break statement.") {
            Ok(_) => {},
            Err(e) => {
                return Err(e);
            },
        }
        Ok(self.ast.push_stmt(Stmt::Break(BreakStmt { token })))
    }

    // The initializer of a `for` loop, with its semicolon.
    fn for_initializer(&mut self) -> (r: Result<Option<usize>, LoxResult>)
        requires
            old(self).wf(),
        ensures
            final(self).went(
                old(self),
                for_initializer(old(self).tokens(), old(self).position(), old(self).build()).used,
                for_initializer(old(self).tokens(), old(self).position(), old(self).build()).build,
            ),
            Self::gave(
                r,
                for_initializer(old(self).tokens(), old(self).position(), old(self).build()),
            ),
            r matches Ok(Some(id)) ==> id < final(self).ast@.stmts.len(),
    {
        proof {
            reveal(for_initializer);
        }
        if self.check(TokenType::Semicolon) {
            self.advance();
            Ok(None)
        } else if self.check(TokenType::Var) {
            self.advance();
            match self.var_declaration() {
                Ok(s) => Ok(Some(s)),
                Err(e) => Err(e),
            }
        } else {
            match self.expression_statement() {
                Ok(s) => Ok(Some(s)),
                Err(e) => Err(e),
            }
        }
    }

    // Builds the `while` loop that a `for` loop stands for.
    fn desugar_for(
        &mut self,
        initializer: Option<usize>,
        condition: Option<usize>,
        increment: Option<usize>,
        body: usize,
    ) -> (id: usize)
        requires
            old(self).wf(),
            crate::stmt::option_below(initializer, old(self).ast@.stmts.len() as int),
            crate::stmt::option_below(condition, old(self).ast@.exprs.len() as int),
            crate::stmt::option_below(increment, old(self).ast@.exprs.len() as int),
            body < old(self).ast@.stmts.len(),
        ensures
            final(self).went(
                old(self),
                0,
                desugar_for(old(self).build(), initializer, condition, increment, body).build,
            ),
            desugar_for(old(self).build(), initializer, condition, increment, body).value == Some(
                id,
            ),
            desugar_for(old(self).build(), initializer, condition, increment, body).used == 0,
            id < final(self).ast@.stmts.len(),
    {
        proof {
            reveal(desugar_for);
        }
        let mut body = body;
        // Build a block statement
        if let Some(inc) = increment {
            let step = self.ast.push_stmt(Stmt::Expression(ExpressionStmt { expression: inc }));
            let mut statements: Vec<usize> = Vec::new();
            statements.push(body);
            statements.push(step);
            assert(statements@ =~= seq![body, step]);
            body = self.ast.push_stmt(Stmt::Block(BlockStmt { statements }));
        }
        // Force condition to true if not specified
        let condition = if let Some(cond) = condition {
            cond
        } else {
            self.ast.push_expr(Expr::Literal { value: Literal::Bool(true) })
        };
        // Build a while statement with the condition and body
        body = self.ast.push_stmt(Stmt::While(WhileStmt { condition, body }));
        // Build a block statement around the while statement to add initializer
        if let Some(init) = initializer {
            let mut statements: Vec<usize> = Vec::new();
            statements.push(init);
            statements.push(body);
            assert(statements@ =~= seq![init, body]);
            body = self.ast.push_stmt(Stmt::Block(BlockStmt { statements }));
        }
        body
    }

    #[verifier::spinoff_prover]
    #[verifier::rlimit(60)]
    fn for_statement(&mut self) -> (r: Result<usize, LoxResult>)
        requires
            old(self).wf(),
        ensures
            final(self).parsed_stmt(
                old(self),
                r,
                for_statement(old(self).tokens(), old(self).position(), old(self).build()),
            ),
        decreases old(self).tokens.len() - old(self).current, 30nat,
    {
        proof {
            reveal(for_statement);
            reveal(statement);
        }
        let ghost toks = self.tokens();
        let ghost origin = self.position();
        let ghost built = self.build();
        match self.consume(TokenType::LeftParen, "Expect '(' after 'for'.") {
            Ok(_) => {},
            Err(e) => {
                return Err(e);
            },
        }
        assert(self.went(old(self), 1, built));
        // Parse optional 'initializer'
        let ghost init_m = for_initializer(toks, origin + 1, built);
        let initializer = match self.for_initializer() {
            Ok(i) => i,
            Err(e) => {
                assert(self.went(old(self), 1 + init_m.used, init_m.build));
                return Err(e);
            },
        };
        assert(self.went(old(self), 1 + init_m.used, init_m.build));
        // Parse optional condition
        let ghost at_condition = origin + 1 + init_m.used;
        let ghost cond_m = optional_expression(
            toks,
            at_condition,
            init_m.build,
            TokenType::Semicolon,
        );
        let condition = match self.optional_expression(TokenType::Semicolon) {
            Ok(c) => c,
            Err(e) => {
                assert(self.went(old(self), 1 + init_m.used + cond_m.used, cond_m.build));
                return Err(e);
            },
        };
        assert(self.went(old(self), 1 + init_m.used + cond_m.used, cond_m.build));
        let ghost semi_m = consume(
            toks,
            at_condition + cond_m.used,
            cond_m.build,
            TokenType::Semicolon,
            "Expect ';' after for loop condition."@,
        );
        match self.consume(TokenType::Semicolon, "Expect ';' after for loop condition.") {
            Ok(_) => {},
            Err(e) => {
                assert(self.went(
                    old(self),
                    1 + init_m.used + cond_m.used + semi_m.used,
                    semi_m.build,
                ));
                return Err(e);
            },
        }
        assert(self.went(old(self), 1 + init_m.used + cond_m.used + 1, cond_m.build));
        // Parse optional 'increment' or 'step'
        let ghost at_increment = at_condition + cond_m.used + 1;
        let ghost incr_m = optional_expression(
            toks,
            at_increment,
            cond_m.build,
            TokenType::RightParen,
        );
        let increment = match self.optional_expression(TokenType::RightParen) {
            Ok(i) => i,
            Err(e) => {
                assert(self.went(
                    old(self),
                    1 + init_m.used + cond_m.used + 1 + incr_m.used,
                    incr_m.build,
                ));
                return Err(e);
            },
        };
        assert(self.went(
            old(self),
            1 + init_m.used + cond_m.used + 1 + incr_m.used,
            incr_m.build,
        ));
        let ghost close_m = consume(
            toks,
            at_increment + incr_m.used,
            incr_m.build,
            TokenType::RightParen,
            "Expect ')' after for loop."@,
        );
        match self.consume(TokenType::RightParen, "Expect ')' after for loop.") {
            Ok(_) => {},
            Err(e) => {
                assert(self.went(
                    old(self),
                    1 + init_m.used + cond_m.used + 1 + incr_m.used + close_m.used,
                    close_m.build,
                ));
                return Err(e);
            },
        }
        let ghost used = 1 + init_m.used + cond_m.used + 1 + incr_m.used + 1;
        assert(self.went(old(self), used, incr_m.build));
        let ghost body_m = statement(toks, origin + used, incr_m.build);
        let body = match self.statement() {
            Ok(s) => s,
            Err(e) => {
                assert(self.went(old(self), used + body_m.used, body_m.build));
                return Err(e);
            },
        };
        assert(self.went(old(self), used + body_m.used, body_m.build));
        let ghost sugar_m = desugar_for(body_m.build, initializer, condition, increment, body);
        let id = self.desugar_for(initializer, condition, increment, body);
        assert(for_statement(toks, origin, built) == after(used + body_m.used, sugar_m));
        assert(self.went(old(self), used + body_m.used, sugar_m.build));
        Ok(id)
    }

    fn expression_statement(&mut self) -> (r: Result<usize, LoxResult>)
        requires
            old(self).wf(),
        ensures
            final(self).parsed_stmt(
                old(self),
                r,
                expression_statement(old(self).tokens(), old(self).position(), old(self).build()),
            ),
    {
        proof {
            reveal(expression_statement);
        }
        let ghost toks = self.tokens();
        let ghost origin = self.position();
        let ghost built = self.build();
        let ghost e_m = expression(toks, origin, built);
        let expr = match self.expression() {
            Ok(v) => v,
            Err(e) => {
                return Err(e);
            },
        };
        match self.consume(TokenType::Semicolon, "Expect ';' after value.") {
            Ok(_) => {},
            Err(e) => {
                return Err(e);
            },
        }
        assert(self.went(old(self), e_m.used + 1, e_m.build));
        Ok(self.ast.push_stmt(Stmt::Expression(ExpressionStmt { expression: expr })))
    }

    #[verifier::spinoff_prover]
    #[verifier::rlimit(60)]
    fn block(&mut self) -> (r: Result<Vec<usize>, LoxResult>)
        requires
            old(self).wf(),
        ensures
            final(self).went(
                old(self),
                block(old(self).tokens(), old(self).position(), old(self).build()).used,
                block(old(self).tokens(), old(self).position(), old(self).build()).build,
            ),
            final(self).gave_stmts(
                r,
                block(old(self).tokens(), old(self).position(), old(self).build()),
            ),
        decreases old(self).tokens.len() - old(self).current, 42nat,
    {
        proof {
            reveal(block);
            reveal(block_rest);
        }
        let ghost toks = self.tokens();
        let ghost origin = self.position();
        let ghost built = self.build();
        let ghost goal = block_rest(toks, origin, built, seq![]);
        let mut stmts: Vec<usize> = Vec::new();
        assert(stmts@ =~= Seq::<usize>::empty());
        while !self.check(TokenType::RightBrace) && !self.is_at_end()
            invariant
                self.went(old(self), (self.current - old(self).current) as nat, self.build()),
                toks == self.tokens(),
                toks == old(self).tokens(),
                built == old(self).build(),
                origin == old(self).current,
                goal == block_rest(toks, origin, built, seq![]),
                goal == after(
                    (self.current - origin) as nat,
                    block_rest(toks, self.position(), self.build(), stmts@),
                ),
                crate::stmt::all_below(stmts@, self.ast@.stmts.len() as int),
                goal.value is None ==> block(toks, origin, built) == failed::<Seq<usize>>(
                    goal.used,
                    goal.build,
                ),
            decreases self.tokens.len() - self.current,
        {
            proof {
                reveal(block);
                reveal(block_rest);
                reveal(declaration);
            }
            let ghost here = self.position();
            let ghost hb = self.build();
            let ghost before = stmts@;
            let ghost d_m = declaration(toks, here, hb);
            match self.declaration() {
                Ok(s) => {
                    stmts.push(s);
                },
                Err(e) => {
                    proof {
                        assert(block_rest(toks, here, hb, before) == failed::<Seq<usize>>(
                            d_m.used,
                            d_m.build,
                        ));
                        assert(goal.value is None);
                    }
                    return Err(e);
                },
            }
            assert(block_rest(toks, here, hb, before) == after(
                d_m.used,
                block_rest(toks, here + d_m.used, self.build(), stmts@),
            ));
        }
        assert(goal == done::<Seq<usize>>((self.current - origin) as nat, self.build(), stmts@));
        match self.consume(TokenType::RightBrace, "Expect '}' after block.") {
            Ok(_) => {},
            Err(e) => {
                return Err(e);
            },
        }
        assert(self.went(old(self), goal.used + 1, goal.build));
        Ok(stmts)
    }

    // Synchronize the recursive descent parser by discarding
    // token right until the beginning of the next statement
    // i.e. when a semicolon or any of the special keywords is seen.
    fn synchronize(&mut self)
        requires
            old(self).wf(),
        ensures
            final(self).went(
                old(self),
                synchronize(old(self).tokens(), old(self).position()),
                old(self).build(),
            ),
    {
        proof {
            reveal(synchronize);
            reveal(synchronize_rest);
        }
        if self.is_at_end() {
            return ;
        }
        self.advance();
        while !self.is_at_end()
            invariant
                self.went(old(self), (self.current - old(self).current) as nat, self.build()),
                self.build() == old(self).build(),
                self.current >= 1,
                synchronize(old(self).tokens(), old(self).position()) == self.current - old(
                    self,
                ).current + synchronize_rest(self.tokens(), self.position()),
            decreases self.tokens.len() - self.current,
        {
            proof {
                reveal(synchronize_rest);
            }
            if self.previous().ttype == TokenType::Semicolon {
                return ;
            }
            if starts_statement_kind(self.peek().ttype) {
                return ;
            }
            self.advance();
        }
    }

    /// Records a parse error at `token` and returns it.
    pub fn parse_error(&mut self, token: &Token, message: &str) -> (e: LoxResult)
        requires
            old(self).wf(),
        ensures
            final(self).wf(),
            final(self).tokens() == old(self).tokens(),
            final(self).position() == old(self).position(),
            final(self).build() == report(old(self).build(), token@, message@),
            e@ == (LoxResultView::ParseError { token: token@, message: message@ }),
            final(self).went(old(self), 0, report(old(self).build(), token@, message@)),
    {
        self.had_error = true;
        let e = LoxResult::error_at_token(token, message);
        self.errors.push(e.clone());
        assert(errors_view(self.errors@) =~= errors_view(old(self).errors@).push(e@));
        e
    }

    /// Whether no error has been reported.
    pub fn success(&self) -> (b: bool)
        requires
            self.wf(),
        ensures
            b == (self.build().errors.len() == 0),
    {
        !self.had_error
    }

    // Check to see if the current token has the given type.
    // If so, consume the token and return true
    fn matches(&mut self, ttype: TokenType) -> (b: bool)
        requires
            old(self).wf(),
        ensures
            b == check(old(self).tokens(), old(self).position(), ttype),
            final(self).went(
                old(self),
                if b {
                    1nat
                } else {
                    0nat
                },
                old(self).build(),
            ),
    {
        if self.check(ttype) {
            self.advance();
            return true;
        }
        false
    }

    // Similar to match() in that it checks to see if the next token is
    // of the expected type. If so, it consumes the token.
    // If some other token is encountered, report an error.
    fn consume(&mut self, ttype: TokenType, message: &str) -> (r: Result<Token, LoxResult>)
        requires
            old(self).wf(),
        ensures
            final(self).went(
                old(self),
                consume(old(self).tokens(), old(self).position(), old(self).build(), ttype, message@)
                    .used,
                consume(old(self).tokens(), old(self).position(), old(self).build(), ttype, message@)
                    .build,
            ),
            match r {
                Ok(t) => consume(
                    old(self).tokens(),
                    old(self).position(),
                    old(self).build(),
                    ttype,
                    message@,
                ).value == Some(t@),
                Err(e) => Self::gave::<TokenView>(
                    Err(e),
                    consume(
                        old(self).tokens(),
                        old(self).position(),
                        old(self).build(),
                        ttype,
                        message@,
                    ),
                ),
            },
    {
        if self.check(ttype) {
            let token = self.peek().clone();
            self.advance();
            Ok(token)
        } else {
            let token = self.peek().clone();
            Err(self.parse_error(&token, message))
        }
    }

    // Returns true if the current token is of the given type
    fn check(&self, ttype: TokenType) -> (b: bool)
        requires
            self.wf(),
        ensures
            b == check(self.tokens(), self.position(), ttype),
    {
        if self.is_at_end() {
            return false;
        }
        self.peek().ttype == ttype
    }

    // Consumes the current token
    fn advance(&mut self)
        requires
            old(self).wf(),
        ensures
            final(self).went(
                old(self),
                if at_end(old(self).tokens(), old(self).position()) {
                    0nat
                } else {
                    1nat
                },
                old(self).build(),
            ),
    {
        if !self.is_at_end() {
            self.current += 1;
        }
    }

    // check if we have run out of tokens
    fn is_at_end(&self) -> (b: bool)
        requires
            self.wf(),
        ensures
            b == at_end(self.tokens(), self.position()),
    {
        self.peek().ttype == TokenType::Eof
    }

    // return the current token yet to be consumed
    fn peek(&self) -> (t: &Token)
        requires
            self.wf(),
        ensures
            t@ == self.tokens()[self.current as int],
    {
        &self.tokens[self.current]
    }

    // return the most recently consumed token
    fn previous(&self) -> (t: &Token)
        requires
            self.wf(),
            self.current >= 1,
        ensures
            t@ == self.tokens()[self.current - 1],
    {
        &self.tokens[self.current - 1]
    }
}

} // verus!
