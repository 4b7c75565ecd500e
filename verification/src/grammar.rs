//! The grammar, as a function from tokens to syntax-tree nodes.
//!
//! ```text
//! program    → declaration* EOF
//! declaration→ classDecl | funDecl | varDecl | statement
//! classDecl  → "class" IDENT ("<" IDENT)? "{" function* "}"
//! funDecl    → "fun" function
//! function   → IDENT "(" params? ")" block
//! varDecl    → "var" IDENT ("=" expression)? ";"
//! statement  → exprStmt | forStmt | ifStmt | printStmt
//!            | returnStmt | whileStmt | breakStmt | block
//! block      → "{" declaration* "}"
//! expression → assignment
//! assignment → (call ".")? IDENT "=" assignment | logic_or
//! logic_or   → logic_and ("or" logic_and)*
//! logic_and  → equality  ("and" equality)*
//! equality   → comparison (("!=" | "==") comparison)*
//! comparison → term (("<"|"<="|">"|">=") term)*
//! term       → factor (("-"|"+") factor)*
//! factor     → unary (("/"|"*") unary)*
//! unary      → ("!"|"-") unary | call
//! call       → primary ( "(" args? ")" | "." IDENT )*
//! primary    → NUMBER | STRING | "true" | "false" | "nil"
//!            | "this" | IDENT | "(" expression ")"
//!            | "super" "." IDENT
//! ```
//!
//! Every rule is a function of the tokens, the position `pos` of the next
//! token, and what has been built so far; it says how many tokens the rule
//! uses, what has been built after it, and the node it yields (none after an
//! error, which is then the last one reported).

use vstd::prelude::*;
use crate::error::LoxResultView;
use crate::expr::ExprView;
use crate::stmt::StmtView;
use crate::token::{LiteralView, TokenType, TokenView};

verus! {

/// What parsing has produced so far: the errors reported and the nodes added
/// to the arena, in order.
pub struct Build {
    pub errors: Seq<LoxResultView>,
    pub exprs: Seq<ExprView>,
    pub stmts: Seq<StmtView>,
}

/// The outcome of a rule: the number of tokens used, what has been built, and
/// the value the rule yields, if it succeeded.
pub struct Parsed<T> {
    pub used: nat,
    pub build: Build,
    pub value: Option<T>,
}

/// The most arguments a call, and the most parameters a function, may have.
pub const MAX_ARITY: usize = 255;

/// A rule that succeeded.
pub open spec fn done<T>(used: nat, build: Build, value: T) -> Parsed<T> {
    Parsed { used, build, value: Some(value) }
}

/// A rule that failed.
pub open spec fn failed<T>(used: nat, build: Build) -> Parsed<T> {
    Parsed { used, build, value: None }
}

/// The outcome `r` of a rule that ran after `used` tokens had been used.
pub open spec fn after<T>(used: nat, r: Parsed<T>) -> Parsed<T> {
    Parsed { used: used + r.used, build: r.build, value: r.value }
}

/// `build` with one more parse error, at `token`.
pub open spec fn report(build: Build, token: TokenView, message: Seq<char>) -> Build {
    Build {
        errors: build.errors.push(LoxResultView::ParseError { token, message }),
        exprs: build.exprs,
        stmts: build.stmts,
    }
}

/// Adds an expression node and yields its index.
pub open spec fn add_expr(used: nat, build: Build, e: ExprView) -> Parsed<usize> {
    done(
        used,
        Build { errors: build.errors, exprs: build.exprs.push(e), stmts: build.stmts },
        build.exprs.len() as usize,
    )
}

/// Adds a statement node and yields its index.
pub open spec fn add_stmt(used: nat, build: Build, s: StmtView) -> Parsed<usize> {
    done(
        used,
        Build { errors: build.errors, exprs: build.exprs, stmts: build.stmts.push(s) },
        build.stmts.len() as usize,
    )
}

/// Whether `tokens` can be parsed: they end with the end marker.
pub open spec fn ends_with_eof(tokens: Seq<TokenView>) -> bool {
    tokens.len() > 0 && tokens.last().ttype == TokenType::Eof
}

/// Whether the parser is at the end marker (or beyond the tokens).
pub open spec fn at_end(tokens: Seq<TokenView>, pos: nat) -> bool {
    pos >= tokens.len() || tokens[pos as int].ttype == TokenType::Eof
}

/// Whether the next token is of kind `ttype`.
pub open spec fn check(tokens: Seq<TokenView>, pos: nat, ttype: TokenType) -> bool {
    !at_end(tokens, pos) && tokens[pos as int].ttype == ttype
}

/// The number of tokens from `pos` on; what every rule's recursion decreases.
pub open spec fn left(tokens: Seq<TokenView>, pos: nat) -> nat {
    if pos < tokens.len() {
        (tokens.len() - pos) as nat
    } else {
        0
    }
}

/// Uses the next token if it is of kind `ttype`; reports `message` at it
/// otherwise.
pub open spec fn consume(
    tokens: Seq<TokenView>,
    pos: nat,
    build: Build,
    ttype: TokenType,
    message: Seq<char>,
) -> Parsed<TokenView> {
    if check(tokens, pos, ttype) {
        done(1, build, tokens[pos as int])
    } else {
        failed(0, report(build, tokens[pos as int], message))
    }
}

/// Whether a token of this kind starts a declaration or statement, so that
/// error recovery stops before it.
pub open spec fn starts_statement(ttype: TokenType) -> bool {
    ttype == TokenType::Class || ttype == TokenType::Fun || ttype == TokenType::Var || ttype
        == TokenType::For || ttype == TokenType::If || ttype == TokenType::While || ttype
        == TokenType::Print || ttype == TokenType::Return
}

/// Error recovery, after the first token has been dropped: the number of
/// further tokens dropped, up to the end, to after a semicolon, or to before
/// a token that starts a statement.
#[verifier::opaque]
pub open spec fn synchronize_rest(tokens: Seq<TokenView>, pos: nat) -> nat
    decreases left(tokens, pos),
{
    if at_end(tokens, pos) {
        0
    } else if pos >= 1 && tokens[pos - 1].ttype == TokenType::Semicolon {
        0
    } else if starts_statement(tokens[pos as int].ttype) {
        0
    } else {
        1 + synchronize_rest(tokens, pos + 1)
    }
}

/// Error recovery: the number of tokens dropped.
#[verifier::opaque]
pub open spec fn synchronize(tokens: Seq<TokenView>, pos: nat) -> nat {
    if at_end(tokens, pos) {
        0
    } else {
        1 + synchronize_rest(tokens, pos + 1)
    }
}

/// The binary operators of each precedence level, from the tightest:
/// 0 factor, 1 term, 2 comparison, 3 equality, 4 `and`, 5 `or`.
pub open spec fn is_operator(level: nat, ttype: TokenType) -> bool {
    if level == 0 {
        ttype == TokenType::Slash || ttype == TokenType::Star
    } else if level == 1 {
        ttype == TokenType::Minus || ttype == TokenType::Plus
    } else if level == 2 {
        ttype == TokenType::Greater || ttype == TokenType::GreaterEqual || ttype
            == TokenType::Less || ttype == TokenType::LessEqual
    } else if level == 3 {
        ttype == TokenType::BangEqual || ttype == TokenType::EqualEqual
    } else if level == 4 {
        ttype == TokenType::And
    } else {
        ttype == TokenType::Or
    }
}

/// The node for `left operator right` at a level: `Logical` for `and` and
/// `or`, `Binary` for the others.
pub open spec fn binary_node(level: nat, left: usize, operator: TokenView, right: usize)
    -> ExprView {
    if level >= 4 {
        ExprView::Logical { left, operator, right }
    } else {
        ExprView::Binary { left, operator, right }
    }
}

/// The literal a number or string token stands for.
pub open spec fn literal_of(token: TokenView) -> LiteralView {
    match token.literal {
        Some(l) => l,
        None => LiteralView::Nil,
    }
}

/// expression → assignment
#[verifier::opaque]
pub open spec fn expression(tokens: Seq<TokenView>, pos: nat, build: Build) -> Parsed<usize>
    decreases left(tokens, pos), 30nat,
{
    assignment(tokens, pos, build)
}

/// assignment → (call ".")? IDENT "=" assignment | logic_or
///
/// The target is parsed as an expression; after `=` it must be a variable or
/// a property, else an error is reported and the target yielded unchanged.
#[verifier::opaque]
pub open spec fn assignment(tokens: Seq<TokenView>, pos: nat, build: Build) -> Parsed<usize>
    decreases left(tokens, pos), 29nat,
{
    let target = binary(5, tokens, pos, build);
    match target.value {
        None => target,
        Some(expr) => {
            let at = pos + target.used;
            if check(tokens, at, TokenType::Equal) {
                let equals = tokens[at as int];
                let rhs = assignment(tokens, at + 1, target.build);
                match rhs.value {
                    None => after(target.used + 1, rhs),
                    Some(value) => {
                        let used = target.used + 1 + rhs.used;
                        if expr < rhs.build.exprs.len() {
                            match rhs.build.exprs[expr as int] {
                                ExprView::Variable { name } => add_expr(
                                    used,
                                    rhs.build,
                                    ExprView::Assign { name, value },
                                ),
                                ExprView::Get { object, name } => add_expr(
                                    used,
                                    rhs.build,
                                    ExprView::SetProperty { object, name, value },
                                ),
                                _ => done(
                                    used,
                                    report(rhs.build, equals, "Invalid assignment target."@),
                                    expr,
                                ),
                            }
                        } else {
                            done(
                                used,
                                report(rhs.build, equals, "Invalid assignment target."@),
                                expr,
                            )
                        }
                    },
                }
            } else {
                target
            }
        },
    }
}

/// The operand of a level of binary operators: the next tighter level, or a
/// unary expression below the tightest.
#[verifier::opaque]
pub open spec fn operand(level: nat, tokens: Seq<TokenView>, pos: nat, build: Build) -> Parsed<
    usize,
>
    decreases left(tokens, pos), 10 + 2 * level,
{
    if level == 0 {
        unary(tokens, pos, build)
    } else {
        binary((level - 1) as nat, tokens, pos, build)
    }
}

/// One level of left-associative binary operators: an operand, then any
/// number of operator and operand.
#[verifier::opaque]
pub open spec fn binary(level: nat, tokens: Seq<TokenView>, pos: nat, build: Build) -> Parsed<
    usize,
>
    decreases left(tokens, pos), 11 + 2 * level,
{
    let first = operand(level, tokens, pos, build);
    match first.value {
        None => first,
        Some(expr) => after(
            first.used,
            binary_rest(level, tokens, pos + first.used, first.build, expr),
        ),
    }
}

/// The operators and operands that follow the operand `left_operand`.
#[verifier::opaque]
pub open spec fn binary_rest(
    level: nat,
    tokens: Seq<TokenView>,
    pos: nat,
    build: Build,
    left_operand: usize,
) -> Parsed<usize>
    decreases left(tokens, pos), 0nat,
{
    if !at_end(tokens, pos) && is_operator(level, tokens[pos as int].ttype) {
        let operator = tokens[pos as int];
        let right = operand(level, tokens, pos + 1, build);
        match right.value {
            None => after(1, right),
            Some(right_operand) => {
                let node = add_expr(
                    0,
                    right.build,
                    binary_node(level, left_operand, operator, right_operand),
                );
                after(
                    1 + right.used,
                    binary_rest(
                        level,
                        tokens,
                        pos + 1 + right.used,
                        node.build,
                        node.value->Some_0,
                    ),
                )
            },
        }
    } else {
        done(0, build, left_operand)
    }
}

/// unary → ("!"|"-") unary | call
#[verifier::opaque]
pub open spec fn unary(tokens: Seq<TokenView>, pos: nat, build: Build) -> Parsed<usize>
    decreases left(tokens, pos), 9nat,
{
    if check(tokens, pos, TokenType::Bang) || check(tokens, pos, TokenType::Minus) {
        let operator = tokens[pos as int];
        let right = unary(tokens, pos + 1, build);
        match right.value {
            None => after(1, right),
            Some(operand) => add_expr(
                1 + right.used,
                right.build,
                ExprView::Unary { operator, right: operand },
            ),
        }
    } else {
        call(tokens, pos, build)
    }
}

/// call → primary ( "(" args? ")" | "." IDENT )*
#[verifier::opaque]
pub open spec fn call(tokens: Seq<TokenView>, pos: nat, build: Build) -> Parsed<usize>
    decreases left(tokens, pos), 8nat,
{
    let callee = primary(tokens, pos, build);
    match callee.value {
        None => callee,
        Some(expr) => after(callee.used, call_rest(tokens, pos + callee.used, callee.build, expr)),
    }
}

/// The calls and property accesses that follow `callee`.
#[verifier::opaque]
pub open spec fn call_rest(tokens: Seq<TokenView>, pos: nat, build: Build, callee: usize)
    -> Parsed<usize>
    decreases left(tokens, pos), 0nat,
{
    if check(tokens, pos, TokenType::LeftParen) {
        let finished = finish_call(tokens, pos + 1, build, callee);
        match finished.value {
            None => after(1, finished),
            Some(expr) => after(
                1 + finished.used,
                call_rest(tokens, pos + 1 + finished.used, finished.build, expr),
            ),
        }
    } else if check(tokens, pos, TokenType::Dot) {
        let name = consume(
            tokens,
            pos + 1,
            build,
            TokenType::Identifier,
            "Expect property name after '.'."@,
        );
        match name.value {
            None => failed(1 + name.used, name.build),
            Some(token) => {
                let node = add_expr(0, name.build, ExprView::Get { object: callee, name: token });
                after(2, call_rest(tokens, pos + 2, node.build, node.value->Some_0))
            },
        }
    } else {
        done(0, build, callee)
    }
}

/// args? : the arguments of a call, up to the closing parenthesis.
#[verifier::opaque]
pub open spec fn arguments(tokens: Seq<TokenView>, pos: nat, build: Build) -> Parsed<Seq<usize>>
    decreases left(tokens, pos), 31nat,
{
    if check(tokens, pos, TokenType::RightParen) {
        done(0, build, Seq::<usize>::empty())
    } else {
        let first = expression(tokens, pos, build);
        match first.value {
            None => failed(first.used, first.build),
            Some(expr) => after(
                first.used,
                arguments_rest(tokens, pos + first.used, first.build, seq![expr]),
            ),
        }
    }
}

/// The arguments of a call and its closing parenthesis, after the opening
/// one.
#[verifier::opaque]
pub open spec fn finish_call(tokens: Seq<TokenView>, pos: nat, build: Build, callee: usize)
    -> Parsed<usize>
    decreases left(tokens, pos), 32nat,
{
    let arguments = arguments(tokens, pos, build);
    match arguments.value {
        None => failed(arguments.used, arguments.build),
        Some(list) => {
            let paren = consume(
                tokens,
                pos + arguments.used,
                arguments.build,
                TokenType::RightParen,
                "Expect ')' after arguments"@,
            );
            match paren.value {
                None => failed(arguments.used + paren.used, paren.build),
                Some(token) => add_expr(
                    arguments.used + 1,
                    paren.build,
                    ExprView::Call { callee, paren: token, arguments: list },
                ),
            }
        },
    }
}

/// The arguments after the first, each behind a comma. One beyond the limit
/// is reported and parsed all the same.
#[verifier::opaque]
pub open spec fn arguments_rest(
    tokens: Seq<TokenView>,
    pos: nat,
    build: Build,
    arguments: Seq<usize>,
) -> Parsed<Seq<usize>>
    decreases left(tokens, pos), 0nat,
{
    if check(tokens, pos, TokenType::Comma) {
        let checked = if arguments.len() >= MAX_ARITY {
            report(build, tokens[(pos + 1) as int], "Can't have more than 255 arguments"@)
        } else {
            build
        };
        let next = expression(tokens, pos + 1, checked);
        match next.value {
            None => failed(1 + next.used, next.build),
            Some(expr) => after(
                1 + next.used,
                arguments_rest(tokens, pos + 1 + next.used, next.build, arguments.push(expr)),
            ),
        }
    } else {
        done(0, build, arguments)
    }
}

/// primary → NUMBER | STRING | "true" | "false" | "nil" | "this" | IDENT
///         | "(" expression ")" | "super" "." IDENT
#[verifier::opaque]
pub open spec fn primary(tokens: Seq<TokenView>, pos: nat, build: Build) -> Parsed<usize>
    decreases left(tokens, pos), 7nat,
{
    let token = tokens[pos as int];
    if check(tokens, pos, TokenType::False) {
        add_expr(1, build, ExprView::Literal { value: LiteralView::Bool(false) })
    } else if check(tokens, pos, TokenType::True) {
        add_expr(1, build, ExprView::Literal { value: LiteralView::Bool(true) })
    } else if check(tokens, pos, TokenType::Nil) {
        add_expr(1, build, ExprView::Literal { value: LiteralView::Nil })
    } else if check(tokens, pos, TokenType::Number) || check(
        tokens,
        pos,
        TokenType::StringLiteral,
    ) {
        add_expr(1, build, ExprView::Literal { value: literal_of(token) })
    } else if check(tokens, pos, TokenType::Super) {
        let dot = consume(tokens, pos + 1, build, TokenType::Dot, "Expect '.' after 'super'."@);
        match dot.value {
            None => failed(1 + dot.used, dot.build),
            Some(_) => {
                let method = consume(
                    tokens,
                    pos + 2,
                    dot.build,
                    TokenType::Identifier,
                    "Expect superclass method name."@,
                );
                match method.value {
                    None => failed(2 + method.used, method.build),
                    Some(name) => add_expr(
                        3,
                        method.build,
                        ExprView::Super { keyword: token, method: name },
                    ),
                }
            },
        }
    } else if check(tokens, pos, TokenType::This) {
        add_expr(1, build, ExprView::This { keyword: token })
    } else if check(tokens, pos, TokenType::Identifier) {
        add_expr(1, build, ExprView::Variable { name: token })
    } else if check(tokens, pos, TokenType::LeftParen) {
        let inner = expression(tokens, pos + 1, build);
        match inner.value {
            None => after(1, inner),
            Some(expr) => {
                let close = consume(
                    tokens,
                    pos + 1 + inner.used,
                    inner.build,
                    TokenType::RightParen,
                    "Expect `)` after expression"@,
                );
                match close.value {
                    None => failed(1 + inner.used + close.used, close.build),
                    Some(_) => add_expr(
                        1 + inner.used + 1,
                        close.build,
                        ExprView::Grouping { expression: expr },
                    ),
                }
            },
        }
    } else {
        failed(0, report(build, token, "Expression expected"@))
    }
}

/// An expression, unless the next token is of kind `unless`.
#[verifier::opaque]
pub open spec fn optional_expression(
    tokens: Seq<TokenView>,
    pos: nat,
    build: Build,
    unless: TokenType,
) -> Parsed<Option<usize>> {
    if check(tokens, pos, unless) {
        done(0, build, None)
    } else {
        let e = expression(tokens, pos, build);
        match e.value {
            None => failed(e.used, e.build),
            Some(expr) => done(e.used, e.build, Some(expr)),
        }
    }
}

/// exprStmt → expression ";"
#[verifier::opaque]
pub open spec fn expression_statement(tokens: Seq<TokenView>, pos: nat, build: Build) -> Parsed<
    usize,
> {
    let e = expression(tokens, pos, build);
    match e.value {
        None => e,
        Some(expr) => {
            let semi = consume(
                tokens,
                pos + e.used,
                e.build,
                TokenType::Semicolon,
                "Expect ';' after value."@,
            );
            match semi.value {
                None => failed(e.used + semi.used, semi.build),
                Some(_) => add_stmt(e.used + 1, semi.build, StmtView::Expression { expression: expr }),
            }
        },
    }
}

/// printStmt → "print" expression ";", after `print`.
#[verifier::opaque]
pub open spec fn print_statement(tokens: Seq<TokenView>, pos: nat, build: Build) -> Parsed<usize> {
    let e = expression(tokens, pos, build);
    match e.value {
        None => e,
        Some(expr) => {
            let semi = consume(
                tokens,
                pos + e.used,
                e.build,
                TokenType::Semicolon,
                "Expect ';' after value."@,
            );
            match semi.value {
                None => failed(e.used + semi.used, semi.build),
                Some(_) => add_stmt(e.used + 1, semi.build, StmtView::Print { expression: expr }),
            }
        },
    }
}

/// returnStmt → "return" expression? ";", after `return`.
#[verifier::opaque]
pub open spec fn return_statement(
    tokens: Seq<TokenView>,
    pos: nat,
    build: Build,
    keyword: TokenView,
) -> Parsed<usize> {
    let value = optional_expression(tokens, pos, build, TokenType::Semicolon);
    match value.value {
        None => failed(value.used, value.build),
        Some(result) => {
            let semi = consume(
                tokens,
                pos + value.used,
                value.build,
                TokenType::Semicolon,
                "Expect ';' after return statement."@,
            );
            match semi.value {
                None => failed(value.used + semi.used, semi.build),
                Some(_) => add_stmt(
                    value.used + 1,
                    semi.build,
                    StmtView::Return { keyword, value: result },
                ),
            }
        },
    }
}

/// breakStmt → "break" ";", after `break`.
#[verifier::opaque]
pub open spec fn break_statement(
    tokens: Seq<TokenView>,
    pos: nat,
    build: Build,
    keyword: TokenView,
) -> Parsed<usize> {
    let semi = consume(
        tokens,
        pos,
        build,
        TokenType::Semicolon,
        "Expect ';' after break statement."@,
    );
    match semi.value {
        None => failed(semi.used, semi.build),
        Some(_) => add_stmt(1, semi.build, StmtView::Break { token: keyword }),
    }
}

/// varDecl → "var" IDENT ("=" expression)? ";", after `var`.
#[verifier::opaque]
pub open spec fn var_declaration(tokens: Seq<TokenView>, pos: nat, build: Build) -> Parsed<usize> {
    let name = consume(tokens, pos, build, TokenType::Identifier, "Expect variable name."@);
    match name.value {
        None => failed(name.used, name.build),
        Some(token) => {
            let init = if check(tokens, pos + 1, TokenType::Equal) {
                let e = expression(tokens, pos + 2, name.build);
                match e.value {
                    None => failed(1 + e.used, e.build),
                    Some(expr) => done(1 + e.used, e.build, Some(expr)),
                }
            } else {
                done(0, name.build, None)
            };
            match init.value {
                None => failed(1 + init.used, init.build),
                Some(initializer) => {
                    let semi = consume(
                        tokens,
                        pos + 1 + init.used,
                        init.build,
                        TokenType::Semicolon,
                        "Expect ';' after variable declaration"@,
                    );
                    match semi.value {
                        None => failed(1 + init.used + semi.used, semi.build),
                        Some(_) => add_stmt(
                            1 + init.used + 1,
                            semi.build,
                            StmtView::Var { name: token, initializer },
                        ),
                    }
                },
            }
        },
    }
}

/// The statement that a `for` loop stands for:
/// `{ init; while (cond) { body; incr; } }`, where a missing condition is
/// `true` and missing parts drop out together with the block that would only
/// hold them.
#[verifier::opaque]
pub open spec fn desugar_for(
    build: Build,
    initializer: Option<usize>,
    condition: Option<usize>,
    increment: Option<usize>,
    body: usize,
) -> Parsed<usize> {
    let stepped = match increment {
        Some(inc) => {
            let step = add_stmt(0, build, StmtView::Expression { expression: inc });
            add_stmt(
                0,
                step.build,
                StmtView::Block { statements: seq![body, step.value->Some_0] },
            )
        },
        None => done(0, build, body),
    };
    let tested = match condition {
        Some(c) => done(0, stepped.build, c),
        None => add_expr(0, stepped.build, ExprView::Literal { value: LiteralView::Bool(true) }),
    };
    let looped = add_stmt(
        0,
        tested.build,
        StmtView::While { condition: tested.value->Some_0, body: stepped.value->Some_0 },
    );
    match initializer {
        Some(init) => add_stmt(
            0,
            looped.build,
            StmtView::Block { statements: seq![init, looped.value->Some_0] },
        ),
        None => looped,
    }
}

/// A `for` loop is the `while` loop it stands for: for the loop
/// `for (initializer; condition; increment) body` the parser yields the
/// block `{ initializer; while (condition) { body; increment; } }`, node for
/// node, and no other node. (The evaluator never sees a `for` loop, so the
/// two behave alike.)
pub proof fn lemma_for_is_while(
    build: Build,
    initializer: usize,
    condition: usize,
    increment: usize,
    body: usize,
)
    requires
        build.stmts.len() + 4 <= usize::MAX,
    ensures
        ({
            let made = desugar_for(build, Some(initializer), Some(condition), Some(increment), body);
            let n = build.stmts.len() as usize;
            &&& made.used == 0
            &&& made.value == Some((n + 3) as usize)
            &&& made.build.errors == build.errors
            &&& made.build.exprs == build.exprs
            &&& made.build.stmts == build.stmts.push(
                StmtView::Expression { expression: increment },
            ).push(StmtView::Block { statements: seq![body, n] }).push(
                StmtView::While { condition, body: (n + 1) as usize },
            ).push(StmtView::Block { statements: seq![initializer, (n + 2) as usize] })
        }),
{
    reveal(desugar_for);
}

/// A `for` loop without initializer, condition and increment is the loop
/// `while (true) body`.
pub proof fn lemma_bare_for_is_while_true(build: Build, body: usize)
    requires
        build.stmts.len() < usize::MAX,
        build.exprs.len() < usize::MAX,
    ensures
        ({
            let made = desugar_for(build, None, None, None, body);
            &&& made.used == 0
            &&& made.value == Some(build.stmts.len() as usize)
            &&& made.build.errors == build.errors
            &&& made.build.exprs == build.exprs.push(
                ExprView::Literal { value: LiteralView::Bool(true) },
            )
            &&& made.build.stmts == build.stmts.push(
                StmtView::While { condition: build.exprs.len() as usize, body },
            )
        }),
{
    reveal(desugar_for);
}

/// The message for a missing part of a function or method.
pub open spec fn expect_kind(before: Seq<char>, kind: Seq<char>, behind: Seq<char>) -> Seq<char> {
    before + kind + behind
}

/// The parameters after the first, each behind a comma. One beyond the limit
/// is reported and kept all the same.
#[verifier::opaque]
pub open spec fn params_rest(
    tokens: Seq<TokenView>,
    pos: nat,
    build: Build,
    params: Seq<TokenView>,
) -> Parsed<Seq<TokenView>>
    decreases left(tokens, pos),
{
    if check(tokens, pos, TokenType::Comma) {
        let checked = if params.len() >= MAX_ARITY {
            report(build, tokens[(pos + 1) as int], "Can't have more than 255 parameters"@)
        } else {
            build
        };
        let next = consume(
            tokens,
            pos + 1,
            checked,
            TokenType::Identifier,
            "Expect parameter name"@,
        );
        match next.value {
            None => failed(1 + next.used, next.build),
            Some(token) => after(
                2,
                params_rest(tokens, pos + 2, next.build, params.push(token)),
            ),
        }
    } else {
        done(0, build, params)
    }
}

/// params? : the parameters of a function, up to the closing parenthesis.
#[verifier::opaque]
pub open spec fn parameters(tokens: Seq<TokenView>, pos: nat, build: Build) -> Parsed<
    Seq<TokenView>,
> {
    if check(tokens, pos, TokenType::RightParen) {
        done(0, build, Seq::<TokenView>::empty())
    } else {
        let first = consume(tokens, pos, build, TokenType::Identifier, "Expect parameter name"@);
        match first.value {
            None => failed(first.used, first.build),
            Some(token) => after(1, params_rest(tokens, pos + 1, first.build, seq![token])),
        }
    }
}

/// declaration → classDecl | funDecl | varDecl | statement
///
/// After an error the parser synchronizes: it drops tokens up to a likely
/// start of the next statement.
#[verifier::opaque]
pub open spec fn declaration(tokens: Seq<TokenView>, pos: nat, build: Build) -> Parsed<usize>
    decreases left(tokens, pos), 40nat,
{
    let r = if check(tokens, pos, TokenType::Class) {
        after(1, class_declaration(tokens, pos + 1, build))
    } else if check(tokens, pos, TokenType::Fun) {
        after(1, function(tokens, pos + 1, build, "function"@))
    } else if check(tokens, pos, TokenType::Var) {
        after(1, var_declaration(tokens, pos + 1, build))
    } else {
        statement(tokens, pos, build)
    };
    match r.value {
        Some(_) => r,
        None => failed(r.used + synchronize(tokens, pos + r.used), r.build),
    }
}

/// classDecl → "class" IDENT ("<" IDENT)? "{" function* "}", after `class`.
#[verifier::opaque]
pub open spec fn class_declaration(tokens: Seq<TokenView>, pos: nat, build: Build) -> Parsed<
    usize,
>
    decreases left(tokens, pos), 30nat,
{
    let name = consume(tokens, pos, build, TokenType::Identifier, "Expect class name."@);
    match name.value {
        None => failed(name.used, name.build),
        Some(token) => {
            let parent = if check(tokens, pos + 1, TokenType::Less) {
                let super_name = consume(
                    tokens,
                    pos + 2,
                    name.build,
                    TokenType::Identifier,
                    "Expect superclass name."@,
                );
                match super_name.value {
                    None => failed(1 + super_name.used, super_name.build),
                    Some(s) => {
                        let node = add_expr(2, super_name.build, ExprView::Variable { name: s });
                        done(2, node.build, node.value)
                    },
                }
            } else {
                done(0, name.build, None)
            };
            match parent.value {
                None => failed(1 + parent.used, parent.build),
                Some(superclass) => {
                    let open = consume(
                        tokens,
                        pos + 1 + parent.used,
                        parent.build,
                        TokenType::LeftBrace,
                        "Expect '{' before class body."@,
                    );
                    match open.value {
                        None => failed(1 + parent.used + open.used, open.build),
                        Some(_) => {
                            let at = pos + 1 + parent.used + 1;
                            let methods = methods_rest(tokens, at, open.build, seq![]);
                            match methods.value {
                                None => failed(1 + parent.used + 1 + methods.used, methods.build),
                                Some(list) => {
                                    let close = consume(
                                        tokens,
                                        at + methods.used,
                                        methods.build,
                                        TokenType::RightBrace,
                                        "Expect '}' after class body."@,
                                    );
                                    match close.value {
                                        None => failed(
                                            1 + parent.used + 1 + methods.used + close.used,
                                            close.build,
                                        ),
                                        Some(_) => add_stmt(
                                            1 + parent.used + 1 + methods.used + 1,
                                            close.build,
                                            StmtView::Class {
                                                name: token,
                                                superclass,
                                                methods: list,
                                            },
                                        ),
                                    }
                                },
                            }
                        },
                    }
                },
            }
        },
    }
}

/// function* : the methods of a class body, up to its closing brace.
#[verifier::opaque]
pub open spec fn methods_rest(
    tokens: Seq<TokenView>,
    pos: nat,
    build: Build,
    methods: Seq<usize>,
) -> Parsed<Seq<usize>>
    decreases left(tokens, pos), 31nat,
{
    if check(tokens, pos, TokenType::RightBrace) || at_end(tokens, pos) {
        done(0, build, methods)
    } else {
        let method = function(tokens, pos, build, "method"@);
        match method.value {
            None => failed(method.used, method.build),
            Some(m) => if method.used == 0 {
                done(0, method.build, methods.push(m))
            } else {
                after(
                    method.used,
                    methods_rest(tokens, pos + method.used, method.build, methods.push(m)),
                )
            },
        }
    }
}

/// function → IDENT "(" params? ")" block
#[verifier::opaque]
pub open spec fn function(tokens: Seq<TokenView>, pos: nat, build: Build, kind: Seq<char>)
    -> Parsed<usize>
    decreases left(tokens, pos), 30nat,
{
    let name = consume(
        tokens,
        pos,
        build,
        TokenType::Identifier,
        expect_kind("Expect '"@, kind, "' name."@),
    );
    match name.value {
        None => failed(name.used, name.build),
        Some(token) => {
            let open = consume(
                tokens,
                pos + 1,
                name.build,
                TokenType::LeftParen,
                expect_kind("Expect '(' after '"@, kind, "' name."@),
            );
            match open.value {
                None => failed(1 + open.used, open.build),
                Some(_) => {
                    let params = parameters(tokens, pos + 2, open.build);
                    match params.value {
                        None => failed(2 + params.used, params.build),
                        Some(list) => {
                            let close = consume(
                                tokens,
                                pos + 2 + params.used,
                                params.build,
                                TokenType::RightParen,
                                "Expect ')' after parameters"@,
                            );
                            match close.value {
                                None => failed(2 + params.used + close.used, close.build),
                                Some(_) => {
                                    let brace = consume(
                                        tokens,
                                        pos + 2 + params.used + 1,
                                        close.build,
                                        TokenType::LeftBrace,
                                        expect_kind("Expect '{' before '"@, kind, "' body"@),
                                    );
                                    match brace.value {
                                        None => failed(
                                            2 + params.used + 1 + brace.used,
                                            brace.build,
                                        ),
                                        Some(_) => {
                                            let used = 2 + params.used + 2;
                                            let body = block(tokens, pos + used, brace.build);
                                            match body.value {
                                                None => failed(used + body.used, body.build),
                                                Some(stmts) => add_stmt(
                                                    used + body.used,
                                                    body.build,
                                                    StmtView::Function {
                                                        name: token,
                                                        params: list,
                                                        body: stmts,
                                                    },
                                                ),
                                            }
                                        },
                                    }
                                },
                            }
                        },
                    }
                },
            }
        },
    }
}

/// statement → exprStmt | forStmt | ifStmt | printStmt | returnStmt
///           | whileStmt | breakStmt | block
#[verifier::opaque]
pub open spec fn statement(tokens: Seq<TokenView>, pos: nat, build: Build) -> Parsed<usize>
    decreases left(tokens, pos), 39nat,
{
    if check(tokens, pos, TokenType::For) {
        after(1, for_statement(tokens, pos + 1, build))
    } else if check(tokens, pos, TokenType::If) {
        after(1, if_statement(tokens, pos + 1, build))
    } else if check(tokens, pos, TokenType::Print) {
        after(1, print_statement(tokens, pos + 1, build))
    } else if check(tokens, pos, TokenType::Return) {
        after(1, return_statement(tokens, pos + 1, build, tokens[pos as int]))
    } else if check(tokens, pos, TokenType::While) {
        after(1, while_statement(tokens, pos + 1, build))
    } else if check(tokens, pos, TokenType::Break) {
        after(1, break_statement(tokens, pos + 1, build, tokens[pos as int]))
    } else if check(tokens, pos, TokenType::LeftBrace) {
        let body = block(tokens, pos + 1, build);
        match body.value {
            None => failed(1 + body.used, body.build),
            Some(stmts) => add_stmt(
                1 + body.used,
                body.build,
                StmtView::Block { statements: stmts },
            ),
        }
    } else {
        expression_statement(tokens, pos, build)
    }
}

/// ifStmt → "if" "(" expression ")" statement ("else" statement)?, after `if`.
#[verifier::opaque]
pub open spec fn if_statement(tokens: Seq<TokenView>, pos: nat, build: Build) -> Parsed<usize>
    decreases left(tokens, pos), 30nat,
{
    let open = consume(tokens, pos, build, TokenType::LeftParen, "Expect '(' after 'if'."@);
    match open.value {
        None => failed(open.used, open.build),
        Some(_) => {
            let condition = expression(tokens, pos + 1, open.build);
            match condition.value {
                None => failed(1 + condition.used, condition.build),
                Some(c) => {
                    let close = consume(
                        tokens,
                        pos + 1 + condition.used,
                        condition.build,
                        TokenType::RightParen,
                        "Expect ')' after 'if'."@,
                    );
                    match close.value {
                        None => failed(1 + condition.used + close.used, close.build),
                        Some(_) => {
                            let used = 1 + condition.used + 1;
                            let then_branch = statement(tokens, pos + used, close.build);
                            match then_branch.value {
                                None => failed(used + then_branch.used, then_branch.build),
                                Some(t) => {
                                    let at = pos + used + then_branch.used;
                                    if check(tokens, at, TokenType::Else) {
                                        let else_branch = statement(
                                            tokens,
                                            at + 1,
                                            then_branch.build,
                                        );
                                        match else_branch.value {
                                            None => failed(
                                                used + then_branch.used + 1 + else_branch.used,
                                                else_branch.build,
                                            ),
                                            Some(e) => add_stmt(
                                                used + then_branch.used + 1 + else_branch.used,
                                                else_branch.build,
                                                StmtView::If {
                                                    condition: c,
                                                    then_branch: t,
                                                    else_branch: Some(e),
                                                },
                                            ),
                                        }
                                    } else {
                                        add_stmt(
                                            used + then_branch.used,
                                            then_branch.build,
                                            StmtView::If {
                                                condition: c,
                                                then_branch: t,
                                                else_branch: None,
                                            },
                                        )
                                    }
                                },
                            }
                        },
                    }
                },
            }
        },
    }
}

/// whileStmt → "while" "(" expression ")" statement, after `while`.
#[verifier::opaque]
pub open spec fn while_statement(tokens: Seq<TokenView>, pos: nat, build: Build) -> Parsed<usize>
    decreases left(tokens, pos), 30nat,
{
    let open = consume(tokens, pos, build, TokenType::LeftParen, "Expect '(' after 'while'."@);
    match open.value {
        None => failed(open.used, open.build),
        Some(_) => {
            let condition = expression(tokens, pos + 1, open.build);
            match condition.value {
                None => failed(1 + condition.used, condition.build),
                Some(c) => {
                    let close = consume(
                        tokens,
                        pos + 1 + condition.used,
                        condition.build,
                        TokenType::RightParen,
                        "Expect ')' after while condition."@,
                    );
                    match close.value {
                        None => failed(1 + condition.used + close.used, close.build),
                        Some(_) => {
                            let used = 1 + condition.used + 1;
                            let body = statement(tokens, pos + used, close.build);
                            match body.value {
                                None => failed(used + body.used, body.build),
                                Some(b) => add_stmt(
                                    used + body.used,
                                    body.build,
                                    StmtView::While { condition: c, body: b },
                                ),
                            }
                        },
                    }
                },
            }
        },
    }
}

/// The initializer of a `for` loop with its semicolon: none, a variable
/// declaration, or an expression statement.
#[verifier::opaque]
pub open spec fn for_initializer(tokens: Seq<TokenView>, pos: nat, build: Build) -> Parsed<
    Option<usize>,
> {
    if check(tokens, pos, TokenType::Semicolon) {
        done(1, build, None)
    } else if check(tokens, pos, TokenType::Var) {
        let v = var_declaration(tokens, pos + 1, build);
        match v.value {
            None => failed(1 + v.used, v.build),
            Some(s) => done(1 + v.used, v.build, Some(s)),
        }
    } else {
        let e = expression_statement(tokens, pos, build);
        match e.value {
            None => failed(e.used, e.build),
            Some(s) => done(e.used, e.build, Some(s)),
        }
    }
}

/// forStmt → "for" "(" (varDecl | exprStmt | ";") expression? ";"
///           expression? ")" statement, after `for`. The loop is rewritten
/// into a `while` loop ([`desugar_for`]).
#[verifier::opaque]
pub open spec fn for_statement(tokens: Seq<TokenView>, pos: nat, build: Build) -> Parsed<usize>
    decreases left(tokens, pos), 30nat,
{
    let open = consume(tokens, pos, build, TokenType::LeftParen, "Expect '(' after 'for'."@);
    match open.value {
        None => failed(open.used, open.build),
        Some(_) => {
            let init = for_initializer(tokens, pos + 1, open.build);
            match init.value {
                None => failed(1 + init.used, init.build),
                Some(initializer) => {
                    let at_condition = pos + 1 + init.used;
                    let cond = optional_expression(
                        tokens,
                        at_condition,
                        init.build,
                        TokenType::Semicolon,
                    );
                    match cond.value {
                        None => failed(1 + init.used + cond.used, cond.build),
                        Some(condition) => {
                            let semi = consume(
                                tokens,
                                at_condition + cond.used,
                                cond.build,
                                TokenType::Semicolon,
                                "Expect ';' after for loop condition."@,
                            );
                            match semi.value {
                                None => failed(1 + init.used + cond.used + semi.used, semi.build),
                                Some(_) => {
                                    let at_increment = at_condition + cond.used + 1;
                                    let incr = optional_expression(
                                        tokens,
                                        at_increment,
                                        semi.build,
                                        TokenType::RightParen,
                                    );
                                    match incr.value {
                                        None => failed(
                                            1 + init.used + cond.used + 1 + incr.used,
                                            incr.build,
                                        ),
                                        Some(increment) => {
                                            let close = consume(
                                                tokens,
                                                at_increment + incr.used,
                                                incr.build,
                                                TokenType::RightParen,
                                                "Expect ')' after for loop."@,
                                            );
                                            match close.value {
                                                None => failed(
                                                    1 + init.used + cond.used + 1 + incr.used
                                                        + close.used,
                                                    close.build,
                                                ),
                                                Some(_) => {
                                                    let used = 1 + init.used + cond.used + 1
                                                        + incr.used + 1;
                                                    let body = statement(
                                                        tokens,
                                                        pos + used,
                                                        close.build,
                                                    );
                                                    match body.value {
                                                        None => failed(
                                                            used + body.used,
                                                            body.build,
                                                        ),
                                                        Some(b) => after(
                                                            used + body.used,
                                                            desugar_for(
                                                                body.build,
                                                                initializer,
                                                                condition,
                                                                increment,
                                                                b,
                                                            ),
                                                        ),
                                                    }
                                                },
                                            }
                                        },
                                    }
                                },
                            }
                        },
                    }
                },
            }
        },
    }
}

/// block → "{" declaration* "}", after the opening brace.
#[verifier::opaque]
pub open spec fn block(tokens: Seq<TokenView>, pos: nat, build: Build) -> Parsed<Seq<usize>>
    decreases left(tokens, pos), 42nat,
{
    let items = block_rest(tokens, pos, build, seq![]);
    match items.value {
        None => failed(items.used, items.build),
        Some(stmts) => {
            let close = consume(
                tokens,
                pos + items.used,
                items.build,
                TokenType::RightBrace,
                "Expect '}' after block."@,
            );
            match close.value {
                None => failed(items.used + close.used, close.build),
                Some(_) => done(items.used + 1, close.build, stmts),
            }
        },
    }
}

/// declaration* : the declarations of a block, up to its closing brace.
#[verifier::opaque]
pub open spec fn block_rest(
    tokens: Seq<TokenView>,
    pos: nat,
    build: Build,
    stmts: Seq<usize>,
) -> Parsed<Seq<usize>>
    decreases left(tokens, pos), 41nat,
{
    if check(tokens, pos, TokenType::RightBrace) || at_end(tokens, pos) {
        done(0, build, stmts)
    } else {
        let d = declaration(tokens, pos, build);
        match d.value {
            None => failed(d.used, d.build),
            Some(s) => if d.used == 0 {
                done(0, d.build, stmts.push(s))
            } else {
                after(d.used, block_rest(tokens, pos + d.used, d.build, stmts.push(s)))
            },
        }
    }
}

/// program → declaration* EOF : the statements of a program. A declaration
/// that failed is left out; parsing goes on behind it.
#[verifier::opaque]
pub open spec fn program(tokens: Seq<TokenView>, pos: nat, build: Build, stmts: Seq<usize>)
    -> Parsed<Seq<usize>>
    decreases left(tokens, pos),
{
    if at_end(tokens, pos) {
        done(0, build, stmts)
    } else {
        let d = declaration(tokens, pos, build);
        let kept = match d.value {
            Some(s) => stmts.push(s),
            None => stmts,
        };
        if d.used == 0 {
            done(0, d.build, kept)
        } else {
            after(d.used, program(tokens, pos + d.used, d.build, kept))
        }
    }
}

/// The statement that the parser yields for a `for` loop is the one that
/// [`desugar_for`] makes of its parts: wherever `for (I C; N) B` parses,
/// its initializer, condition, increment and body parsed one after the
/// other, and the result is the `while` loop built from them, with no
/// other node added and no further token used. With [`lemma_for_is_while`]:
/// the loop is `{ I while (C) { B N; } }`.
pub proof fn lemma_for_statement_is_desugared(tokens: Seq<TokenView>, pos: nat, build: Build)
    requires
        for_statement(tokens, pos, build).value is Some,
    ensures
        ({
            let init = for_initializer(tokens, pos + 1, build);
            let cond = optional_expression(
                tokens,
                pos + 1 + init.used,
                init.build,
                TokenType::Semicolon,
            );
            let incr = optional_expression(
                tokens,
                pos + 1 + init.used + cond.used + 1,
                cond.build,
                TokenType::RightParen,
            );
            let used = 1 + init.used + cond.used + 1 + incr.used + 1;
            let body = statement(tokens, pos + used, incr.build);
            &&& init.value is Some
            &&& cond.value is Some
            &&& incr.value is Some
            &&& body.value is Some
            &&& for_statement(tokens, pos, build) == after(
                used + body.used,
                desugar_for(
                    body.build,
                    init.value->Some_0,
                    cond.value->Some_0,
                    incr.value->Some_0,
                    body.value->Some_0,
                ),
            )
        }),
{
    reveal(for_statement);
    reveal(statement);
}

/// Up to 255 arguments raise no error: where a comma follows fewer than 255
/// arguments, the next argument is parsed on what has been built so far,
/// with nothing reported, and joins the list.
pub proof fn lemma_argument_within_limit(
    tokens: Seq<TokenView>,
    pos: nat,
    build: Build,
    arguments: Seq<usize>,
)
    requires
        check(tokens, pos, TokenType::Comma),
        arguments.len() < MAX_ARITY,
    ensures
        ({
            let next = expression(tokens, pos + 1, build);
            arguments_rest(tokens, pos, build, arguments) == match next.value {
                None => failed::<Seq<usize>>(1 + next.used, next.build),
                Some(expr) => after(
                    1 + next.used,
                    arguments_rest(
                        tokens,
                        pos + 1 + next.used,
                        next.build,
                        arguments.push(expr),
                    ),
                ),
            }
        }),
{
    reveal(arguments_rest);
    reveal(expression);
}

/// An argument beyond the 255th is reported, and parsing goes on: where a
/// comma follows 255 arguments or more, the error is recorded at the token
/// behind the comma, and the argument is parsed and joins the list all the
/// same, so that the call is built and no recovery follows.
pub proof fn lemma_argument_beyond_limit(
    tokens: Seq<TokenView>,
    pos: nat,
    build: Build,
    arguments: Seq<usize>,
)
    requires
        check(tokens, pos, TokenType::Comma),
        arguments.len() >= MAX_ARITY,
    ensures
        ({
            let reported = report(
                build,
                tokens[(pos + 1) as int],
                "Can't have more than 255 arguments"@,
            );
            let next = expression(tokens, pos + 1, reported);
            arguments_rest(tokens, pos, build, arguments) == match next.value {
                None => failed::<Seq<usize>>(1 + next.used, next.build),
                Some(expr) => after(
                    1 + next.used,
                    arguments_rest(
                        tokens,
                        pos + 1 + next.used,
                        next.build,
                        arguments.push(expr),
                    ),
                ),
            }
        }),
{
    reveal(arguments_rest);
    reveal(expression);
}

/// The arguments of a call come out in the order they were written, and
/// none is lost: the list that [`arguments_rest`] yields begins with the
/// arguments it was given.
pub proof fn lemma_arguments_in_order(
    tokens: Seq<TokenView>,
    pos: nat,
    build: Build,
    arguments: Seq<usize>,
)
    ensures
        arguments_rest(tokens, pos, build, arguments).value matches Some(list) ==> list.len()
            >= arguments.len() && list.subrange(0, arguments.len() as int) == arguments,
    decreases left(tokens, pos),
{
    reveal(arguments_rest);
    reveal(expression);
    if check(tokens, pos, TokenType::Comma) {
        let checked = if arguments.len() >= MAX_ARITY {
            report(build, tokens[(pos + 1) as int], "Can't have more than 255 arguments"@)
        } else {
            build
        };
        let next = expression(tokens, pos + 1, checked);
        match next.value {
            None => {},
            Some(expr) => {
                lemma_arguments_in_order(
                    tokens,
                    pos + 1 + next.used,
                    next.build,
                    arguments.push(expr),
                );
                let rest = arguments_rest(
                    tokens,
                    pos + 1 + next.used,
                    next.build,
                    arguments.push(expr),
                );
                match rest.value {
                    Some(list) => {
                        assert(list.subrange(0, arguments.len() as int) =~= list.subrange(
                            0,
                            (arguments.len() + 1) as int,
                        ).subrange(0, arguments.len() as int));
                        assert(arguments.push(expr).subrange(0, arguments.len() as int)
                            =~= arguments);
                    },
                    None => {},
                }
            },
        }
    } else {
        assert(arguments.subrange(0, arguments.len() as int) =~= arguments);
    }
}

} // verus!
