//! The evaluator's vocabulary: what it asks of the host, what the host
//! answers, what it has still to do, and the rules that say what follows
//! from a node of the syntax tree or from a value.
//!
//! The evaluator works in steps. Numbers are the host's: the evaluator
//! never computes with one, it asks (`Action`) and is answered (`Event`).
//! The same holds for printing and for the clock.

use vstd::prelude::*;
use vstd::string::*;
use crate::ast::{Ast, AstView};
use crate::error::{LoxResult, LoxResultView};
use crate::expr::{Expr, ExprView};
use crate::object::{Object, ObjectView, objects_view, negation, same, truthy};
use crate::stmt::{Stmt, StmtView};
use crate::token::{Literal, LiteralView, Token, TokenType, TokenView};

verus! {

/// What the evaluator asks of the host after a step.
#[derive(Debug, PartialEq, Eq)]
pub enum Action {
    /// Nothing: take the next step.
    Continue,
    /// Write the line to standard output.
    Print(String),
    /// The number that the decimal text denotes.
    Parse(String),
    /// The number negated.
    Negate(u64),
    /// The sum, difference, product or quotient of two numbers; the operator
    /// is `Plus`, `Minus`, `Star` or `Slash`.
    Arithmetic(TokenType, u64, u64),
    /// Whether the comparison holds of two numbers; the operator is one of
    /// `Greater`, `GreaterEqual`, `Less`, `LessEqual`, `EqualEqual`,
    /// `BangEqual`.
    Compare(TokenType, u64, u64),
    /// The display form of the number.
    Format(u64),
    /// The number cut down to a count.
    Truncate(u64),
    /// The time in milliseconds since the Unix epoch, as a number.
    Clock,
    /// Nothing: the run has ended, with the last value or with an error.
    Finished(Result<Object, LoxResult>),
}

/// Mathematical model of an [`Action`].
pub enum ActionView {
    Continue,
    Print(Seq<char>),
    Parse(Seq<char>),
    Negate(u64),
    Arithmetic(TokenType, u64, u64),
    Compare(TokenType, u64, u64),
    Format(u64),
    Truncate(u64),
    Clock,
    Finished(Result<ObjectView, LoxResultView>),
}

impl View for Action {
    type V = ActionView;

    open spec fn view(&self) -> ActionView {
        match self {
            Action::Continue => ActionView::Continue,
            Action::Print(s) => ActionView::Print(s@),
            Action::Parse(s) => ActionView::Parse(s@),
            Action::Negate(n) => ActionView::Negate(*n),
            Action::Arithmetic(op, a, b) => ActionView::Arithmetic(*op, *a, *b),
            Action::Compare(op, a, b) => ActionView::Compare(*op, *a, *b),
            Action::Format(n) => ActionView::Format(*n),
            Action::Truncate(n) => ActionView::Truncate(*n),
            Action::Clock => ActionView::Clock,
            Action::Finished(r) => ActionView::Finished(
                match r {
                    Ok(v) => Ok(v@),
                    Err(e) => Err(e@),
                },
            ),
        }
    }
}

/// What the host hands to a step: the answer to the action of the step
/// before.
#[derive(Debug, PartialEq, Eq)]
pub enum Event {
    /// No answer: the step before asked for nothing.
    Resume,
    Number(u64),
    Bool(bool),
    Text(String),
    Count(usize),
    /// The host could not do what was asked.
    Failed(String),
}

/// Mathematical model of an [`Event`].
pub enum EventView {
    Resume,
    Number(u64),
    Bool(bool),
    Text(Seq<char>),
    Count(usize),
    Failed(Seq<char>),
}

impl View for Event {
    type V = EventView;

    open spec fn view(&self) -> EventView {
        match self {
            Event::Resume => EventView::Resume,
            Event::Number(n) => EventView::Number(*n),
            Event::Bool(b) => EventView::Bool(*b),
            Event::Text(s) => EventView::Text(s@),
            Event::Count(n) => EventView::Count(*n),
            Event::Failed(s) => EventView::Failed(s@),
        }
    }
}

/// What the evaluator will do with the host's answer.
#[derive(Debug, PartialEq, Eq)]
pub enum Pending {
    /// A number: it is the value of the expression.
    Number,
    /// A truth value: it is the value of the expression.
    Bool,
    /// The display form of a number, which is joined with the texts around
    /// it.
    Joined { before: String, behind: String },
    /// The display form of a number, which is then printed.
    Printable,
    /// A line has been printed.
    Printed,
    /// A count: the text is repeated that many times.
    Repeat { text: String },
}

/// Mathematical model of a [`Pending`].
pub enum PendingView {
    Number,
    Bool,
    Joined { before: Seq<char>, behind: Seq<char> },
    Printable,
    Printed,
    Repeat { text: Seq<char> },
}

impl View for Pending {
    type V = PendingView;

    open spec fn view(&self) -> PendingView {
        match self {
            Pending::Number => PendingView::Number,
            Pending::Bool => PendingView::Bool,
            Pending::Joined { before, behind } => PendingView::Joined {
                before: before@,
                behind: behind@,
            },
            Pending::Printable => PendingView::Printable,
            Pending::Printed => PendingView::Printed,
            Pending::Repeat { text } => PendingView::Repeat { text: text@ },
        }
    }
}

/// What unwinds the stack: the two control-flow signals, and errors.
#[derive(Debug, PartialEq, Eq)]
pub enum Signal {
    Break,
    Return(Object),
    Error(LoxResult),
}

/// Mathematical model of a [`Signal`].
pub enum SignalView {
    Break,
    Return(ObjectView),
    Error(LoxResultView),
}

impl View for Signal {
    type V = SignalView;

    open spec fn view(&self) -> SignalView {
        match self {
            Signal::Break => SignalView::Break,
            Signal::Return(v) => SignalView::Return(v@),
            Signal::Error(e) => SignalView::Error(e@),
        }
    }
}

/// What is left to do once a value has been given: one entry of the
/// evaluator's stack.
#[allow(inconsistent_fields)]
#[derive(Debug, PartialEq, Eq)]
pub enum Frame {
    /// The value of an assignment is being evaluated.
    Assign { expr: usize },
    BinaryLeft { expr: usize },
    BinaryRight { expr: usize, left: Object },
    Callee { expr: usize },
    Arguments { expr: usize, callee: Object, arguments: Vec<Object> },
    Property { expr: usize },
    Logical { expr: usize },
    SetObject { expr: usize },
    SetValue { expr: usize, instance: usize },
    Unary { expr: usize },
    Print,
    Var { stmt: usize },
    /// The statements of the block or function `stmt` are being executed;
    /// `next` is the index of the one that follows. A block restores the
    /// scope `saved` when it is left.
    Sequence { stmt: usize, next: usize, saved: Option<usize> },
    /// A function is being called: a `return` stops here.
    Call { saved: usize, closure: usize, is_initializer: bool },
    If { stmt: usize },
    WhileCondition { stmt: usize },
    /// The body of a loop is being executed: a `break` stops here.
    WhileBody { stmt: usize },
    Return,
    Superclass { stmt: usize },
    /// The statements of a program are being executed.
    Program { stmts: Vec<usize>, next: usize, saved: usize },
}

/// Mathematical model of a [`Frame`].
#[allow(inconsistent_fields)]
pub enum FrameView {
    Assign { expr: usize },
    BinaryLeft { expr: usize },
    BinaryRight { expr: usize, left: ObjectView },
    Callee { expr: usize },
    Arguments { expr: usize, callee: ObjectView, arguments: Seq<ObjectView> },
    Property { expr: usize },
    Logical { expr: usize },
    SetObject { expr: usize },
    SetValue { expr: usize, instance: usize },
    Unary { expr: usize },
    Print,
    Var { stmt: usize },
    Sequence { stmt: usize, next: usize, saved: Option<usize> },
    Call { saved: usize, closure: usize, is_initializer: bool },
    If { stmt: usize },
    WhileCondition { stmt: usize },
    WhileBody { stmt: usize },
    Return,
    Superclass { stmt: usize },
    Program { stmts: Seq<usize>, next: usize, saved: usize },
}

impl View for Frame {
    type V = FrameView;

    open spec fn view(&self) -> FrameView {
        match self {
            Frame::Assign { expr } => FrameView::Assign { expr: *expr },
            Frame::BinaryLeft { expr } => FrameView::BinaryLeft { expr: *expr },
            Frame::BinaryRight { expr, left } => FrameView::BinaryRight { expr: *expr, left: left@ },
            Frame::Callee { expr } => FrameView::Callee { expr: *expr },
            Frame::Arguments { expr, callee, arguments } => FrameView::Arguments {
                expr: *expr,
                callee: callee@,
                arguments: objects_view(arguments@),
            },
            Frame::Property { expr } => FrameView::Property { expr: *expr },
            Frame::Logical { expr } => FrameView::Logical { expr: *expr },
            Frame::SetObject { expr } => FrameView::SetObject { expr: *expr },
            Frame::SetValue { expr, instance } => FrameView::SetValue {
                expr: *expr,
                instance: *instance,
            },
            Frame::Unary { expr } => FrameView::Unary { expr: *expr },
            Frame::Print => FrameView::Print,
            Frame::Var { stmt } => FrameView::Var { stmt: *stmt },
            Frame::Sequence { stmt, next, saved } => FrameView::Sequence {
                stmt: *stmt,
                next: *next,
                saved: *saved,
            },
            Frame::Call { saved, closure, is_initializer } => FrameView::Call {
                saved: *saved,
                closure: *closure,
                is_initializer: *is_initializer,
            },
            Frame::If { stmt } => FrameView::If { stmt: *stmt },
            Frame::WhileCondition { stmt } => FrameView::WhileCondition { stmt: *stmt },
            Frame::WhileBody { stmt } => FrameView::WhileBody { stmt: *stmt },
            Frame::Return => FrameView::Return,
            Frame::Superclass { stmt } => FrameView::Superclass { stmt: *stmt },
            Frame::Program { stmts, next, saved } => FrameView::Program {
                stmts: stmts@,
                next: *next,
                saved: *saved,
            },
        }
    }
}

/// Views of a stack of frames, element by element.
pub open spec fn frames_view(frames: Seq<Frame>) -> Seq<FrameView> {
    frames.map_values(|f: Frame| f@)
}

/// What the evaluator does in its next step.
#[derive(Debug, PartialEq, Eq)]
pub enum Task {
    /// Nothing is running.
    Idle,
    /// Evaluate the expression.
    Evaluate(usize),
    /// Execute the statement.
    Execute(usize),
    /// Hand the value to the frame on top of the stack.
    Give(Object),
    /// Take frames off the stack until one stops the signal.
    Unwind(Signal),
    /// Take the host's answer.
    Await(Pending),
}

/// Mathematical model of a [`Task`].
pub enum TaskView {
    Idle,
    Evaluate(usize),
    Execute(usize),
    Give(ObjectView),
    Unwind(SignalView),
    Await(PendingView),
}

impl View for Task {
    type V = TaskView;

    open spec fn view(&self) -> TaskView {
        match self {
            Task::Idle => TaskView::Idle,
            Task::Evaluate(e) => TaskView::Evaluate(*e),
            Task::Execute(s) => TaskView::Execute(*s),
            Task::Give(v) => TaskView::Give(v@),
            Task::Unwind(s) => TaskView::Unwind(s@),
            Task::Await(p) => TaskView::Await(p@),
        }
    }
}

/// What follows from a node or from a value: the evaluator's next move.
/// The first group needs nothing but the stack; the second reads or changes
/// what the evaluator keeps (scopes, functions, classes, instances).
#[derive(Debug, PartialEq, Eq)]
pub enum Move {
    Evaluate(usize),
    Execute(usize),
    /// Push the frame, then evaluate the expression.
    PushEvaluate(Frame, usize),
    /// Push the frame, then execute the statement.
    PushExecute(Frame, usize),
    Give(Object),
    /// Ask the host, and wait for the answer.
    Ask(Action, Pending),
    Unwind(Signal),
    /// Read the variable that the expression `expr` names.
    Lookup { expr: usize, name: Token },
    /// Assign the value to the variable that the expression `expr` names.
    Assign { expr: usize, name: Token, value: Object },
    /// Call `callee` with the arguments; `paren` is where errors point.
    Call { paren: Token, callee: Object, arguments: Vec<Object> },
    /// Read the property `name` of `object`.
    GetProperty { name: Token, object: Object },
    /// Set the field `name` of the instance.
    SetField { instance: usize, name: Token, value: Object },
    /// Find the method `method` of the superclass, bound to `this`.
    Super { expr: usize, keyword: Token, method: Token },
    /// Print a value that is not a number.
    Print(Object),
    /// Bind the name in the current scope.
    Define { name: Token, value: Object },
    /// Enter the block `stmt`.
    EnterBlock(usize),
    /// Leave a block: restore the scope `saved`.
    LeaveBlock(Option<usize>),
    /// Leave a call with the value it returns: restore the scope `saved`.
    /// An initializer gives `this` whatever it returns.
    LeaveCall { saved: usize, closure: usize, is_initializer: bool, value: Object },
    /// Declare the function `stmt`.
    DeclareFunction(usize),
    /// Declare the class `stmt`, whose superclass has been evaluated.
    DeclareClass { stmt: usize, superclass: Option<usize> },
}

/// Mathematical model of a [`Move`].
pub enum MoveView {
    Evaluate(usize),
    Execute(usize),
    PushEvaluate(FrameView, usize),
    PushExecute(FrameView, usize),
    Give(ObjectView),
    Ask(ActionView, PendingView),
    Unwind(SignalView),
    Lookup { expr: usize, name: TokenView },
    Assign { expr: usize, name: TokenView, value: ObjectView },
    Call { paren: TokenView, callee: ObjectView, arguments: Seq<ObjectView> },
    GetProperty { name: TokenView, object: ObjectView },
    SetField { instance: usize, name: TokenView, value: ObjectView },
    Super { expr: usize, keyword: TokenView, method: TokenView },
    Print(ObjectView),
    Define { name: TokenView, value: ObjectView },
    EnterBlock(usize),
    LeaveBlock(Option<usize>),
    LeaveCall { saved: usize, closure: usize, is_initializer: bool, value: ObjectView },
    DeclareFunction(usize),
    DeclareClass { stmt: usize, superclass: Option<usize> },
}

impl View for Move {
    type V = MoveView;

    open spec fn view(&self) -> MoveView {
        match self {
            Move::Evaluate(e) => MoveView::Evaluate(*e),
            Move::Execute(s) => MoveView::Execute(*s),
            Move::PushEvaluate(f, e) => MoveView::PushEvaluate(f@, *e),
            Move::PushExecute(f, s) => MoveView::PushExecute(f@, *s),
            Move::Give(v) => MoveView::Give(v@),
            Move::Ask(a, p) => MoveView::Ask(a@, p@),
            Move::Unwind(s) => MoveView::Unwind(s@),
            Move::Lookup { expr, name } => MoveView::Lookup { expr: *expr, name: name@ },
            Move::Assign { expr, name, value } => MoveView::Assign {
                expr: *expr,
                name: name@,
                value: value@,
            },
            Move::Call { paren, callee, arguments } => MoveView::Call {
                paren: paren@,
                callee: callee@,
                arguments: objects_view(arguments@),
            },
            Move::GetProperty { name, object } => MoveView::GetProperty {
                name: name@,
                object: object@,
            },
            Move::SetField { instance, name, value } => MoveView::SetField {
                instance: *instance,
                name: name@,
                value: value@,
            },
            Move::Super { expr, keyword, method } => MoveView::Super {
                expr: *expr,
                keyword: keyword@,
                method: method@,
            },
            Move::Print(v) => MoveView::Print(v@),
            Move::Define { name, value } => MoveView::Define { name: name@, value: value@ },
            Move::EnterBlock(s) => MoveView::EnterBlock(*s),
            Move::LeaveBlock(saved) => MoveView::LeaveBlock(*saved),
            Move::LeaveCall { saved, closure, is_initializer, value } => MoveView::LeaveCall {
                saved: *saved,
                closure: *closure,
                is_initializer: *is_initializer,
                value: value@,
            },
            Move::DeclareFunction(s) => MoveView::DeclareFunction(*s),
            Move::DeclareClass { stmt, superclass } => MoveView::DeclareClass {
                stmt: *stmt,
                superclass: *superclass,
            },
        }
    }
}

/// The move that reports a runtime error at `token`.
pub open spec fn runtime_failure(token: TokenView, message: Seq<char>) -> MoveView {
    MoveView::Unwind(SignalView::Error(LoxResultView::RuntimeError { token, message }))
}

/// The move that reports a fault of the evaluator itself: a node that is
/// not in the tree, or an answer that was not asked for.
pub open spec fn system_failure(message: Seq<char>) -> MoveView {
    MoveView::Unwind(SignalView::Error(LoxResultView::SystemError { message }))
}

fn runtime_fail(token: &Token, message: &str) -> (m: Move)
    ensures
        m@ == runtime_failure(token@, message@),
{
    Move::Unwind(Signal::Error(LoxResult::error_runtime(token, message)))
}

fn system_fail(message: &str) -> (m: Move)
    ensures
        m@ == system_failure(message@),
{
    Move::Unwind(Signal::Error(LoxResult::system_error(message)))
}

/// Whether the operator is one of `+ - * /`.
pub open spec fn is_arithmetic(op: TokenType) -> bool {
    op == TokenType::Plus || op == TokenType::Minus || op == TokenType::Star || op
        == TokenType::Slash
}

/// Whether the operator is one of `> >= < <=`.
pub open spec fn is_ordering(op: TokenType) -> bool {
    op == TokenType::Greater || op == TokenType::GreaterEqual || op == TokenType::Less || op
        == TokenType::LessEqual
}

/// Whether the operator is `==` or `!=`.
pub open spec fn is_equality(op: TokenType) -> bool {
    op == TokenType::EqualEqual || op == TokenType::BangEqual
}

/// What a binary operator does with two values.
///
/// * Two numbers: arithmetic and comparisons are asked of the host.
/// * `+` on two strings joins them; on a number and a string it joins the
///   string with the number's display form.
/// * `*` on a number and a string repeats the string.
/// * `==` and `!=` compare any two values: by value for strings, booleans
///   and `nil`, by identity for functions, classes and instances; values of
///   different kinds are never equal.
/// * Anything else is the runtime error "Illegal operation" at the operator.
pub open spec fn binary_move(operator: TokenView, left: ObjectView, right: ObjectView)
    -> MoveView {
    let op = operator.ttype;
    let illegal = runtime_failure(operator, "Illegal operation"@);
    match (left, right) {
        (ObjectView::Number(a), ObjectView::Number(b)) => if is_arithmetic(op) {
            MoveView::Ask(ActionView::Arithmetic(op, a, b), PendingView::Number)
        } else if is_ordering(op) || is_equality(op) {
            MoveView::Ask(ActionView::Compare(op, a, b), PendingView::Bool)
        } else {
            illegal
        },
        (ObjectView::Number(a), ObjectView::Str(s)) => if op == TokenType::Plus {
            MoveView::Ask(ActionView::Format(a), PendingView::Joined { before: seq![], behind: s })
        } else if op == TokenType::Star {
            MoveView::Ask(ActionView::Truncate(a), PendingView::Repeat { text: s })
        } else if op == TokenType::EqualEqual {
            MoveView::Give(ObjectView::Bool(false))
        } else if op == TokenType::BangEqual {
            MoveView::Give(ObjectView::Bool(true))
        } else {
            illegal
        },
        (ObjectView::Str(s), ObjectView::Number(b)) => if op == TokenType::Plus {
            MoveView::Ask(ActionView::Format(b), PendingView::Joined { before: s, behind: seq![] })
        } else if op == TokenType::Star {
            MoveView::Ask(ActionView::Truncate(b), PendingView::Repeat { text: s })
        } else if op == TokenType::EqualEqual {
            MoveView::Give(ObjectView::Bool(false))
        } else if op == TokenType::BangEqual {
            MoveView::Give(ObjectView::Bool(true))
        } else {
            illegal
        },
        (ObjectView::Str(a), ObjectView::Str(b)) => if op == TokenType::Plus {
            MoveView::Give(ObjectView::Str(a + b))
        } else if op == TokenType::EqualEqual {
            MoveView::Give(ObjectView::Bool(a == b))
        } else if op == TokenType::BangEqual {
            MoveView::Give(ObjectView::Bool(a != b))
        } else {
            illegal
        },
        _ => if op == TokenType::EqualEqual {
            MoveView::Give(ObjectView::Bool(same(left, right)))
        } else if op == TokenType::BangEqual {
            MoveView::Give(ObjectView::Bool(!same(left, right)))
        } else {
            illegal
        },
    }
}

fn is_arithmetic_kind(op: TokenType) -> (b: bool)
    ensures
        b == is_arithmetic(op),
{
    op == TokenType::Plus || op == TokenType::Minus || op == TokenType::Star || op
        == TokenType::Slash
}

fn is_ordering_kind(op: TokenType) -> (b: bool)
    ensures
        b == is_ordering(op),
{
    op == TokenType::Greater || op == TokenType::GreaterEqual || op == TokenType::Less || op
        == TokenType::LessEqual
}

fn is_equality_kind(op: TokenType) -> (b: bool)
    ensures
        b == is_equality(op),
{
    op == TokenType::EqualEqual || op == TokenType::BangEqual
}

/// What a binary operator does with two values.
pub fn visit_binary_expr(operator: &Token, left: Object, right: Object) -> (m: Move)
    ensures
        m@ == binary_move(operator@, left@, right@),
{
    let op = operator.ttype;
    match (left, right) {
        (Object::Number(a), Object::Number(b)) => {
            if is_arithmetic_kind(op) {
                Move::Ask(Action::Arithmetic(op, a, b), Pending::Number)
            } else if is_ordering_kind(op) || is_equality_kind(op) {
                Move::Ask(Action::Compare(op, a, b), Pending::Bool)
            } else {
                runtime_fail(operator, "Illegal operation")
            }
        },
        (Object::Number(a), Object::Str(s)) => {
            if op == TokenType::Plus {
                let before = String::new();
                assert(before@ =~= seq![]);
                Move::Ask(Action::Format(a), Pending::Joined { before, behind: s })
            } else if op == TokenType::Star {
                Move::Ask(Action::Truncate(a), Pending::Repeat { text: s })
            } else if op == TokenType::EqualEqual {
                Move::Give(Object::Bool(false))
            } else if op == TokenType::BangEqual {
                Move::Give(Object::Bool(true))
            } else {
                runtime_fail(operator, "Illegal operation")
            }
        },
        (Object::Str(s), Object::Number(b)) => {
            if op == TokenType::Plus {
                let behind = String::new();
                assert(behind@ =~= seq![]);
                Move::Ask(Action::Format(b), Pending::Joined { before: s, behind })
            } else if op == TokenType::Star {
                Move::Ask(Action::Truncate(b), Pending::Repeat { text: s })
            } else if op == TokenType::EqualEqual {
                Move::Give(Object::Bool(false))
            } else if op == TokenType::BangEqual {
                Move::Give(Object::Bool(true))
            } else {
                runtime_fail(operator, "Illegal operation")
            }
        },
        (Object::Str(a), Object::Str(b)) => {
            if op == TokenType::Plus {
                let mut joined = a;
                joined.append(b.as_str());
                Move::Give(Object::Str(joined))
            } else if op == TokenType::EqualEqual {
                Move::Give(Object::Bool(a == b))
            } else if op == TokenType::BangEqual {
                Move::Give(Object::Bool(!(a == b)))
            } else {
                runtime_fail(operator, "Illegal operation")
            }
        },
        (left, right) => {
            if op == TokenType::EqualEqual {
                Move::Give(Object::Bool(left.same_as(&right)))
            } else if op == TokenType::BangEqual {
                Move::Give(Object::Bool(!left.same_as(&right)))
            } else {
                runtime_fail(operator, "Illegal operation")
            }
        },
    }
}

/// What a unary operator does with a value: `-` negates a number and is the
/// runtime error "Operand must be a number" for anything else; `!` gives
/// the opposite of the value's truthiness.
pub open spec fn unary_move(operator: TokenView, right: ObjectView) -> MoveView {
    if operator.ttype == TokenType::Minus {
        match right {
            ObjectView::Number(n) => MoveView::Ask(ActionView::Negate(n), PendingView::Number),
            _ => runtime_failure(operator, "Operand must be a number"@),
        }
    } else if operator.ttype == TokenType::Bang {
        MoveView::Give(negation(right))
    } else {
        runtime_failure(operator, "Illegal operation"@)
    }
}

/// What a unary operator does with a value.
pub fn visit_unary_expr(operator: &Token, right: Object) -> (m: Move)
    ensures
        m@ == unary_move(operator@, right@),
{
    if operator.ttype == TokenType::Minus {
        match right {
            Object::Number(n) => Move::Ask(Action::Negate(n), Pending::Number),
            _ => runtime_fail(operator, "Operand must be a number"),
        }
    } else if operator.ttype == TokenType::Bang {
        Move::Give(right.not())
    } else {
        runtime_fail(operator, "Illegal operation")
    }
}

/// What a logical operator does once its left operand has a value: `or`
/// gives a truthy left operand and `and` a falsey one; else the right
/// operand `right` is evaluated.
pub open spec fn logical_move(operator: TokenView, left: ObjectView, right: usize) -> MoveView {
    if operator.ttype == TokenType::Or {
        if truthy(left) {
            MoveView::Give(left)
        } else {
            MoveView::Evaluate(right)
        }
    } else {
        if !truthy(left) {
            MoveView::Give(left)
        } else {
            MoveView::Evaluate(right)
        }
    }
}

/// What a logical operator does once its left operand has a value.
pub fn visit_logical_expr(operator: &Token, left: Object, right: usize) -> (m: Move)
    ensures
        m@ == logical_move(operator@, left@, right),
{
    if operator.ttype == TokenType::Or {
        // If lhs of logical or is true, do not evaluate rhs
        if left.is_truthy() {
            return Move::Give(left);
        }
    } else {
        // If lhs of logical and is false, do not evaluate rhs
        if !left.is_truthy() {
            return Move::Give(left);
        }
    }
    // evaluate rhs only if the result wasn't enough to determine the truthiness
    Move::Evaluate(right)
}

/// The value of a literal that is not a number.
pub open spec fn literal_value(literal: LiteralView) -> ObjectView {
    match literal {
        LiteralView::Str(s) => ObjectView::Str(s),
        LiteralView::Identifier(s) => ObjectView::Str(s),
        LiteralView::Bool(b) => ObjectView::Bool(b),
        _ => ObjectView::Nil,
    }
}

/// How the evaluation of the expression `e` begins.
pub open spec fn expression_move(ast: AstView, e: usize) -> MoveView {
    if e >= ast.exprs.len() {
        system_failure("no such expression"@)
    } else {
        match ast.exprs[e as int] {
            ExprView::Assign { value, .. } => MoveView::PushEvaluate(
                FrameView::Assign { expr: e },
                value,
            ),
            ExprView::Binary { left, .. } => MoveView::PushEvaluate(
                FrameView::BinaryLeft { expr: e },
                left,
            ),
            ExprView::Call { callee, .. } => MoveView::PushEvaluate(
                FrameView::Callee { expr: e },
                callee,
            ),
            ExprView::Get { object, .. } => MoveView::PushEvaluate(
                FrameView::Property { expr: e },
                object,
            ),
            ExprView::Grouping { expression } => MoveView::Evaluate(expression),
            ExprView::Literal { value } => match value {
                LiteralView::Number(text) => MoveView::Ask(
                    ActionView::Parse(text),
                    PendingView::Number,
                ),
                _ => MoveView::Give(literal_value(value)),
            },
            ExprView::Logical { left, .. } => MoveView::PushEvaluate(
                FrameView::Logical { expr: e },
                left,
            ),
            ExprView::SetProperty { object, .. } => MoveView::PushEvaluate(
                FrameView::SetObject { expr: e },
                object,
            ),
            ExprView::This { keyword } => MoveView::Lookup { expr: e, name: keyword },
            ExprView::Super { keyword, method } => MoveView::Super { expr: e, keyword, method },
            ExprView::Unary { right, .. } => MoveView::PushEvaluate(
                FrameView::Unary { expr: e },
                right,
            ),
            ExprView::Variable { name } => MoveView::Lookup { expr: e, name },
        }
    }
}

/// How the evaluation of the expression `e` begins.
pub fn evaluate(ast: &Ast, e: usize) -> (m: Move)
    ensures
        m@ == expression_move(ast@, e),
{
    if e >= ast.expr_count() {
        return system_fail("no such expression");
    }
    match ast.expr(e) {
        Expr::Assign { value, .. } => Move::PushEvaluate(Frame::Assign { expr: e }, *value),
        Expr::Binary { left, .. } => Move::PushEvaluate(Frame::BinaryLeft { expr: e }, *left),
        Expr::Call { callee, .. } => Move::PushEvaluate(Frame::Callee { expr: e }, *callee),
        Expr::Get { object, .. } => Move::PushEvaluate(Frame::Property { expr: e }, *object),
        Expr::Grouping { expression } => Move::Evaluate(*expression),
        // Simplest of all expressions. Just convert the literal to a 'value'
        Expr::Literal { value } => match value {
            Literal::Number(text) => Move::Ask(Action::Parse(text.clone()), Pending::Number),
            Literal::Str(s) => Move::Give(Object::Str(s.clone())),
            Literal::Identifier(s) => Move::Give(Object::Str(s.clone())),
            Literal::Bool(b) => Move::Give(Object::Bool(*b)),
            Literal::Nil => Move::Give(Object::Nil),
        },
        Expr::Logical { left, .. } => Move::PushEvaluate(Frame::Logical { expr: e }, *left),
        Expr::SetProperty { object, .. } => Move::PushEvaluate(
            Frame::SetObject { expr: e },
            *object,
        ),
        Expr::This { keyword } => Move::Lookup { expr: e, name: keyword.clone() },
        Expr::Super { keyword, method } => Move::Super {
            expr: e,
            keyword: keyword.clone(),
            method: method.clone(),
        },
        Expr::Unary { right, .. } => Move::PushEvaluate(Frame::Unary { expr: e }, *right),
        Expr::Variable { name } => Move::Lookup { expr: e, name: name.clone() },
    }
}

/// How the execution of the statement `s` begins.
pub open spec fn statement_move(ast: AstView, s: usize) -> MoveView {
    if s >= ast.stmts.len() {
        system_failure("no such statement"@)
    } else {
        match ast.stmts[s as int] {
            StmtView::Block { .. } => MoveView::EnterBlock(s),
            StmtView::Class { superclass, .. } => match superclass {
                Some(parent) => MoveView::PushEvaluate(FrameView::Superclass { stmt: s }, parent),
                None => MoveView::DeclareClass { stmt: s, superclass: None },
            },
            StmtView::Expression { expression } => MoveView::Evaluate(expression),
            StmtView::Function { .. } => MoveView::DeclareFunction(s),
            StmtView::If { condition, .. } => MoveView::PushEvaluate(
                FrameView::If { stmt: s },
                condition,
            ),
            StmtView::Print { expression } => MoveView::PushEvaluate(FrameView::Print, expression),
            StmtView::Return { value, .. } => match value {
                Some(v) => MoveView::PushEvaluate(FrameView::Return, v),
                None => MoveView::Unwind(SignalView::Return(ObjectView::Nil)),
            },
            StmtView::Var { name, initializer } => match initializer {
                Some(i) => MoveView::PushEvaluate(FrameView::Var { stmt: s }, i),
                None => MoveView::Define { name, value: ObjectView::Nil },
            },
            StmtView::While { condition, .. } => MoveView::PushEvaluate(
                FrameView::WhileCondition { stmt: s },
                condition,
            ),
            StmtView::Break { .. } => MoveView::Unwind(SignalView::Break),
        }
    }
}

/// How the execution of the statement `s` begins.
pub fn execute(ast: &Ast, s: usize) -> (m: Move)
    ensures
        m@ == statement_move(ast@, s),
{
    if s >= ast.stmt_count() {
        return system_fail("no such statement");
    }
    match ast.stmt(s) {
        Stmt::Block(_) => Move::EnterBlock(s),
        Stmt::Class(stmt) => match stmt.superclass {
            Some(parent) => Move::PushEvaluate(Frame::Superclass { stmt: s }, parent),
            None => Move::DeclareClass { stmt: s, superclass: None },
        },
        Stmt::Expression(stmt) => Move::Evaluate(stmt.expression),
        Stmt::Function(_) => Move::DeclareFunction(s),
        Stmt::If(stmt) => Move::PushEvaluate(Frame::If { stmt: s }, stmt.condition),
        Stmt::Print(stmt) => Move::PushEvaluate(Frame::Print, stmt.expression),
        Stmt::Return(stmt) => match stmt.value {
            Some(v) => Move::PushEvaluate(Frame::Return, v),
            None => Move::Unwind(Signal::Return(Object::Nil)),
        },
        Stmt::Var(stmt) => match stmt.initializer {
            Some(i) => Move::PushEvaluate(Frame::Var { stmt: s }, i),
            None => Move::Define { name: stmt.name.clone(), value: Object::Nil },
        },
        Stmt::While(stmt) => Move::PushEvaluate(Frame::WhileCondition { stmt: s }, stmt.condition),
        Stmt::Break(_) => Move::Unwind(Signal::Break),
    }
}

/// The statements that the frame `Sequence` of the statement `s` runs
/// through: those of a block, or the body of a function.
pub open spec fn sequence_of(ast: AstView, s: usize) -> Seq<usize> {
    if s >= ast.stmts.len() {
        seq![]
    } else {
        match ast.stmts[s as int] {
            StmtView::Block { statements } => statements,
            StmtView::Function { body, .. } => body,
            _ => seq![],
        }
    }
}

/// The move for a frame that does not fit the node it names.
pub open spec fn misfit() -> MoveView {
    system_failure("frame does not fit its node"@)
}

/// What follows when `value` is given to `frame`.
pub open spec fn frame_move(ast: AstView, frame: FrameView, value: ObjectView) -> MoveView {
    match frame {
        FrameView::Assign { expr } => if expr < ast.exprs.len() && ast.exprs[expr as int]
            is Assign {
            MoveView::Assign { expr, name: ast.exprs[expr as int]->Assign_name, value }
        } else {
            misfit()
        },
        FrameView::BinaryLeft { expr } => if expr < ast.exprs.len() && ast.exprs[expr as int]
            is Binary {
            MoveView::PushEvaluate(
                FrameView::BinaryRight { expr, left: value },
                ast.exprs[expr as int]->Binary_right,
            )
        } else {
            misfit()
        },
        FrameView::BinaryRight { expr, left } => if expr < ast.exprs.len() && ast.exprs[expr as int]
            is Binary {
            binary_move(ast.exprs[expr as int]->Binary_operator, left, value)
        } else {
            misfit()
        },
        FrameView::Callee { expr } => if expr < ast.exprs.len() && ast.exprs[expr as int] is Call {
            let arguments = ast.exprs[expr as int]->Call_arguments;
            if arguments.len() == 0 {
                MoveView::Call {
                    paren: ast.exprs[expr as int]->Call_paren,
                    callee: value,
                    arguments: seq![],
                }
            } else {
                MoveView::PushEvaluate(
                    FrameView::Arguments { expr, callee: value, arguments: seq![] },
                    arguments[0],
                )
            }
        } else {
            misfit()
        },
        FrameView::Arguments { expr, callee, arguments } => if expr < ast.exprs.len()
            && ast.exprs[expr as int] is Call {
            let all = ast.exprs[expr as int]->Call_arguments;
            let done = arguments.push(value);
            if done.len() < all.len() {
                MoveView::PushEvaluate(
                    FrameView::Arguments { expr, callee, arguments: done },
                    all[done.len() as int],
                )
            } else {
                MoveView::Call {
                    paren: ast.exprs[expr as int]->Call_paren,
                    callee,
                    arguments: done,
                }
            }
        } else {
            misfit()
        },
        FrameView::Property { expr } => if expr < ast.exprs.len() && ast.exprs[expr as int] is Get {
            MoveView::GetProperty { name: ast.exprs[expr as int]->Get_name, object: value }
        } else {
            misfit()
        },
        FrameView::Logical { expr } => if expr < ast.exprs.len() && ast.exprs[expr as int]
            is Logical {
            logical_move(
                ast.exprs[expr as int]->Logical_operator,
                value,
                ast.exprs[expr as int]->Logical_right,
            )
        } else {
            misfit()
        },
        FrameView::SetObject { expr } => if expr < ast.exprs.len() && ast.exprs[expr as int]
            is SetProperty {
            match value {
                ObjectView::Instance(instance) => MoveView::PushEvaluate(
                    FrameView::SetValue { expr, instance },
                    ast.exprs[expr as int]->SetProperty_value,
                ),
                _ => runtime_failure(
                    ast.exprs[expr as int]->SetProperty_name,
                    "Only instances have fields"@,
                ),
            }
        } else {
            misfit()
        },
        FrameView::SetValue { expr, instance } => if expr < ast.exprs.len()
            && ast.exprs[expr as int] is SetProperty {
            MoveView::SetField { instance, name: ast.exprs[expr as int]->SetProperty_name, value }
        } else {
            misfit()
        },
        FrameView::Unary { expr } => if expr < ast.exprs.len() && ast.exprs[expr as int] is Unary {
            unary_move(ast.exprs[expr as int]->Unary_operator, value)
        } else {
            misfit()
        },
        FrameView::Print => match value {
            ObjectView::Number(n) => MoveView::Ask(ActionView::Format(n), PendingView::Printable),
            _ => MoveView::Print(value),
        },
        FrameView::Var { stmt } => if stmt < ast.stmts.len() && ast.stmts[stmt as int] is Var {
            MoveView::Define { name: ast.stmts[stmt as int]->Var_name, value }
        } else {
            misfit()
        },
        FrameView::Sequence { stmt, next, saved } => {
            let list = sequence_of(ast, stmt);
            if next < list.len() {
                MoveView::PushExecute(
                    FrameView::Sequence { stmt, next: (next + 1) as usize, saved },
                    list[next as int],
                )
            } else {
                MoveView::LeaveBlock(saved)
            }
        },
        FrameView::Call { saved, closure, is_initializer } => MoveView::LeaveCall {
            saved,
            closure,
            is_initializer,
            value: ObjectView::Nil,
        },
        FrameView::If { stmt } => if stmt < ast.stmts.len() && ast.stmts[stmt as int] is If {
            if truthy(value) {
                MoveView::Execute(ast.stmts[stmt as int]->If_then_branch)
            } else {
                match ast.stmts[stmt as int]->If_else_branch {
                    Some(e) => MoveView::Execute(e),
                    None => MoveView::Give(ObjectView::Nil),
                }
            }
        } else {
            misfit()
        },
        FrameView::WhileCondition { stmt } => if stmt < ast.stmts.len() && ast.stmts[stmt as int]
            is While {
            if truthy(value) {
                MoveView::PushExecute(
                    FrameView::WhileBody { stmt },
                    ast.stmts[stmt as int]->While_body,
                )
            } else {
                MoveView::Give(ObjectView::Nil)
            }
        } else {
            misfit()
        },
        FrameView::WhileBody { stmt } => if stmt < ast.stmts.len() && ast.stmts[stmt as int]
            is While {
            MoveView::PushEvaluate(
                FrameView::WhileCondition { stmt },
                ast.stmts[stmt as int]->While_condition,
            )
        } else {
            misfit()
        },
        FrameView::Return => MoveView::Unwind(SignalView::Return(value)),
        FrameView::Superclass { stmt } => if stmt < ast.stmts.len() && ast.stmts[stmt as int]
            is Class {
            match value {
                ObjectView::Class(c) => MoveView::DeclareClass { stmt, superclass: Some(c) },
                _ => runtime_failure(
                    ast.stmts[stmt as int]->Class_name,
                    "Superclass must be a class"@,
                ),
            }
        } else {
            misfit()
        },
        FrameView::Program { stmts, next, saved } => if next < stmts.len() {
            MoveView::PushExecute(
                FrameView::Program { stmts, next: (next + 1) as usize, saved },
                stmts[next as int],
            )
        } else {
            MoveView::LeaveBlock(Some(saved))
        },
    }
}

fn misfit_move() -> (m: Move)
    ensures
        m@ == misfit(),
{
    system_fail("frame does not fit its node")
}

// The frame for the next statement of a sequence, or the move that leaves it.
fn next_in_sequence(ast: &Ast, stmt: usize, next: usize, saved: Option<usize>) -> (m: Move)
    ensures
        m@ == frame_move(ast@, FrameView::Sequence { stmt, next, saved }, ObjectView::Nil),
{
    if stmt < ast.stmt_count() {
        match ast.stmt(stmt) {
            Stmt::Block(block) => {
                if next < block.statements.len() {
                    return Move::PushExecute(
                        Frame::Sequence { stmt, next: next + 1, saved },
                        block.statements[next],
                    );
                }
            },
            Stmt::Function(function) => {
                if next < function.body.len() {
                    return Move::PushExecute(
                        Frame::Sequence { stmt, next: next + 1, saved },
                        function.body[next],
                    );
                }
            },
            _ => {},
        }
    }
    Move::LeaveBlock(saved)
}

/// What follows when `value` is given to `frame`.
pub fn resume(ast: &Ast, frame: Frame, value: Object) -> (m: Move)
    ensures
        m@ == frame_move(ast@, frame@, value@),
{
    match frame {
        Frame::Assign { expr } => {
            if expr < ast.expr_count() {
                if let Expr::Assign { name, .. } = ast.expr(expr) {
                    return Move::Assign { expr, name: name.clone(), value };
                }
            }
            misfit_move()
        },
        Frame::BinaryLeft { expr } => {
            if expr < ast.expr_count() {
                if let Expr::Binary { right, .. } = ast.expr(expr) {
                    return Move::PushEvaluate(Frame::BinaryRight { expr, left: value }, *right);
                }
            }
            misfit_move()
        },
        Frame::BinaryRight { expr, left } => {
            if expr < ast.expr_count() {
                if let Expr::Binary { operator, .. } = ast.expr(expr) {
                    return visit_binary_expr(operator, left, value);
                }
            }
            misfit_move()
        },
        Frame::Callee { expr } => {
            if expr < ast.expr_count() {
                if let Expr::Call { paren, arguments, .. } = ast.expr(expr) {
                    let done: Vec<Object> = Vec::new();
                    assert(objects_view(done@) =~= seq![]);
                    if arguments.len() == 0 {
                        return Move::Call { paren: paren.clone(), callee: value, arguments: done };
                    }
                    return Move::PushEvaluate(
                        Frame::Arguments { expr, callee: value, arguments: done },
                        arguments[0],
                    );
                }
            }
            misfit_move()
        },
        Frame::Arguments { expr, callee, arguments } => {
            if expr < ast.expr_count() {
                if let Expr::Call { paren, arguments: all, .. } = ast.expr(expr) {
                    let mut done = arguments;
                    let ghost before = objects_view(done@);
                    done.push(value);
                    assert(objects_view(done@) =~= before.push(value@));
                    if done.len() < all.len() {
                        let next = all[done.len()];
                        return Move::PushEvaluate(
                            Frame::Arguments { expr, callee, arguments: done },
                            next,
                        );
                    }
                    return Move::Call { paren: paren.clone(), callee, arguments: done };
                }
            }
            misfit_move()
        },
        Frame::Property { expr } => {
            if expr < ast.expr_count() {
                if let Expr::Get { name, .. } = ast.expr(expr) {
                    return Move::GetProperty { name: name.clone(), object: value };
                }
            }
            misfit_move()
        },
        Frame::Logical { expr } => {
            if expr < ast.expr_count() {
                if let Expr::Logical { operator, right, .. } = ast.expr(expr) {
                    return visit_logical_expr(operator, value, *right);
                }
            }
            misfit_move()
        },
        Frame::SetObject { expr } => {
            if expr < ast.expr_count() {
                if let Expr::SetProperty { name, value: source, .. } = ast.expr(expr) {
                    return match value {
                        Object::Instance(instance) => Move::PushEvaluate(
                            Frame::SetValue { expr, instance },
                            *source,
                        ),
                        _ => runtime_fail(name, "Only instances have fields"),
                    };
                }
            }
            misfit_move()
        },
        Frame::SetValue { expr, instance } => {
            if expr < ast.expr_count() {
                if let Expr::SetProperty { name, .. } = ast.expr(expr) {
                    return Move::SetField { instance, name: name.clone(), value };
                }
            }
            misfit_move()
        },
        Frame::Unary { expr } => {
            if expr < ast.expr_count() {
                if let Expr::Unary { operator, .. } = ast.expr(expr) {
                    return visit_unary_expr(operator, value);
                }
            }
            misfit_move()
        },
        Frame::Print => match value {
            Object::Number(n) => Move::Ask(Action::Format(n), Pending::Printable),
            _ => Move::Print(value),
        },
        Frame::Var { stmt } => {
            if stmt < ast.stmt_count() {
                if let Stmt::Var(var) = ast.stmt(stmt) {
                    return Move::Define { name: var.name.clone(), value };
                }
            }
            misfit_move()
        },
        Frame::Sequence { stmt, next, saved } => next_in_sequence(ast, stmt, next, saved),
        Frame::Call { saved, closure, is_initializer } => Move::LeaveCall {
            saved,
            closure,
            is_initializer,
            value: Object::Nil,
        },
        Frame::If { stmt } => {
            if stmt < ast.stmt_count() {
                if let Stmt::If(branch) = ast.stmt(stmt) {
                    return if value.is_truthy() {
                        Move::Execute(branch.then_branch)
                    } else {
                        match branch.else_branch {
                            Some(e) => Move::Execute(e),
                            None => Move::Give(Object::Nil),
                        }
                    };
                }
            }
            misfit_move()
        },
        Frame::WhileCondition { stmt } => {
            if stmt < ast.stmt_count() {
                if let Stmt::While(repeat) = ast.stmt(stmt) {
                    return if value.is_truthy() {
                        Move::PushExecute(Frame::WhileBody { stmt }, repeat.body)
                    } else {
                        Move::Give(Object::Nil)
                    };
                }
            }
            misfit_move()
        },
        Frame::WhileBody { stmt } => {
            if stmt < ast.stmt_count() {
                if let Stmt::While(repeat) = ast.stmt(stmt) {
                    return Move::PushEvaluate(Frame::WhileCondition { stmt }, repeat.condition);
                }
            }
            misfit_move()
        },
        Frame::Return => Move::Unwind(Signal::Return(value)),
        Frame::Superclass { stmt } => {
            if stmt < ast.stmt_count() {
                if let Stmt::Class(class) = ast.stmt(stmt) {
                    return match value {
                        Object::Class(c) => Move::DeclareClass { stmt, superclass: Some(c) },
                        _ => runtime_fail(&class.name, "Superclass must be a class"),
                    };
                }
            }
            misfit_move()
        },
        Frame::Program { stmts, next, saved } => {
            if next < stmts.len() {
                let s = stmts[next];
                Move::PushExecute(Frame::Program { stmts, next: next + 1, saved }, s)
            } else {
                Move::LeaveBlock(Some(saved))
            }
        },
    }
}

/// What a frame does with a signal that unwinds the stack.
#[derive(Debug, PartialEq, Eq)]
pub enum Caught {
    /// The signal goes on to the next frame, after the scope that the frame
    /// had saved, if any, has been restored.
    Passed(Option<usize>, Signal),
    /// The signal stops here, and this is what follows.
    Stopped(Move),
}

/// Mathematical model of a [`Caught`].
pub enum CaughtView {
    Passed(Option<usize>, SignalView),
    Stopped(MoveView),
}

impl View for Caught {
    type V = CaughtView;

    open spec fn view(&self) -> CaughtView {
        match self {
            Caught::Passed(saved, signal) => CaughtView::Passed(*saved, signal@),
            Caught::Stopped(m) => CaughtView::Stopped(m@),
        }
    }
}

/// What `frame` does with `signal`: a loop stops a `break`, a call stops a
/// `return`, nothing stops an error. Frames that saved a scope restore it.
pub open spec fn frame_catch(frame: FrameView, signal: SignalView) -> CaughtView {
    match (frame, signal) {
        (FrameView::WhileBody { .. }, SignalView::Break) => CaughtView::Stopped(
            MoveView::Give(ObjectView::Nil),
        ),
        (
            FrameView::Call { saved, closure, is_initializer },
            SignalView::Return(value),
        ) => CaughtView::Stopped(MoveView::LeaveCall { saved, closure, is_initializer, value }),
        (FrameView::Call { saved, .. }, _) => CaughtView::Passed(Some(saved), signal),
        (FrameView::Sequence { saved, .. }, _) => CaughtView::Passed(saved, signal),
        (FrameView::Program { saved, .. }, _) => CaughtView::Passed(Some(saved), signal),
        _ => CaughtView::Passed(None, signal),
    }
}

/// What `frame` does with `signal`.
pub fn catch(frame: Frame, signal: Signal) -> (c: Caught)
    ensures
        c@ == frame_catch(frame@, signal@),
{
    match (frame, signal) {
        (Frame::WhileBody { .. }, Signal::Break) => Caught::Stopped(Move::Give(Object::Nil)),
        (Frame::Call { saved, closure, is_initializer }, Signal::Return(value)) => Caught::Stopped(
            Move::LeaveCall { saved, closure, is_initializer, value },
        ),
        (Frame::Call { saved, .. }, signal) => Caught::Passed(Some(saved), signal),
        (Frame::Sequence { saved, .. }, signal) => Caught::Passed(saved, signal),
        (Frame::Program { saved, .. }, signal) => Caught::Passed(Some(saved), signal),
        (_, signal) => Caught::Passed(None, signal),
    }
}

/// What follows from the host's answer `event` to what was `pending`. An
/// answer of the wrong kind is a fault; the failure of the host is a system
/// error with the host's message.
pub open spec fn answer_move(pending: PendingView, event: EventView) -> MoveView {
    match (pending, event) {
        (_, EventView::Failed(message)) => system_failure(message),
        (PendingView::Number, EventView::Number(n)) => MoveView::Give(ObjectView::Number(n)),
        (PendingView::Bool, EventView::Bool(b)) => MoveView::Give(ObjectView::Bool(b)),
        (PendingView::Joined { before, behind }, EventView::Text(text)) => MoveView::Give(
            ObjectView::Str(before + text + behind),
        ),
        (PendingView::Printable, EventView::Text(text)) => MoveView::Ask(
            ActionView::Print(text),
            PendingView::Printed,
        ),
        (PendingView::Printed, EventView::Resume) => MoveView::Give(ObjectView::Nil),
        (PendingView::Repeat { text }, EventView::Count(n)) => MoveView::Give(
            ObjectView::Str(crate::object::repeated(text, n as nat)),
        ),
        _ => system_failure("unexpected answer from the host"@),
    }
}

/// What follows from the host's answer `event` to what was `pending`.
pub fn answer(pending: Pending, event: Event) -> (m: Move)
    ensures
        m@ == answer_move(pending@, event@),
{
    match (pending, event) {
        (_, Event::Failed(message)) => Move::Unwind(
            Signal::Error(LoxResult::SystemError { message }),
        ),
        (Pending::Number, Event::Number(n)) => Move::Give(Object::Number(n)),
        (Pending::Bool, Event::Bool(b)) => Move::Give(Object::Bool(b)),
        (Pending::Joined { before, behind }, Event::Text(text)) => {
            let mut joined = before;
            joined.append(text.as_str());
            joined.append(behind.as_str());
            Move::Give(Object::Str(joined))
        },
        (Pending::Printable, Event::Text(text)) => Move::Ask(Action::Print(text), Pending::Printed),
        (Pending::Printed, Event::Resume) => Move::Give(Object::Nil),
        (Pending::Repeat { text }, Event::Count(n)) => Move::Give(
            Object::Str(crate::object::repeat(&text, n)),
        ),
        _ => system_fail("unexpected answer from the host"),
    }
}

} // verus!
