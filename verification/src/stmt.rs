//! Statements. Like expressions they live in the arena and name their parts
//! by index.

use vstd::prelude::*;
use crate::token::{Token, TokenView, tokens_view};

verus! {

pub struct BlockStmt {
    pub statements: Vec<usize>,
}

pub struct ClassStmt {
    pub name: Token,
    /// The `Variable` expression that names the superclass.
    pub superclass: Option<usize>,
    /// The methods, each a `Function` statement.
    pub methods: Vec<usize>,
}

pub struct ExpressionStmt {
    pub expression: usize,
}

pub struct FunctionStmt {
    pub name: Token,
    pub params: Vec<Token>,
    pub body: Vec<usize>,
}

pub struct IfStmt {
    pub condition: usize,
    pub then_branch: usize,
    pub else_branch: Option<usize>,
}

pub struct PrintStmt {
    pub expression: usize,
}

pub struct ReturnStmt {
    pub keyword: Token,
    pub value: Option<usize>,
}

pub struct VarStmt {
    pub name: Token,
    pub initializer: Option<usize>,
}

pub struct WhileStmt {
    pub condition: usize,
    pub body: usize,
}

pub struct BreakStmt {
    pub token: Token,
}

/// A statement node.
pub enum Stmt {
    Block(BlockStmt),
    Class(ClassStmt),
    Expression(ExpressionStmt),
    Function(FunctionStmt),
    If(IfStmt),
    Print(PrintStmt),
    Return(ReturnStmt),
    Var(VarStmt),
    While(WhileStmt),
    Break(BreakStmt),
}

/// Mathematical model of a [`Stmt`].
#[allow(inconsistent_fields)]
pub enum StmtView {
    Block { statements: Seq<usize> },
    Class { name: TokenView, superclass: Option<usize>, methods: Seq<usize> },
    Expression { expression: usize },
    Function { name: TokenView, params: Seq<TokenView>, body: Seq<usize> },
    If { condition: usize, then_branch: usize, else_branch: Option<usize> },
    Print { expression: usize },
    Return { keyword: TokenView, value: Option<usize> },
    Var { name: TokenView, initializer: Option<usize> },
    While { condition: usize, body: usize },
    Break { token: TokenView },
}

impl View for Stmt {
    type V = StmtView;

    open spec fn view(&self) -> StmtView {
        match self {
            Stmt::Block(s) => StmtView::Block { statements: s.statements@ },
            Stmt::Class(s) => StmtView::Class {
                name: s.name@,
                superclass: s.superclass,
                methods: s.methods@,
            },
            Stmt::Expression(s) => StmtView::Expression { expression: s.expression },
            Stmt::Function(s) => StmtView::Function {
                name: s.name@,
                params: tokens_view(s.params@),
                body: s.body@,
            },
            Stmt::If(s) => StmtView::If {
                condition: s.condition,
                then_branch: s.then_branch,
                else_branch: s.else_branch,
            },
            Stmt::Print(s) => StmtView::Print { expression: s.expression },
            Stmt::Return(s) => StmtView::Return { keyword: s.keyword@, value: s.value },
            Stmt::Var(s) => StmtView::Var { name: s.name@, initializer: s.initializer },
            Stmt::While(s) => StmtView::While { condition: s.condition, body: s.body },
            Stmt::Break(s) => StmtView::Break { token: s.token@ },
        }
    }
}

/// Whether every index in `ids` is below `bound`.
pub open spec fn all_below(ids: Seq<usize>, bound: int) -> bool {
    forall|i: int| 0 <= i < ids.len() ==> #[trigger] ids[i] < bound
}

/// Whether an optional index is below `bound`.
pub open spec fn option_below(id: Option<usize>, bound: int) -> bool {
    match id {
        Some(i) => i < bound,
        None => true,
    }
}

impl StmtView {
    /// Whether every statement that is part of this one has an index below
    /// `stmts`, and every expression an index below `exprs`.
    pub open spec fn children_below(self, stmts: int, exprs: int) -> bool {
        match self {
            StmtView::Block { statements } => all_below(statements, stmts),
            StmtView::Class { superclass, methods, .. } => option_below(superclass, exprs)
                && all_below(methods, stmts),
            StmtView::Expression { expression } => expression < exprs,
            StmtView::Function { body, .. } => all_below(body, stmts),
            StmtView::If { condition, then_branch, else_branch } => condition < exprs
                && then_branch < stmts && option_below(else_branch, stmts),
            StmtView::Print { expression } => expression < exprs,
            StmtView::Return { value, .. } => option_below(value, exprs),
            StmtView::Var { initializer, .. } => option_below(initializer, exprs),
            StmtView::While { condition, body } => condition < exprs && body < stmts,
            StmtView::Break { .. } => true,
        }
    }
}

/// Views of a sequence of statement nodes, element by element.
pub open spec fn stmts_view(stmts: Seq<Stmt>) -> Seq<StmtView> {
    stmts.map_values(|s: Stmt| s@)
}

} // verus!
