//! Expressions. A syntax tree lives in an arena ([`crate::ast::Ast`]); a node
//! names its children by their indices, which also give every node the
//! identity under which the resolver records it.

use vstd::prelude::*;
use crate::token::{Literal, LiteralView, Token, TokenView};

verus! {

/// An expression node.
#[allow(inconsistent_fields)]
#[derive(Debug)]
pub enum Expr {
    Assign { name: Token, value: usize },
    Binary { left: usize, operator: Token, right: usize },
    Call { callee: usize, paren: Token, arguments: Vec<usize> },
    Get { object: usize, name: Token },
    Grouping { expression: usize },
    Literal { value: Literal },
    Logical { left: usize, operator: Token, right: usize },
    SetProperty { object: usize, name: Token, value: usize },
    This { keyword: Token },
    Super { keyword: Token, method: Token },
    Unary { operator: Token, right: usize },
    Variable { name: Token },
}

/// Mathematical model of an [`Expr`].
#[allow(inconsistent_fields)]
pub enum ExprView {
    Assign { name: TokenView, value: usize },
    Binary { left: usize, operator: TokenView, right: usize },
    Call { callee: usize, paren: TokenView, arguments: Seq<usize> },
    Get { object: usize, name: TokenView },
    Grouping { expression: usize },
    Literal { value: LiteralView },
    Logical { left: usize, operator: TokenView, right: usize },
    SetProperty { object: usize, name: TokenView, value: usize },
    This { keyword: TokenView },
    Super { keyword: TokenView, method: TokenView },
    Unary { operator: TokenView, right: usize },
    Variable { name: TokenView },
}

impl View for Expr {
    type V = ExprView;

    open spec fn view(&self) -> ExprView {
        match self {
            Expr::Assign { name, value } => ExprView::Assign { name: name@, value: *value },
            Expr::Binary { left, operator, right } => ExprView::Binary {
                left: *left,
                operator: operator@,
                right: *right,
            },
            Expr::Call { callee, paren, arguments } => ExprView::Call {
                callee: *callee,
                paren: paren@,
                arguments: arguments@,
            },
            Expr::Get { object, name } => ExprView::Get { object: *object, name: name@ },
            Expr::Grouping { expression } => ExprView::Grouping { expression: *expression },
            Expr::Literal { value } => ExprView::Literal { value: value@ },
            Expr::Logical { left, operator, right } => ExprView::Logical {
                left: *left,
                operator: operator@,
                right: *right,
            },
            Expr::SetProperty { object, name, value } => ExprView::SetProperty {
                object: *object,
                name: name@,
                value: *value,
            },
            Expr::This { keyword } => ExprView::This { keyword: keyword@ },
            Expr::Super { keyword, method } => ExprView::Super {
                keyword: keyword@,
                method: method@,
            },
            Expr::Unary { operator, right } => ExprView::Unary {
                operator: operator@,
                right: *right,
            },
            Expr::Variable { name } => ExprView::Variable { name: name@ },
        }
    }
}

impl ExprView {
    /// Whether every child of this node has an index below `bound`.
    pub open spec fn children_below(self, bound: int) -> bool {
        match self {
            ExprView::Assign { value, .. } => value < bound,
            ExprView::Binary { left, right, .. } => left < bound && right < bound,
            ExprView::Call { callee, arguments, .. } => callee < bound && forall|i: int|
                0 <= i < arguments.len() ==> #[trigger] arguments[i] < bound,
            ExprView::Get { object, .. } => object < bound,
            ExprView::Grouping { expression } => expression < bound,
            ExprView::Literal { .. } => true,
            ExprView::Logical { left, right, .. } => left < bound && right < bound,
            ExprView::SetProperty { object, value, .. } => object < bound && value < bound,
            ExprView::This { .. } => true,
            ExprView::Super { .. } => true,
            ExprView::Unary { right, .. } => right < bound,
            ExprView::Variable { .. } => true,
        }
    }
}

/// Views of a sequence of expression nodes, element by element.
pub open spec fn exprs_view(exprs: Seq<Expr>) -> Seq<ExprView> {
    exprs.map_values(|e: Expr| e@)
}

} // verus!
