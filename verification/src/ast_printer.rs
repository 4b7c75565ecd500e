//! A printer that shows an expression in prefix form, fully parenthesized.

use vstd::prelude::*;
use vstd::string::*;
use crate::ast::{Ast, AstView};
use crate::binding::expr_ok;
use crate::error::LoxResult;
use crate::expr::{Expr, ExprView};
use crate::token::{Literal, LiteralView};

verus! {

/// The printer.
#[derive(Default)]
pub struct AstPrinter {}

/// The text of a literal: a number as it was written.
pub open spec fn literal_text(literal: LiteralView) -> Seq<char> {
    match literal {
        LiteralView::Identifier(s) => s,
        LiteralView::Str(s) => s,
        LiteralView::Number(s) => s,
        LiteralView::Bool(b) => if b {
            "true"@
        } else {
            "false"@
        },
        LiteralView::Nil => "nil"@,
    }
}

/// The expression `e` in prefix form: `(operator operand ...)`, a grouping
/// as `(group ...)`, a literal or a name as itself.
#[verifier::opaque]
pub open spec fn printed(ast: AstView, e: usize) -> Seq<char>
    decreases e, 2nat, 0nat,
{
    if !expr_ok(ast, e) {
        seq![]
    } else {
        match ast.exprs[e as int] {
            ExprView::Assign { name, value } => parenthesized(
                ast,
                "= "@ + name.lexeme,
                seq![value],
                e,
            ),
            ExprView::Binary { left, operator, right } => parenthesized(
                ast,
                operator.lexeme,
                seq![left, right],
                e,
            ),
            ExprView::Call { callee, arguments, .. } => parenthesized(
                ast,
                "call"@,
                seq![callee] + arguments,
                e,
            ),
            ExprView::Get { object, name } => parenthesized(
                ast,
                ". "@ + name.lexeme,
                seq![object],
                e,
            ),
            ExprView::Grouping { expression } => parenthesized(
                ast,
                "group"@,
                seq![expression],
                e,
            ),
            ExprView::Literal { value } => literal_text(value),
            ExprView::Logical { left, operator, right } => parenthesized(
                ast,
                operator.lexeme,
                seq![left, right],
                e,
            ),
            ExprView::SetProperty { object, name, value } => parenthesized(
                ast,
                "= "@ + name.lexeme,
                seq![object, value],
                e,
            ),
            ExprView::This { keyword } => keyword.lexeme,
            ExprView::Super { keyword, method } => "(super "@ + method.lexeme + ")"@,
            ExprView::Unary { operator, right } => parenthesized(
                ast,
                operator.lexeme,
                seq![right],
                e,
            ),
            ExprView::Variable { name } => name.lexeme,
        }
    }
}

/// The operands `ids[i..]`, parts of the node `bound`, each behind a space.
#[verifier::opaque]
pub open spec fn printed_operands(ast: AstView, ids: Seq<usize>, i: int, bound: usize) -> Seq<char>
    decreases bound, 0nat, ids.len() - i,
{
    if i < 0 || i >= ids.len() || ids[i] >= bound {
        seq![]
    } else {
        " "@ + printed(ast, ids[i]) + printed_operands(ast, ids, i + 1, bound)
    }
}

/// `(name operand ...)` for the operands `ids`, parts of the node `bound`.
#[verifier::opaque]
pub open spec fn parenthesized(ast: AstView, name: Seq<char>, ids: Seq<usize>, bound: usize)
    -> Seq<char>
    decreases bound, 1nat, 0nat,
{
    "("@ + name + printed_operands(ast, ids, 0, bound) + ")"@
}

fn literal_string(literal: &Literal) -> (s: String)
    ensures
        s@ == literal_text(literal@),
{
    match literal {
        Literal::Identifier(s) => s.clone(),
        Literal::Str(s) => s.clone(),
        Literal::Number(s) => s.clone(),
        Literal::Bool(b) => {
            if *b {
                String::from_str("true")
            } else {
                String::from_str("false")
            }
        },
        Literal::Nil => String::from_str("nil"),
    }
}

fn pair(a: usize, b: usize) -> (v: Vec<usize>)
    ensures
        v@ == seq![a, b],
{
    let mut v: Vec<usize> = Vec::new();
    v.push(a);
    v.push(b);
    assert(v@ =~= seq![a, b]);
    v
}

fn single(a: usize) -> (v: Vec<usize>)
    ensures
        v@ == seq![a],
{
    let mut v: Vec<usize> = Vec::new();
    v.push(a);
    assert(v@ =~= seq![a]);
    v
}

fn prefixed(prefix: &str, name: &String) -> (s: String)
    ensures
        s@ == prefix@ + name@,
{
    let mut s = String::from_str(prefix);
    s.append(name.as_str());
    s
}

impl AstPrinter {
    /// The expression `expr` of `ast` in prefix form.
    pub fn print(&self, ast: &Ast, expr: usize) -> (r: Result<String, LoxResult>)
        requires
            ast@.wf(),
            expr < ast@.exprs.len(),
        ensures
            r matches Ok(s) && s@ == printed(ast@, expr),
        decreases expr, 2nat, 0nat,
    {
        proof {
            reveal(printed);
            reveal(parenthesized);
            ast.lemma_parts_below(expr);
        }
        match ast.expr(expr) {
            Expr::Assign { name, value } => self.paranthesize(
                ast,
                prefixed("= ", &name.lexeme),
                &single(*value),
                expr,
            ),
            Expr::Binary { left, operator, right } => self.paranthesize(
                ast,
                operator.lexeme.clone(),
                &pair(*left, *right),
                expr,
            ),
            Expr::Call { callee, arguments, .. } => {
                let mut operands = single(*callee);
                let mut i: usize = 0;
                assert(ast@.exprs[expr as int] matches ExprView::Call { callee: c, arguments: a, .. }
                    && a == arguments@ && c == *callee);
                assert(ast@.exprs[expr as int].children_below(expr as int));
                assert(crate::stmt::all_below(arguments@, expr as int));
                while i < arguments.len()
                    invariant
                        i <= arguments.len(),
                        *callee < expr,
                        crate::stmt::all_below(arguments@, expr as int),
                        operands@ == seq![*callee] + arguments@.subrange(0, i as int),
                    decreases arguments.len() - i,
                {
                    operands.push(arguments[i]);
                    i += 1;
                    assert(operands@ =~= seq![*callee] + arguments@.subrange(0, i as int));
                }
                assert(arguments@.subrange(0, i as int) =~= arguments@);
                assert forall|j: int| 0 <= j < operands@.len() implies #[trigger] operands@[j]
                    < expr by {
                    if j > 0 {
                        assert(operands@[j] == arguments@[j - 1]);
                    } else {
                        assert(operands@[j] == *callee);
                    }
                }
                self.paranthesize(ast, String::from_str("call"), &operands, expr)
            },
            Expr::Get { object, name } => self.paranthesize(
                ast,
                prefixed(". ", &name.lexeme),
                &single(*object),
                expr,
            ),
            Expr::Grouping { expression } => self.paranthesize(
                ast,
                String::from_str("group"),
                &single(*expression),
                expr,
            ),
            Expr::Literal { value } => Ok(literal_string(value)),
            Expr::Logical { left, operator, right } => self.paranthesize(
                ast,
                operator.lexeme.clone(),
                &pair(*left, *right),
                expr,
            ),
            Expr::SetProperty { object, name, value } => self.paranthesize(
                ast,
                prefixed("= ", &name.lexeme),
                &pair(*object, *value),
                expr,
            ),
            Expr::This { keyword } => Ok(keyword.lexeme.clone()),
            Expr::Super { method, .. } => {
                let mut s = String::from_str("(super ");
                s.append(method.lexeme.as_str());
                s.append(")");
                Ok(s)
            },
            Expr::Unary { operator, right } => self.paranthesize(
                ast,
                operator.lexeme.clone(),
                &single(*right),
                expr,
            ),
            Expr::Variable { name } => Ok(name.lexeme.clone()),
        }
    }

    /// `(name operand ...)` for the operands `exprs`, which are parts of the
    /// expression `bound`.
    pub fn paranthesize(&self, ast: &Ast, name: String, exprs: &Vec<usize>, bound: usize) -> (r:
        Result<String, LoxResult>)
        requires
            ast@.wf(),
            bound < ast@.exprs.len(),
            crate::stmt::all_below(exprs@, bound as int),
        ensures
            r matches Ok(s) && s@ == parenthesized(ast@, name@, exprs@, bound),
        decreases bound, 1nat, 0nat,
    {
        proof {
            reveal(parenthesized);
            reveal(printed_operands);
        }
        let mut builder = String::from_str("(");
        builder.append(name.as_str());
        let mut i: usize = 0;
        while i < exprs.len()
            invariant
                ast@.wf(),
                bound < ast@.exprs.len(),
                crate::stmt::all_below(exprs@, bound as int),
                i <= exprs.len(),
                builder@ + printed_operands(ast@, exprs@, i as int, bound) == "("@ + name@
                    + printed_operands(ast@, exprs@, 0, bound),
            decreases exprs.len() - i,
        {
            proof {
                reveal(printed_operands);
                reveal(printed);
            }
            let ghost before = builder@;
            let operand = match self.print(ast, exprs[i]) {
                Ok(s) => s,
                Err(e) => {
                    return Err(e);
                },
            };
            builder.append(" ");
            builder.append(operand.as_str());
            assert(builder@ + printed_operands(ast@, exprs@, i + 1, bound) =~= before
                + printed_operands(ast@, exprs@, i as int, bound));
            i += 1;
        }
        proof {
            reveal(printed_operands);
            assert(printed_operands(ast@, exprs@, i as int, bound) =~= seq![]);
            assert(builder@ =~= "("@ + name@ + printed_operands(ast@, exprs@, 0, bound));
        }
        builder.append(")");
        Ok(builder)
    }
}

} // verus!
