//! The arena that holds a program's syntax tree.

use vstd::prelude::*;
use crate::expr::{Expr, ExprView, exprs_view};
use crate::stmt::{Stmt, StmtView, stmts_view};

verus! {

/// The nodes of a program: expressions and statements, each known by its
/// index. Nodes are only ever added, so an index stays valid, and a node's
/// parts always come before it.
pub struct Ast {
    exprs: Vec<Expr>,
    stmts: Vec<Stmt>,
}

/// Mathematical model of an [`Ast`].
pub struct AstView {
    pub exprs: Seq<ExprView>,
    pub stmts: Seq<StmtView>,
}

impl AstView {
    /// Every node's parts have smaller indices than the node (an expression
    /// inside a statement: an index within the arena).
    #[verifier::opaque]
    pub open spec fn wf(self) -> bool {
        &&& forall|i: int|
            0 <= i < self.exprs.len() ==> (#[trigger] self.exprs[i]).children_below(i)
        &&& forall|i: int|
            0 <= i < self.stmts.len() ==> (#[trigger] self.stmts[i]).children_below(
                i,
                self.exprs.len() as int,
            )
    }
}

impl View for Ast {
    type V = AstView;

    closed spec fn view(&self) -> AstView {
        AstView { exprs: exprs_view(self.exprs@), stmts: stmts_view(self.stmts@) }
    }
}

impl Ast {
    /// An empty arena.
    pub fn new() -> (a: Ast)
        ensures
            a@.exprs.len() == 0,
            a@.stmts.len() == 0,
            a@.wf(),
    {
        let a = Ast { exprs: Vec::new(), stmts: Vec::new() };
        proof {
            reveal(AstView::wf);
        }
        a
    }

    /// The number of expression nodes.
    pub fn expr_count(&self) -> (n: usize)
        ensures
            n == self@.exprs.len(),
    {
        self.exprs.len()
    }

    /// The number of statement nodes.
    pub fn stmt_count(&self) -> (n: usize)
        ensures
            n == self@.stmts.len(),
    {
        self.stmts.len()
    }

    /// The expression with index `id`.
    pub fn expr(&self, id: usize) -> (e: &Expr)
        requires
            id < self@.exprs.len(),
        ensures
            e@ == self@.exprs[id as int],
    {
        &self.exprs[id]
    }

    /// The statement with index `id`.
    pub fn stmt(&self, id: usize) -> (s: &Stmt)
        requires
            id < self@.stmts.len(),
        ensures
            s@ == self@.stmts[id as int],
    {
        &self.stmts[id]
    }

    /// The parts of a node in the arena are in the arena.
    pub proof fn lemma_parts_below(&self, id: usize)
        requires
            self@.wf(),
            id < self@.exprs.len(),
        ensures
            self@.exprs[id as int].children_below(id as int),
    {
        reveal(AstView::wf);
    }

    /// The parts of a statement in the arena are in the arena.
    pub proof fn lemma_stmt_parts_below(&self, id: usize)
        requires
            self@.wf(),
            id < self@.stmts.len(),
        ensures
            self@.stmts[id as int].children_below(id as int, self@.exprs.len() as int),
    {
        reveal(AstView::wf);
    }

    /// Adds an expression whose parts are in the arena; returns its index.
    pub fn push_expr(&mut self, e: Expr) -> (id: usize)
        requires
            old(self)@.wf(),
            e@.children_below(old(self)@.exprs.len() as int),
        ensures
            final(self)@.wf(),
            id == old(self)@.exprs.len(),
            final(self)@.exprs == old(self)@.exprs.push(e@),
            final(self)@.stmts == old(self)@.stmts,
    {
        proof {
            reveal(AstView::wf);
        }
        let id = self.exprs.len();
        self.exprs.push(e);
        assert(exprs_view(self.exprs@) =~= exprs_view(old(self).exprs@).push(e@));
        assert forall|i: int| 0 <= i < self@.exprs.len() implies (#[trigger] self@.exprs[i])
            .children_below(i) by {
            if i < old(self)@.exprs.len() {
                assert(self@.exprs[i] == old(self)@.exprs[i]);
            }
        }
        assert forall|i: int| 0 <= i < self@.stmts.len() implies (#[trigger] self@.stmts[i])
            .children_below(i, self@.exprs.len() as int) by {
            assert(old(self)@.stmts[i].children_below(i, old(self)@.exprs.len() as int));
        }
        id
    }

    /// Adds a statement whose parts are in the arena; returns its index.
    pub fn push_stmt(&mut self, s: Stmt) -> (id: usize)
        requires
            old(self)@.wf(),
            s@.children_below(old(self)@.stmts.len() as int, old(self)@.exprs.len() as int),
        ensures
            final(self)@.wf(),
            id == old(self)@.stmts.len(),
            final(self)@.stmts == old(self)@.stmts.push(s@),
            final(self)@.exprs == old(self)@.exprs,
    {
        proof {
            reveal(AstView::wf);
        }
        let id = self.stmts.len();
        self.stmts.push(s);
        assert(stmts_view(self.stmts@) =~= stmts_view(old(self).stmts@).push(s@));
        assert forall|i: int| 0 <= i < self@.stmts.len() implies (#[trigger] self@.stmts[i])
            .children_below(i, self@.exprs.len() as int) by {
            if i < old(self)@.stmts.len() {
                assert(self@.stmts[i] == old(self)@.stmts[i]);
            }
        }
        id
    }
}

} // verus!
