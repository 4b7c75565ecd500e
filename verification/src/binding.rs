//! Static scoping, as a function on the syntax tree: which scope each use of
//! a variable is bound in, and which uses are errors.

use vstd::prelude::*;
use crate::ast::AstView;
use crate::error::LoxResultView;
use crate::expr::ExprView;
use crate::names::find_name;
use crate::stmt::StmtView;
use crate::token::TokenView;

verus! {

/// The kind of function whose body is being resolved.
#[derive(PartialEq, Eq, Structural, Clone, Copy, Debug)]
pub enum FunctionType {
    /// Outside every function.
    Toplevel,
    Function,
    Method,
    Initializer,
}

/// The kind of class whose body is being resolved.
#[derive(PartialEq, Eq, Structural, Clone, Copy, Debug)]
pub enum ClassType {
    /// Outside every class.
    Toplevel,
    Class,
    Subclass,
}

/// One scope: the names declared in it, each with whether its initializer
/// has been resolved (`true`: defined). No name occurs twice.
pub struct ScopeView {
    pub names: Seq<Seq<char>>,
    pub defined: Seq<bool>,
}

/// The state of the resolver.
pub struct Resolution {
    /// The scopes that are open, innermost last. The global scope is not
    /// among them.
    pub scopes: Seq<ScopeView>,
    pub in_loop: bool,
    pub function: FunctionType,
    pub class: ClassType,
    /// The errors reported, in order.
    pub errors: Seq<LoxResultView>,
    /// The side table: each resolved expression with the number of scopes
    /// between its use and its binding, in the order resolved.
    pub locals: Seq<(usize, usize)>,
}

/// Whether `name` is declared in `scope`, and if so whether it is defined.
pub open spec fn scope_get(scope: ScopeView, name: Seq<char>) -> Option<bool> {
    match find_name(scope.names, name, 0) {
        Some(i) => Some(scope.defined[i]),
        None => None,
    }
}

/// `scope` with `name` declared, and defined if `defined`.
pub open spec fn scope_put(scope: ScopeView, name: Seq<char>, defined: bool) -> ScopeView {
    match find_name(scope.names, name, 0) {
        Some(i) => ScopeView { names: scope.names, defined: scope.defined.update(i, defined) },
        None => ScopeView {
            names: scope.names.push(name),
            defined: scope.defined.push(defined),
        },
    }
}

/// The number of scopes, counted from `d`, between the innermost scope and
/// the innermost scope that declares `name`; none if no scope does.
pub open spec fn depth_from(scopes: Seq<ScopeView>, name: Seq<char>, d: int) -> Option<usize>
    decreases scopes.len() - d,
{
    if d < 0 || d >= scopes.len() {
        None
    } else if scope_get(scopes[scopes.len() - 1 - d], name) is Some {
        Some(d as usize)
    } else {
        depth_from(scopes, name, d + 1)
    }
}

impl Resolution {
    /// The state before anything is resolved.
    pub open spec fn start() -> Resolution {
        Resolution {
            scopes: seq![],
            in_loop: false,
            function: FunctionType::Toplevel,
            class: ClassType::Toplevel,
            errors: seq![],
            locals: seq![],
        }
    }

    pub open spec fn with_scopes(self, scopes: Seq<ScopeView>) -> Resolution {
        Resolution { scopes, ..self }
    }

    /// A new innermost scope.
    pub open spec fn begin_scope(self) -> Resolution {
        self.with_scopes(self.scopes.push(ScopeView { names: seq![], defined: seq![] }))
    }

    /// Without the innermost scope.
    pub open spec fn end_scope(self) -> Resolution {
        if self.scopes.len() > 0 {
            self.with_scopes(self.scopes.drop_last())
        } else {
            self
        }
    }

    /// With one more error, at `token`.
    pub open spec fn error(self, token: TokenView, message: Seq<char>) -> Resolution {
        Resolution {
            errors: self.errors.push(LoxResultView::ResolveError { token, message }),
            ..self
        }
    }

    /// Declares the name of `token` in the innermost scope, not yet defined.
    /// Declaring a name twice in one scope is an error. Outside all scopes
    /// nothing is recorded: globals are looked up by name.
    pub open spec fn declare(self, token: TokenView) -> Resolution {
        if self.scopes.len() == 0 {
            self
        } else {
            let top = self.scopes.last();
            let checked = if scope_get(top, token.lexeme) is Some {
                self.error(token, "A variable with the same name already exists in this scope"@)
            } else {
                self
            };
            checked.with_scopes(
                self.scopes.update(self.scopes.len() - 1, scope_put(top, token.lexeme, false)),
            )
        }
    }

    /// Marks `name` as defined in the innermost scope.
    pub open spec fn define(self, name: Seq<char>) -> Resolution {
        if self.scopes.len() == 0 {
            self
        } else {
            self.with_scopes(
                self.scopes.update(
                    self.scopes.len() - 1,
                    scope_put(self.scopes.last(), name, true),
                ),
            )
        }
    }

    /// Binds the use `expr` of `name` to the innermost scope that declares
    /// it; a name that no scope declares is left to the globals.
    pub open spec fn resolve_local(self, expr: usize, name: Seq<char>) -> Resolution {
        match depth_from(self.scopes, name, 0) {
            Some(d) => Resolution { locals: self.locals.push((expr, d)), ..self },
            None => self,
        }
    }

    /// A variable is read: inside its own initializer that is an error.
    pub open spec fn variable(self, expr: usize, name: TokenView) -> Resolution {
        if self.scopes.len() > 0 && scope_get(self.scopes.last(), name.lexeme) == Some(false) {
            self.error(name, "Can't read local variable in its own initializer"@)
        } else {
            self.resolve_local(expr, name.lexeme)
        }
    }

    /// `this` is used: outside a class that is an error.
    pub open spec fn this(self, expr: usize, keyword: TokenView) -> Resolution {
        if self.class == ClassType::Toplevel {
            self.error(keyword, "Can't use 'this' outside of a class."@)
        } else {
            self.resolve_local(expr, keyword.lexeme)
        }
    }

    /// `super` is used: outside a subclass that is an error.
    pub open spec fn superclass(self, expr: usize, keyword: TokenView) -> Resolution {
        if self.class == ClassType::Toplevel {
            self.error(keyword, "Can't use 'super' outside of a class."@)
        } else if self.class != ClassType::Subclass {
            self.error(keyword, "Can't use 'super' in a class with no superclass."@)
        } else {
            self.resolve_local(expr, keyword.lexeme)
        }
    }

    /// `break` is met: outside a loop that is an error.
    pub open spec fn break_check(self, token: TokenView) -> Resolution {
        if !self.in_loop {
            self.error(token, "break statements are not allowed here"@)
        } else {
            self
        }
    }

    /// `return` is met: outside a function that is an error, and so is
    /// returning a value from an initializer.
    pub open spec fn return_check(self, keyword: TokenView, has_value: bool) -> Resolution {
        let placed = if self.function == FunctionType::Toplevel {
            self.error(keyword, "Can't return from top-level code"@)
        } else {
            self
        };
        if has_value && self.function == FunctionType::Initializer {
            placed.error(keyword, "Can't return a value from an initializer"@)
        } else {
            placed
        }
    }
}

/// Whether the expression `e` is in the arena with its parts before it.
pub open spec fn expr_ok(ast: AstView, e: usize) -> bool {
    e < ast.exprs.len() && ast.exprs[e as int].children_below(e as int)
}

/// Whether the statement `s` is in the arena with its parts before it.
pub open spec fn stmt_ok(ast: AstView, s: usize) -> bool {
    s < ast.stmts.len() && ast.stmts[s as int].children_below(s as int, ast.exprs.len() as int)
}

/// The state after the expression `e` has been resolved.
#[verifier::opaque]
pub open spec fn resolve_expr(ast: AstView, e: usize, st: Resolution) -> Resolution
    decreases e, 1nat, 0nat,
{
    if !expr_ok(ast, e) {
        st
    } else {
        match ast.exprs[e as int] {
            ExprView::Assign { name, value } => resolve_expr(ast, value, st).resolve_local(
                e,
                name.lexeme,
            ),
            ExprView::Binary { left, right, .. } => resolve_expr(
                ast,
                right,
                resolve_expr(ast, left, st),
            ),
            ExprView::Call { callee, arguments, .. } => resolve_exprs(
                ast,
                arguments,
                0,
                resolve_expr(ast, callee, st),
                e,
            ),
            ExprView::Get { object, .. } => resolve_expr(ast, object, st),
            ExprView::Grouping { expression } => resolve_expr(ast, expression, st),
            ExprView::Literal { .. } => st,
            ExprView::Logical { left, right, .. } => resolve_expr(
                ast,
                right,
                resolve_expr(ast, left, st),
            ),
            ExprView::SetProperty { object, value, .. } => resolve_expr(
                ast,
                object,
                resolve_expr(ast, value, st),
            ),
            ExprView::This { keyword } => st.this(e, keyword),
            ExprView::Super { keyword, .. } => st.superclass(e, keyword),
            ExprView::Unary { right, .. } => resolve_expr(ast, right, st),
            ExprView::Variable { name } => st.variable(e, name),
        }
    }
}

/// The state after the expressions `ids[i..]`, parts of the node `bound`,
/// have been resolved in order.
#[verifier::opaque]
pub open spec fn resolve_exprs(ast: AstView, ids: Seq<usize>, i: int, st: Resolution, bound: usize)
    -> Resolution
    decreases bound, 0nat, ids.len() - i,
{
    if i < 0 || i >= ids.len() || ids[i] >= bound {
        st
    } else {
        resolve_exprs(ast, ids, i + 1, resolve_expr(ast, ids[i], st), bound)
    }
}

/// The state after an optional expression has been resolved.
pub open spec fn resolve_option(ast: AstView, e: Option<usize>, st: Resolution) -> Resolution {
    match e {
        Some(id) => resolve_expr(ast, id, st),
        None => st,
    }
}

/// The state with every parameter declared and defined.
pub open spec fn declare_params(params: Seq<TokenView>, i: int, st: Resolution) -> Resolution
    decreases params.len() - i,
{
    if i < 0 || i >= params.len() {
        st
    } else {
        declare_params(params, i + 1, st.declare(params[i]).define(params[i].lexeme))
    }
}

/// The kind of function a method is: an initializer if it is named `init`.
pub open spec fn method_type(name: TokenView) -> FunctionType {
    if name.lexeme == "init"@ {
        FunctionType::Initializer
    } else {
        FunctionType::Method
    }
}

/// The state after the statement `s` has been resolved.
#[verifier::opaque]
pub open spec fn resolve_stmt(ast: AstView, s: usize, st: Resolution) -> Resolution
    decreases s, 3nat, 0nat,
{
    if !stmt_ok(ast, s) {
        st
    } else {
        match ast.stmts[s as int] {
            StmtView::Block { statements } => resolve_stmts(
                ast,
                statements,
                0,
                st.begin_scope(),
                s,
            ).end_scope(),
            StmtView::Class { name, superclass, methods } => {
                let named = st.declare(name).define(name.lexeme);
                let entered = Resolution { class: ClassType::Class, ..named };
                let inner = match superclass {
                    Some(parent) => {
                        let checked = if expr_ok(ast, parent) && (ast.exprs[parent as int]
                            matches ExprView::Variable { name: parent_name } && parent_name.lexeme
                            == name.lexeme) {
                            entered.error(
                                ast.exprs[parent as int]->Variable_name,
                                "A class can't inherit from itself."@,
                            )
                        } else {
                            entered
                        };
                        let sub = Resolution { class: ClassType::Subclass, ..checked };
                        resolve_expr(ast, parent, sub).begin_scope().define("super"@)
                    },
                    None => entered,
                };
                let body = resolve_methods(
                    ast,
                    methods,
                    0,
                    inner.begin_scope().define("this"@),
                    s,
                ).end_scope();
                let left = if superclass is Some {
                    body.end_scope()
                } else {
                    body
                };
                Resolution { class: st.class, ..left }
            },
            StmtView::Expression { expression } => resolve_expr(ast, expression, st),
            StmtView::Function { name, .. } => resolve_function(
                ast,
                s,
                FunctionType::Function,
                st.declare(name).define(name.lexeme),
            ),
            StmtView::If { condition, then_branch, else_branch } => {
                let after_then = resolve_stmt(ast, then_branch, resolve_expr(ast, condition, st));
                match else_branch {
                    Some(e) => resolve_stmt(ast, e, after_then),
                    None => after_then,
                }
            },
            StmtView::Print { expression } => resolve_expr(ast, expression, st),
            StmtView::Return { keyword, value } => resolve_option(
                ast,
                value,
                st.return_check(keyword, value is Some),
            ),
            StmtView::Var { name, initializer } => resolve_option(
                ast,
                initializer,
                st.declare(name),
            ).define(name.lexeme),
            StmtView::While { condition, body } => {
                let looping = Resolution { in_loop: true, ..st };
                let done = resolve_stmt(ast, body, resolve_expr(ast, condition, looping));
                Resolution { in_loop: st.in_loop, ..done }
            },
            StmtView::Break { token } => st.break_check(token),
        }
    }
}

/// The state after the function statement `f` has been resolved as a
/// function of kind `ftype`: a new scope holds its parameters and its body.
#[verifier::opaque]
pub open spec fn resolve_function(ast: AstView, f: usize, ftype: FunctionType, st: Resolution)
    -> Resolution
    decreases f, 2nat, 0nat,
{
    if !stmt_ok(ast, f) {
        st
    } else {
        match ast.stmts[f as int] {
            StmtView::Function { params, body, .. } => {
                let entered = Resolution { function: ftype, ..st }.begin_scope();
                let done = resolve_stmts(
                    ast,
                    body,
                    0,
                    declare_params(params, 0, entered),
                    f,
                ).end_scope();
                Resolution { function: st.function, ..done }
            },
            _ => st,
        }
    }
}

/// The state after the statements `ids[i..]`, parts of the node `bound`,
/// have been resolved in order.
#[verifier::opaque]
pub open spec fn resolve_stmts(ast: AstView, ids: Seq<usize>, i: int, st: Resolution, bound: usize)
    -> Resolution
    decreases bound, 1nat, ids.len() - i,
{
    if i < 0 || i >= ids.len() || ids[i] >= bound {
        st
    } else {
        resolve_stmts(ast, ids, i + 1, resolve_stmt(ast, ids[i], st), bound)
    }
}

/// The state after the methods `ids[i..]` of the class `bound` have been
/// resolved in order.
#[verifier::opaque]
pub open spec fn resolve_methods(
    ast: AstView,
    ids: Seq<usize>,
    i: int,
    st: Resolution,
    bound: usize,
) -> Resolution
    decreases bound, 1nat, ids.len() - i,
{
    if i < 0 || i >= ids.len() || ids[i] >= bound {
        st
    } else {
        let kind = match ast.stmts[ids[i] as int] {
            StmtView::Function { name, .. } => method_type(name),
            _ => FunctionType::Method,
        };
        resolve_methods(ast, ids, i + 1, resolve_function(ast, ids[i], kind, st), bound)
    }
}

/// The state after the statements `ids[i..]` of a program have been resolved
/// in order.
pub open spec fn resolve_program(ast: AstView, ids: Seq<usize>, i: int, st: Resolution)
    -> Resolution
    decreases ids.len() - i,
{
    if i < 0 || i >= ids.len() {
        st
    } else {
        resolve_program(ast, ids, i + 1, resolve_stmt(ast, ids[i], st))
    }
}

/// The depth recorded for a name is that of the innermost scope that
/// declares it: that scope declares the name and no scope nearer does. A
/// name for which no depth is recorded is declared in no scope.
pub proof fn lemma_depth_is_innermost(scopes: Seq<ScopeView>, name: Seq<char>, from: int)
    requires
        0 <= from,
        scopes.len() <= usize::MAX,
    ensures
        match depth_from(scopes, name, from) {
            Some(d) => from <= d < scopes.len() && scope_get(scopes[scopes.len() - 1 - d], name)
                is Some && forall|k: int|
                from <= k < d ==> scope_get(#[trigger] scopes[scopes.len() - 1 - k], name) is None,
            None => forall|k: int|
                from <= k < scopes.len() ==> scope_get(
                    #[trigger] scopes[scopes.len() - 1 - k],
                    name,
                ) is None,
        },
    decreases scopes.len() - from,
{
    if from < scopes.len() {
        if scope_get(scopes[scopes.len() - 1 - from], name) is None {
            lemma_depth_is_innermost(scopes, name, from + 1);
            match depth_from(scopes, name, from) {
                Some(d) => {
                    assert forall|k: int| from <= k < d implies scope_get(
                        #[trigger] scopes[scopes.len() - 1 - k],
                        name,
                    ) is None by {
                        if k > from {
                        }
                    }
                },
                None => {
                    assert forall|k: int| from <= k < scopes.len() implies scope_get(
                        #[trigger] scopes[scopes.len() - 1 - k],
                        name,
                    ) is None by {
                        if k > from {
                        }
                    }
                },
            }
        }
    }
}

/// Whether the chain of scopes from `env` outwards mirrors the static
/// scopes: the scope `k` scopes out exists and binds just the names that
/// the `k`-th static scope from the innermost declares.
pub open spec fn mirrors(
    scopes: Seq<ScopeView>,
    envs: Seq<crate::environment::BindingsView>,
    env: usize,
) -> bool {
    forall|k: nat|
        k < scopes.len() ==> (#[trigger] crate::environment::ancestor(envs, env, k) matches Some(
            a,
        ) && forall|name: Seq<char>|
            (crate::environment::local_get(envs[a as int], name) is Some) == (#[trigger] scope_get(
                scopes[scopes.len() - 1 - k],
                name,
            ) is Some))
}

/// Resolution agrees with lookup by name: wherever the chain of scopes at
/// run time mirrors the static scopes, the value found at the depth that
/// the resolver records for a name is the value found by walking the chain.
pub proof fn lemma_resolved_is_lexical(
    scopes: Seq<ScopeView>,
    envs: Seq<crate::environment::BindingsView>,
    env: usize,
    name: Seq<char>,
)
    requires
        scopes.len() <= usize::MAX,
        mirrors(scopes, envs, env),
        depth_from(scopes, name, 0) is Some,
    ensures
        crate::environment::lookup_at(envs, env, depth_from(scopes, name, 0)->Some_0 as nat, name)
            == crate::environment::lookup(envs, env, name),
{
    let d = depth_from(scopes, name, 0)->Some_0;
    lemma_depth_is_innermost(scopes, name, 0);
    assert(crate::environment::ancestor(envs, env, d as nat) is Some);
    assert forall|k: nat| k < d implies (#[trigger] crate::environment::ancestor(envs, env, k)
        matches Some(b) ==> crate::environment::local_get(envs[b as int], name) is None) by {
        assert(scope_get(scopes[scopes.len() - 1 - k], name) is None);
    }
    let a = crate::environment::ancestor(envs, env, d as nat)->Some_0;
    assert(scope_get(scopes[scopes.len() - 1 - d], name) is Some);
    crate::environment::lemma_depth_of_innermost(envs, env, d as nat, name);
}

/// A name that the resolver leaves to the globals is a global at run time:
/// wherever the chain of scopes mirrors the static scopes and the scope
/// around them all is the global one, walking the chain finds what the
/// global scope binds.
pub proof fn lemma_unresolved_is_global(
    scopes: Seq<ScopeView>,
    envs: Seq<crate::environment::BindingsView>,
    env: usize,
    name: Seq<char>,
)
    requires
        scopes.len() <= usize::MAX,
        mirrors(scopes, envs, env),
        depth_from(scopes, name, 0) is None,
        crate::environment::ancestor(envs, env, scopes.len()) == Some(0usize),
    ensures
        crate::environment::lookup(envs, env, name) == crate::environment::lookup(envs, 0, name),
{
    lemma_depth_is_innermost(scopes, name, 0);
    assert forall|k: nat| k < scopes.len() implies (#[trigger] crate::environment::ancestor(
        envs,
        env,
        k,
    ) matches Some(b) ==> crate::environment::local_get(envs[b as int], name) is None) by {
        assert(scope_get(scopes[scopes.len() - 1 - k], name) is None);
    }
    crate::environment::lemma_unbound_is_global(envs, env, scopes.len(), name);
}

} // verus!
