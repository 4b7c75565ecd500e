//! The resolver: one pass over the syntax tree that binds every use of a
//! variable to a scope and reports misuse. It is held to the model in
//! [`crate::binding`].

use vstd::prelude::*;
use vstd::string::*;
use crate::ast::Ast;
use crate::binding::{
    ClassType, FunctionType, Resolution, ScopeView, declare_params, depth_from, resolve_expr, resolve_exprs, resolve_function, resolve_methods, resolve_option,
    resolve_program, resolve_stmt, resolve_stmts, scope_get, scope_put, stmt_ok,
};
use crate::error::{LoxResult, LoxResultView, errors_view};
use crate::expr::Expr;
use crate::names::{distinct, index_of, lemma_distinct_after_push, texts};
use crate::stmt::{ClassStmt, FunctionStmt, IfStmt, ReturnStmt, Stmt, VarStmt, WhileStmt};
use crate::token::{Token, tokens_view};

verus! {

/// A scope: the names declared in it, each with whether it is defined.
pub struct Scope {
    names: Vec<String>,
    defined: Vec<bool>,
}

impl View for Scope {
    type V = ScopeView;

    closed spec fn view(&self) -> ScopeView {
        ScopeView { names: texts(self.names@), defined: self.defined@ }
    }
}

impl Scope {
    // One flag for each name, and no name twice.
    spec fn wf(&self) -> bool {
        self.names.len() == self.defined.len() && distinct(texts(self.names@))
    }

    fn new() -> (s: Scope)
        ensures
            s.wf(),
            s@ == (ScopeView { names: seq![], defined: seq![] }),
    {
        let s = Scope { names: Vec::new(), defined: Vec::new() };
        assert(s@.names =~= seq![]);
        assert(s@.defined =~= seq![]);
        s
    }

    fn get(&self, name: &String) -> (r: Option<bool>)
        requires
            self.wf(),
        ensures
            r == scope_get(self@, name@),
    {
        match index_of(&self.names, name) {
            Some(i) => Some(self.defined[i]),
            None => None,
        }
    }

    fn put(&mut self, name: &String, defined: bool)
        requires
            old(self).wf(),
        ensures
            final(self).wf(),
            final(self)@ == scope_put(old(self)@, name@, defined),
    {
        match index_of(&self.names, name) {
            Some(i) => {
                self.defined.set(i, defined);
            },
            None => {
                self.names.push(name.clone());
                self.defined.push(defined);
                assert(texts(self.names@) =~= texts(old(self).names@).push(name@));
                proof {
                    lemma_distinct_after_push(texts(old(self).names@), name@);
                }
            },
        }
    }
}

/// Views of a sequence of scopes, element by element.
pub open spec fn scopes_view(scopes: Seq<Scope>) -> Seq<ScopeView> {
    scopes.map_values(|s: Scope| s@)
}

/// The resolver: the scopes that are open, what kind of function and class
/// it is in, the errors reported and the side table built so far.
pub struct Resolver {
    scopes: Vec<Scope>,
    in_loop: bool,
    had_error: bool,
    errors: Vec<LoxResult>,
    current_function: FunctionType,
    current_class: ClassType,
    locals: Vec<(usize, usize)>,
}

impl Resolver {
    /// The resolver's state.
    pub closed spec fn state(&self) -> Resolution {
        Resolution {
            scopes: scopes_view(self.scopes@),
            in_loop: self.in_loop,
            function: self.current_function,
            class: self.current_class,
            errors: errors_view(self.errors@),
            locals: self.locals@,
        }
    }

    /// The resolver's invariant.
    pub closed spec fn wf(&self) -> bool {
        &&& self.had_error == (self.errors.len() > 0)
        &&& forall|i: int| 0 <= i < self.scopes.len() ==> (#[trigger] self.scopes[i]).wf()
    }

    /// A resolver that has resolved nothing yet.
    pub fn new() -> (r: Resolver)
        ensures
            r.wf(),
            r.state() == Resolution::start(),
    {
        let r = Resolver {
            scopes: Vec::new(),
            in_loop: false,
            had_error: false,
            errors: Vec::new(),
            current_function: FunctionType::Toplevel,
            current_class: ClassType::Toplevel,
            locals: Vec::new(),
        };
        assert(r.state().scopes =~= seq![]);
        assert(r.state().errors =~= seq![]);
        assert(r.state().locals =~= seq![]);
        r
    }

    /// Resolves the statements of a program, in order. An error is recorded,
    /// not thrown: the pass always runs to the end and returns `Ok`; whether
    /// it met an error is what [`Resolver::success`] says, and which, what
    /// [`Resolver::errors`] holds.
    pub fn resolve(&mut self, ast: &Ast, stmts: &Vec<usize>) -> (r: Result<(), LoxResult>)
        requires
            old(self).wf(),
            ast@.wf(),
            crate::stmt::all_below(stmts@, ast@.stmts.len() as int),
        ensures
            final(self).wf(),
            final(self).state() == resolve_program(ast@, stmts@, 0, old(self).state()),
            r is Ok,
    {
        let mut i: usize = 0;
        while i < stmts.len()
            invariant
                self.wf(),
                ast@.wf(),
                i <= stmts.len(),
                crate::stmt::all_below(stmts@, ast@.stmts.len() as int),
                resolve_program(ast@, stmts@, 0, old(self).state()) == resolve_program(
                    ast@,
                    stmts@,
                    i as int,
                    self.state(),
                ),
            decreases stmts.len() - i,
        {
            self.resolve_stmt(ast, stmts[i]);
            i += 1;
        }
        Ok(())
    }

    /// The side table: each resolved expression with its depth.
    pub fn locals(&self) -> (r: &Vec<(usize, usize)>)
        ensures
            r@ == self.state().locals,
    {
        &self.locals
    }

    /// The errors reported so far.
    pub fn errors(&self) -> (r: &Vec<LoxResult>)
        ensures
            errors_view(r@) == self.state().errors,
    {
        &self.errors
    }

    fn resolve_stmt(&mut self, ast: &Ast, s: usize)
        requires
            old(self).wf(),
            ast@.wf(),
            s < ast@.stmts.len(),
        ensures
            final(self).wf(),
            final(self).state() == resolve_stmt(ast@, s, old(self).state()),
            final(self).errors.len() >= old(self).errors.len(),
        decreases s, 3nat, 0nat,
    {
        proof {
            reveal(resolve_stmt);
            reveal(resolve_stmts);
            reveal(resolve_function);
            ast.lemma_stmt_parts_below(s);
        }
        match ast.stmt(s) {
            Stmt::Block(stmt) => self.visit_block_stmt(ast, s, &stmt.statements),
            Stmt::Class(stmt) => self.visit_class_stmt(ast, s, stmt),
            Stmt::Expression(stmt) => self.resolve_expr(ast, stmt.expression),
            Stmt::Function(stmt) => self.visit_function_stmt(ast, s, stmt),
            Stmt::If(stmt) => self.visit_if_stmt(ast, s, stmt),
            Stmt::Print(stmt) => self.resolve_expr(ast, stmt.expression),
            Stmt::Return(stmt) => self.visit_return_stmt(ast, stmt),
            Stmt::Var(stmt) => self.visit_var_stmt(ast, stmt),
            Stmt::While(stmt) => self.visit_while_stmt(ast, s, stmt),
            Stmt::Break(stmt) => self.visit_break_stmt(&stmt.token),
        }
    }

    // Resolves the statements `ids`, parts of the statement `bound`.
    fn resolve_list(&mut self, ast: &Ast, ids: &Vec<usize>, bound: usize)
        requires
            old(self).wf(),
            ast@.wf(),
            bound < ast@.stmts.len(),
            crate::stmt::all_below(ids@, bound as int),
        ensures
            final(self).wf(),
            final(self).state() == resolve_stmts(ast@, ids@, 0, old(self).state(), bound),
            final(self).errors.len() >= old(self).errors.len(),
        decreases bound, 1nat, ids.len(),
    {
        let mut i: usize = 0;
        while i < ids.len()
            invariant
                self.wf(),
                ast@.wf(),
                i <= ids.len(),
                bound < ast@.stmts.len(),
                crate::stmt::all_below(ids@, bound as int),
                self.errors.len() >= old(self).errors.len(),
                resolve_stmts(ast@, ids@, 0, old(self).state(), bound) == resolve_stmts(
                    ast@,
                    ids@,
                    i as int,
                    self.state(),
                    bound,
                ),
            decreases ids.len() - i,
        {
            proof {
                reveal(resolve_stmts);
                reveal(resolve_stmt);
            }
            self.resolve_stmt(ast, ids[i]);
            i += 1;
        }
        proof {
            reveal(resolve_stmts);
        }
    }

    fn resolve_expr(&mut self, ast: &Ast, e: usize)
        requires
            old(self).wf(),
            ast@.wf(),
            e < ast@.exprs.len(),
        ensures
            final(self).wf(),
            final(self).state() == resolve_expr(ast@, e, old(self).state()),
            final(self).errors.len() >= old(self).errors.len(),
        decreases e, 1nat, 0nat,
    {
        proof {
            reveal(resolve_expr);
            reveal(resolve_exprs);
            ast.lemma_parts_below(e);
        }
        match ast.expr(e) {
            Expr::Assign { name, value } => self.visit_assign_expr(ast, e, name, *value),
            Expr::Binary { left, right, .. } => {
                self.resolve_expr(ast, *left);
                self.resolve_expr(ast, *right);
            },
            Expr::Call { callee, arguments, .. } => self.visit_call_expr(
                ast,
                e,
                *callee,
                arguments,
            ),
            // property dispatch is dynamic since the property name is not resolved here
            // i.e. only the object is resolved not the token after '.'
            Expr::Get { object, .. } => self.resolve_expr(ast, *object),
            Expr::Grouping { expression } => self.resolve_expr(ast, *expression),
            Expr::Literal { .. } => {},
            Expr::Logical { left, right, .. } => {
                self.resolve_expr(ast, *left);
                self.resolve_expr(ast, *right);
            },
            Expr::SetProperty { object, value, .. } => {
                self.resolve_expr(ast, *value);
                self.resolve_expr(ast, *object);
            },
            Expr::This { keyword } => self.visit_this_expr(e, keyword),
            Expr::Super { keyword, .. } => self.visit_super_expr(e, keyword),
            Expr::Unary { right, .. } => self.resolve_expr(ast, *right),
            Expr::Variable { name } => self.visit_variable_expr(e, name),
        }
    }

    // Resolves an optional expression.
    fn resolve_optional(&mut self, ast: &Ast, e: Option<usize>)
        requires
            old(self).wf(),
            ast@.wf(),
            crate::stmt::option_below(e, ast@.exprs.len() as int),
        ensures
            final(self).wf(),
            final(self).state() == resolve_option(ast@, e, old(self).state()),
            final(self).errors.len() >= old(self).errors.len(),
    {
        match e {
            Some(id) => self.resolve_expr(ast, id),
            None => {},
        }
    }

    fn begin_scope(&mut self)
        requires
            old(self).wf(),
        ensures
            final(self).wf(),
            final(self).state() == old(self).state().begin_scope(),
            final(self).errors.len() == old(self).errors.len(),
    {
        self.scopes.push(Scope::new());
        assert(scopes_view(self.scopes@) =~= scopes_view(old(self).scopes@).push(
            ScopeView { names: seq![], defined: seq![] },
        ));
    }

    fn end_scope(&mut self)
        requires
            old(self).wf(),
        ensures
            final(self).wf(),
            final(self).state() == old(self).state().end_scope(),
            final(self).errors.len() == old(self).errors.len(),
    {
        if self.scopes.len() > 0 {
            self.scopes.pop();
            assert(scopes_view(self.scopes@) =~= scopes_view(old(self).scopes@).drop_last());
        }
    }

    // Sets the innermost scope's entry for `name`.
    fn put(&mut self, name: &String, defined: bool)
        requires
            old(self).wf(),
            old(self).scopes.len() > 0,
        ensures
            final(self).wf(),
            final(self).state() == old(self).state().with_scopes(
                old(self).state().scopes.update(
                    old(self).state().scopes.len() - 1,
                    scope_put(old(self).state().scopes.last(), name@, defined),
                ),
            ),
            final(self).errors.len() == old(self).errors.len(),
    {
        let mut top = self.scopes.pop().unwrap();
        top.put(name, defined);
        self.scopes.push(top);
        assert(scopes_view(self.scopes@) =~= scopes_view(old(self).scopes@).update(
            old(self).scopes.len() - 1,
            scope_put(scopes_view(old(self).scopes@).last(), name@, defined),
        ));
    }

    // Add variable to the innermost scope so it shadows outer ones if any.
    // Mark it as false (not ready yet): the value kept with a name says
    // whether its initializer has been resolved.
    fn declare(&mut self, name: &Token)
        requires
            old(self).wf(),
        ensures
            final(self).wf(),
            final(self).state() == old(self).state().declare(name@),
            final(self).errors.len() >= old(self).errors.len(),
    {
        if self.scopes.len() > 0 {
            let ghost top = self.state().scopes.last();
            // Report error if the variable is being redefined
            if self.scopes[self.scopes.len() - 1].get(&name.lexeme).is_some() {
                self.resolve_error(
                    name,
                    "A variable with the same name already exists in this scope",
                );
            }
            self.put(&name.lexeme, false);
        }
    }

    // Once the initializer of a variable has been resolved, the variable is
    // ready.
    fn define(&mut self, name: &String)
        requires
            old(self).wf(),
        ensures
            final(self).wf(),
            final(self).state() == old(self).state().define(name@),
            final(self).errors.len() == old(self).errors.len(),
    {
        if self.scopes.len() > 0 {
            self.put(name, true);
        }
    }

    // Helper to resolve a variable by starting at innermost scope and working outwards
    // If the variable was found in the current scope, record '0',
    // if it is in the immediate enclosing scope, '1' and so on.
    fn resolve_local(&mut self, expr: usize, name: &String)
        requires
            old(self).wf(),
        ensures
            final(self).wf(),
            final(self).state() == old(self).state().resolve_local(expr, name@),
            final(self).errors.len() == old(self).errors.len(),
    {
        let mut d: usize = 0;
        while d < self.scopes.len()
            invariant
                self.wf(),
                *self == *old(self),
                d <= self.scopes.len(),
                depth_from(scopes_view(self.scopes@), name@, 0) == depth_from(
                    scopes_view(self.scopes@),
                    name@,
                    d as int,
                ),
            decreases self.scopes.len() - d,
        {
            if self.scopes[self.scopes.len() - 1 - d].get(name).is_some() {
                self.locals.push((expr, d));
                return ;
            }
            d += 1;
        }
    }

    // Unlike variable, define functions eagerly so that a function
    // can recursively refer to itself.
    fn resolve_function(&mut self, ast: &Ast, f: usize, ftype: FunctionType)
        requires
            old(self).wf(),
            ast@.wf(),
            f < ast@.stmts.len(),
        ensures
            final(self).wf(),
            final(self).state() == resolve_function(ast@, f, ftype, old(self).state()),
            final(self).errors.len() >= old(self).errors.len(),
        decreases f, 2nat, 0nat,
    {
        proof {
            reveal(resolve_function);
            reveal(resolve_stmts);
            ast.lemma_stmt_parts_below(f);
        }
        match ast.stmt(f) {
            Stmt::Function(function) => {
                let enclosing_function = self.current_function;
                self.current_function = ftype;
                self.begin_scope();
                self.declare_params(&function.params);
                self.resolve_list(ast, &function.body, f);
                self.end_scope();
                self.current_function = enclosing_function;
            },
            _ => {},
        }
    }

    // Declares and defines every parameter in the innermost scope.
    fn declare_params(&mut self, params: &Vec<Token>)
        requires
            old(self).wf(),
        ensures
            final(self).wf(),
            final(self).state() == declare_params(tokens_view(params@), 0, old(self).state()),
            final(self).errors.len() >= old(self).errors.len(),
    {
        let mut i: usize = 0;
        while i < params.len()
            invariant
                self.wf(),
                i <= params.len(),
                self.errors.len() >= old(self).errors.len(),
                declare_params(tokens_view(params@), 0, old(self).state()) == declare_params(
                    tokens_view(params@),
                    i as int,
                    self.state(),
                ),
            decreases params.len() - i,
        {
            self.declare(&params[i]);
            self.define(&params[i].lexeme);
            i += 1;
        }
    }

    /// Records a resolve error at `token`.
    pub fn resolve_error(&mut self, token: &Token, message: &str)
        requires
            old(self).wf(),
        ensures
            final(self).wf(),
            final(self).state() == old(self).state().error(token@, message@),
            final(self).state().errors.len() == old(self).state().errors.len() + 1,
    {
        self.had_error = true;
        let e = LoxResult::error_resolve(token, message);
        self.errors.push(e);
        assert(errors_view(self.errors@) =~= errors_view(old(self).errors@).push(
            LoxResultView::ResolveError { token: token@, message: message@ },
        ));
    }

    /// Whether no error has been reported.
    pub fn success(&self) -> (b: bool)
        requires
            self.wf(),
        ensures
            b == (self.state().errors.len() == 0),
    {
        !self.had_error
    }

    fn visit_block_stmt(&mut self, ast: &Ast, s: usize, statements: &Vec<usize>)
        requires
            old(self).wf(),
            ast@.wf(),
            s < ast@.stmts.len(),
            crate::stmt::all_below(statements@, s as int),
        ensures
            final(self).wf(),
            final(self).state() == resolve_stmts(
                ast@,
                statements@,
                0,
                old(self).state().begin_scope(),
                s,
            ).end_scope(),
            final(self).errors.len() >= old(self).errors.len(),
        decreases s, 2nat, 0nat,
    {
        self.begin_scope();
        self.resolve_list(ast, statements, s);
        self.end_scope();
    }

    fn visit_class_stmt(&mut self, ast: &Ast, s: usize, stmt: &ClassStmt)
        requires
            old(self).wf(),
            ast@.wf(),
            s < ast@.stmts.len(),
            ast@.stmts[s as int] == Stmt::Class(*stmt)@,
            stmt_ok(ast@, s),
        ensures
            final(self).wf(),
            final(self).state() == resolve_stmt(ast@, s, old(self).state()),
            final(self).errors.len() >= old(self).errors.len(),
        decreases s, 2nat, 1nat,
    {
        proof {
            reveal(resolve_stmt);
            reveal(resolve_methods);
            reveal(resolve_function);
        }
        let ghost st = self.state();
        let enclosing_class = self.current_class;
        self.declare(&stmt.name);
        self.define(&stmt.name.lexeme);
        self.current_class = ClassType::Class;
        if let Some(parent) = stmt.superclass {
            proof {
                ast.lemma_parts_below(parent);
            }
            match ast.expr(parent) {
                Expr::Variable { name } => {
                    if name.lexeme == stmt.name.lexeme {
                        self.resolve_error(name, "A class can't inherit from itself.");
                    }
                },
                _ => {},
            }
            self.current_class = ClassType::Subclass;
            self.resolve_expr(ast, parent);
            self.begin_scope();
            self.define(&String::from_str("super"));
        }
        self.begin_scope();
        self.define(&String::from_str("this"));
        let ghost entered = self.state();
        let mut i: usize = 0;
        while i < stmt.methods.len()
            invariant
                self.wf(),
                ast@.wf(),
                i <= stmt.methods.len(),
                s < ast@.stmts.len(),
                crate::stmt::all_below(stmt.methods@, s as int),
                self.errors.len() >= old(self).errors.len(),
                resolve_methods(ast@, stmt.methods@, 0, entered, s) == resolve_methods(
                    ast@,
                    stmt.methods@,
                    i as int,
                    self.state(),
                    s,
                ),
            decreases stmt.methods.len() - i,
        {
            proof {
                reveal(resolve_methods);
                reveal(resolve_function);
            }
            let m = stmt.methods[i];
            let ftype = match ast.stmt(m) {
                Stmt::Function(function) => {
                    if function.name.lexeme == String::from_str("init") {
                        FunctionType::Initializer
                    } else {
                        FunctionType::Method
                    }
                },
                _ => FunctionType::Method,
            };
            self.resolve_function(ast, m, ftype);
            i += 1;
        }
        self.end_scope();
        if stmt.superclass.is_some() {
            self.end_scope();
        }
        self.current_class = enclosing_class;
    }

    // Functions both bind names and introduce a scope.
    // The name of the fn itself is bound in the surrounding scope where it is declared.
    // When we step into the function's body, we also bind its parameters into
    // that inner function's scope
    fn visit_function_stmt(&mut self, ast: &Ast, s: usize, stmt: &FunctionStmt)
        requires
            old(self).wf(),
            ast@.wf(),
            s < ast@.stmts.len(),
        ensures
            final(self).wf(),
            final(self).state() == resolve_function(
                ast@,
                s,
                FunctionType::Function,
                old(self).state().declare(stmt.name@).define(stmt.name.lexeme@),
            ),
            final(self).errors.len() >= old(self).errors.len(),
        decreases s, 2nat, 1nat,
    {
        self.declare(&stmt.name);
        self.define(&stmt.name.lexeme);
        self.resolve_function(ast, s, FunctionType::Function)
    }

    fn visit_if_stmt(&mut self, ast: &Ast, s: usize, stmt: &IfStmt)
        requires
            old(self).wf(),
            ast@.wf(),
            s < ast@.stmts.len(),
            stmt.condition < ast@.exprs.len(),
            stmt.then_branch < s,
            crate::stmt::option_below(stmt.else_branch, s as int),
        ensures
            final(self).wf(),
            final(self).state() == ({
                let after_then = resolve_stmt(
                    ast@,
                    stmt.then_branch,
                    resolve_expr(ast@, stmt.condition, old(self).state()),
                );
                match stmt.else_branch {
                    Some(e) => resolve_stmt(ast@, e, after_then),
                    None => after_then,
                }
            }),
            final(self).errors.len() >= old(self).errors.len(),
        decreases s, 2nat, 0nat,
    {
        self.resolve_expr(ast, stmt.condition);
        self.resolve_stmt(ast, stmt.then_branch);
        if let Some(else_branch) = stmt.else_branch {
            self.resolve_stmt(ast, else_branch);
        }
    }

    fn visit_return_stmt(&mut self, ast: &Ast, stmt: &ReturnStmt)
        requires
            old(self).wf(),
            ast@.wf(),
            crate::stmt::option_below(stmt.value, ast@.exprs.len() as int),
        ensures
            final(self).wf(),
            final(self).state() == resolve_option(
                ast@,
                stmt.value,
                old(self).state().return_check(stmt.keyword@, stmt.value is Some),
            ),
            final(self).errors.len() >= old(self).errors.len(),
    {
        if self.current_function == FunctionType::Toplevel {
            self.resolve_error(&stmt.keyword, "Can't return from top-level code");
        }
        if stmt.value.is_some() && self.current_function == FunctionType::Initializer {
            self.resolve_error(&stmt.keyword, "Can't return a value from an initializer");
        }
        self.resolve_optional(ast, stmt.value);
    }

    fn visit_var_stmt(&mut self, ast: &Ast, stmt: &VarStmt)
        requires
            old(self).wf(),
            ast@.wf(),
            crate::stmt::option_below(stmt.initializer, ast@.exprs.len() as int),
        ensures
            final(self).wf(),
            final(self).state() == resolve_option(
                ast@,
                stmt.initializer,
                old(self).state().declare(stmt.name@),
            ).define(stmt.name.lexeme@),
            final(self).errors.len() >= old(self).errors.len(),
    {
        self.declare(&stmt.name);
        self.resolve_optional(ast, stmt.initializer);
        self.define(&stmt.name.lexeme);
    }

    fn visit_while_stmt(&mut self, ast: &Ast, s: usize, stmt: &WhileStmt)
        requires
            old(self).wf(),
            ast@.wf(),
            s < ast@.stmts.len(),
            stmt.condition < ast@.exprs.len(),
            stmt.body < s,
        ensures
            final(self).wf(),
            final(self).state() == ({
                let st = old(self).state();
                let looping = Resolution { in_loop: true, ..st };
                let done = resolve_stmt(
                    ast@,
                    stmt.body,
                    resolve_expr(ast@, stmt.condition, looping),
                );
                Resolution { in_loop: st.in_loop, ..done }
            }),
            final(self).errors.len() >= old(self).errors.len(),
        decreases s, 2nat, 0nat,
    {
        let nesting_prev = self.in_loop;
        self.in_loop = true;
        self.resolve_expr(ast, stmt.condition);
        self.resolve_stmt(ast, stmt.body);
        self.in_loop = nesting_prev;
    }

    fn visit_break_stmt(&mut self, token: &Token)
        requires
            old(self).wf(),
        ensures
            final(self).wf(),
            final(self).state() == old(self).state().break_check(token@),
            final(self).errors.len() >= old(self).errors.len(),
    {
        if !self.in_loop {
            self.resolve_error(token, "break statements are not allowed here");
        }
    }

    // Resolve the expression for the assigned value in case it also contains
    // references to other variable. Then use the existing 'resolve_local' method
    // to resolve the variable that is being assigned to.
    fn visit_assign_expr(&mut self, ast: &Ast, e: usize, name: &Token, value: usize)
        requires
            old(self).wf(),
            ast@.wf(),
            value < e,
            e < ast@.exprs.len(),
        ensures
            final(self).wf(),
            final(self).state() == resolve_expr(ast@, value, old(self).state()).resolve_local(
                e,
                name.lexeme@,
            ),
            final(self).errors.len() >= old(self).errors.len(),
        decreases e, 0nat, 0nat,
    {
        self.resolve_expr(ast, value);
        self.resolve_local(e, &name.lexeme);
    }

    fn visit_call_expr(&mut self, ast: &Ast, e: usize, callee: usize, arguments: &Vec<usize>)
        requires
            old(self).wf(),
            ast@.wf(),
            callee < e,
            e < ast@.exprs.len(),
            crate::stmt::all_below(arguments@, e as int),
        ensures
            final(self).wf(),
            final(self).state() == resolve_exprs(
                ast@,
                arguments@,
                0,
                resolve_expr(ast@, callee, old(self).state()),
                e,
            ),
            final(self).errors.len() >= old(self).errors.len(),
        decreases e, 0nat, 0nat,
    {
        self.resolve_expr(ast, callee);
        let ghost entered = self.state();
        let mut i: usize = 0;
        while i < arguments.len()
            invariant
                self.wf(),
                ast@.wf(),
                i <= arguments.len(),
                e < ast@.exprs.len(),
                crate::stmt::all_below(arguments@, e as int),
                self.errors.len() >= old(self).errors.len(),
                resolve_exprs(ast@, arguments@, 0, entered, e) == resolve_exprs(
                    ast@,
                    arguments@,
                    i as int,
                    self.state(),
                    e,
                ),
            decreases arguments.len() - i,
        {
            proof {
                reveal(resolve_exprs);
                reveal(resolve_expr);
            }
            self.resolve_expr(ast, arguments[i]);
            i += 1;
        }
        proof {
            reveal(resolve_exprs);
        }
    }

    fn visit_this_expr(&mut self, e: usize, keyword: &Token)
        requires
            old(self).wf(),
        ensures
            final(self).wf(),
            final(self).state() == old(self).state().this(e, keyword@),
            final(self).errors.len() >= old(self).errors.len(),
    {
        if self.current_class == ClassType::Toplevel {
            self.resolve_error(keyword, "Can't use 'this' outside of a class.");
        } else {
            self.resolve_local(e, &keyword.lexeme);
        }
    }

    fn visit_super_expr(&mut self, e: usize, keyword: &Token)
        requires
            old(self).wf(),
        ensures
            final(self).wf(),
            final(self).state() == old(self).state().superclass(e, keyword@),
            final(self).errors.len() >= old(self).errors.len(),
    {
        if self.current_class == ClassType::Toplevel {
            self.resolve_error(keyword, "Can't use 'super' outside of a class.");
        } else if self.current_class != ClassType::Subclass {
            self.resolve_error(keyword, "Can't use 'super' in a class with no superclass.");
        } else {
            self.resolve_local(e, &keyword.lexeme);
        }
    }

    fn visit_variable_expr(&mut self, e: usize, name: &Token)
        requires
            old(self).wf(),
        ensures
            final(self).wf(),
            final(self).state() == old(self).state().variable(e, name@),
            final(self).errors.len() >= old(self).errors.len(),
    {
        // Disallow shadowing variable in its own initializer (var a = a;)
        let in_own_initializer = if self.scopes.len() > 0 {
            match self.scopes[self.scopes.len() - 1].get(&name.lexeme) {
                Some(defined) => !defined,
                None => false,
            }
        } else {
            false
        };
        if in_own_initializer {
            self.resolve_error(name, "Can't read local variable in its own initializer");
        } else {
            self.resolve_local(e, &name.lexeme);
        }
    }
}

} // verus!
