//! What a step of the evaluator does, as a function on its state.
//!
//! [`step`] says which state and which action follow from a state and the
//! host's answer. It is put together from the rules of [`crate::machine`],
//! which need nothing but the syntax tree, and from [`perform`], which says
//! what each move does to the scopes, functions, classes and instances.

use vstd::prelude::*;
use crate::ast::AstView;
use crate::environment::{
    BindingsView, assigned, assigned_at, bound, lookup, lookup_at, undefined_variable,
};
use crate::error::LoxResultView;
use crate::functions_lox::LoxFunction;
use crate::lox_class::{ClassView, method_of, with_method};
use crate::lox_instance::{InstanceView, field, with_field};
use crate::machine::{
    ActionView, CaughtView, EventView, FrameView, MoveView, PendingView, SignalView, TaskView,
    answer_move, expression_move, frame_catch, frame_move, statement_move,
};
use crate::object::ObjectView;
use crate::stmt::StmtView;
use crate::text::decimal_text;
use crate::token::TokenView;

verus! {

/// The index of the global scope.
pub const GLOBALS: usize = 0;

/// The state of the evaluator.
pub struct MachineView {
    /// The program.
    pub ast: AstView,
    /// All scopes; the global one has the index 0.
    pub environments: Seq<BindingsView>,
    /// The current scope.
    pub environment: usize,
    /// The resolver's side table: for each expression its depth, if it was
    /// resolved.
    pub locals: Seq<Option<usize>>,
    pub functions: Seq<LoxFunction>,
    pub classes: Seq<ClassView>,
    pub instances: Seq<InstanceView>,
    /// What is left to do once the current task has given a value.
    pub stack: Seq<FrameView>,
    /// What the next step does.
    pub task: TaskView,
}

/// A state and the action asked of the host.
pub type Outcome = (MachineView, ActionView);

/// The side table with the depth `depth` recorded for the expression `expr`.
pub open spec fn recorded(locals: Seq<Option<usize>>, expr: usize, depth: usize) -> Seq<
    Option<usize>,
> {
    if expr < locals.len() {
        locals.update(expr as int, Some(depth))
    } else {
        (locals + Seq::new((expr - locals.len()) as nat, |i: int| None::<usize>)).push(Some(depth))
    }
}

/// The side table with every pair of `pairs[i..]`, an expression and its
/// depth, recorded in order.
pub open spec fn recorded_all(locals: Seq<Option<usize>>, pairs: Seq<(usize, usize)>, i: int)
    -> Seq<Option<usize>>
    decreases pairs.len() - i,
{
    if i < 0 || i >= pairs.len() {
        locals
    } else {
        recorded_all(recorded(locals, pairs[i].0, pairs[i].1), pairs, i + 1)
    }
}

/// The depth recorded for the expression `expr`, if any.
pub open spec fn depth_of(locals: Seq<Option<usize>>, expr: usize) -> Option<usize> {
    if expr < locals.len() {
        locals[expr as int]
    } else {
        None
    }
}

/// An empty scope inside the scope `enclosing`.
pub open spec fn empty_scope(enclosing: usize) -> BindingsView {
    BindingsView { names: seq![], values: seq![], enclosing: Some(enclosing) }
}

/// The runtime error at `token`.
pub open spec fn runtime_error(token: TokenView, message: Seq<char>) -> LoxResultView {
    LoxResultView::RuntimeError { token, message }
}

/// The error for a fault of the evaluator itself.
pub open spec fn system_error(message: Seq<char>) -> LoxResultView {
    LoxResultView::SystemError { message }
}

/// `Expected N arguments but got M`.
pub open spec fn arity_text(expected: usize, got: usize) -> Seq<char> {
    "Expected "@ + decimal_text(expected as nat) + " arguments but got "@ + decimal_text(
        got as nat,
    )
}

/// The name of the function that the statement `declaration` declares.
pub open spec fn function_name(ast: AstView, declaration: usize) -> Seq<char> {
    if declaration < ast.stmts.len() {
        match ast.stmts[declaration as int] {
            StmtView::Function { name, .. } => name.lexeme,
            _ => seq![],
        }
    } else {
        seq![]
    }
}

/// The names of the parameters `params[i..]`, with `, ` between them.
pub open spec fn parameter_list(params: Seq<TokenView>, i: int) -> Seq<char>
    decreases params.len() - i,
{
    if i < 0 || i >= params.len() {
        seq![]
    } else if i == 0 {
        params[i].lexeme + parameter_list(params, i + 1)
    } else {
        ", "@ + params[i].lexeme + parameter_list(params, i + 1)
    }
}

/// The display form of the function that the statement `declaration`
/// declares: `<fun name(a, b)>`.
pub open spec fn function_text(ast: AstView, declaration: usize) -> Seq<char> {
    "<fun "@ + function_name(ast, declaration) + "("@ + (match parameters(ast, declaration) {
        Some(params) => parameter_list(params, 0),
        None => seq![],
    }) + ")>"@
}

/// The parameters of the function that the statement `declaration`
/// declares.
pub open spec fn parameters(ast: AstView, declaration: usize) -> Option<Seq<TokenView>> {
    if declaration < ast.stmts.len() {
        match ast.stmts[declaration as int] {
            StmtView::Function { params, .. } => Some(params),
            _ => None,
        }
    } else {
        None
    }
}

/// The methods of the class that the statement `stmt` declares.
pub open spec fn class_methods(ast: AstView, stmt: usize) -> Seq<usize> {
    if stmt < ast.stmts.len() {
        match ast.stmts[stmt as int] {
            StmtView::Class { methods, .. } => methods,
            _ => seq![],
        }
    } else {
        seq![]
    }
}

/// The scopes after the arguments `arguments[i..]` have been bound to the
/// parameters of the same index in the scope `env`.
pub open spec fn bind_arguments(
    envs: Seq<BindingsView>,
    env: usize,
    params: Seq<TokenView>,
    arguments: Seq<ObjectView>,
    i: int,
) -> Seq<BindingsView>
    decreases arguments.len() - i,
{
    if i < 0 || i >= arguments.len() {
        envs
    } else if i < params.len() {
        bind_arguments(
            bound(envs, env, params[i].lexeme, arguments[i]),
            env,
            params,
            arguments,
            i + 1,
        )
    } else {
        bind_arguments(envs, env, params, arguments, i + 1)
    }
}

/// The functions made for the methods of a class, each closed over the
/// scope `closure`; the one named `init` is an initializer.
pub open spec fn method_functions(ast: AstView, methods: Seq<usize>, closure: usize) -> Seq<
    LoxFunction,
> {
    Seq::new(
        methods.len(),
        |i: int|
            LoxFunction {
                declaration: methods[i],
                closure,
                is_initializer: function_name(ast, methods[i]) == "init"@,
            },
    )
}

/// The class with the methods `methods[i..]` added in order; the function
/// made for the method of index `k` is kept under the index `first + k`. A
/// method declared twice is the one declared last.
pub open spec fn add_methods(
    class: ClassView,
    ast: AstView,
    methods: Seq<usize>,
    first: nat,
    i: int,
) -> ClassView
    decreases methods.len() - i,
{
    if i < 0 || i >= methods.len() {
        class
    } else {
        add_methods(
            with_method(class, function_name(ast, methods[i]), (first + i) as usize),
            ast,
            methods,
            first,
            i + 1,
        )
    }
}

/// Whether the scopes that `frame` has saved or closes over are among the
/// first `scopes` scopes of the store.
pub open spec fn frame_ok(frame: FrameView, scopes: nat) -> bool {
    match frame {
        FrameView::Sequence { saved, .. } => match saved {
            Some(s) => s < scopes,
            None => true,
        },
        FrameView::Call { saved, closure, .. } => saved < scopes && closure < scopes,
        FrameView::Program { saved, .. } => saved < scopes,
        _ => true,
    }
}

/// Whether the scopes that the move `m` names are among the first `scopes`
/// scopes of the store.
pub open spec fn move_ok(m: MoveView, scopes: nat) -> bool {
    match m {
        MoveView::PushEvaluate(frame, _) => frame_ok(frame, scopes),
        MoveView::PushExecute(frame, _) => frame_ok(frame, scopes),
        MoveView::LeaveBlock(saved) => match saved {
            Some(s) => s < scopes,
            None => true,
        },
        MoveView::LeaveCall { saved, closure, .. } => saved < scopes && closure < scopes,
        _ => true,
    }
}

impl MachineView {
    /// Whether every scope that the state names is in the store: the
    /// current scope, the scopes that the frames of the stack have saved,
    /// and the scopes that the functions close over. Every step keeps this
    /// ([`lemma_step_consistent`]), so a saved scope can always be restored.
    pub open spec fn consistent(self) -> bool {
        &&& self.environment < self.environments.len()
        &&& forall|i: int|
            0 <= i < self.stack.len() ==> frame_ok(
                #[trigger] self.stack[i],
                self.environments.len(),
            )
        &&& forall|i: int|
            0 <= i < self.functions.len() ==> (#[trigger] self.functions[i]).closure
                < self.environments.len()
    }

    /// The next step hands `value` to the top of the stack.
    pub open spec fn give(self, value: ObjectView) -> Outcome {
        (MachineView { task: TaskView::Give(value), ..self }, ActionView::Continue)
    }

    /// The next step begins to unwind the stack with the error.
    pub open spec fn fail(self, error: LoxResultView) -> Outcome {
        (
            MachineView { task: TaskView::Unwind(SignalView::Error(error)), ..self },
            ActionView::Continue,
        )
    }

    /// With `frame` on top of the stack.
    pub open spec fn push(self, frame: FrameView) -> MachineView {
        MachineView { stack: self.stack.push(frame), ..self }
    }

    /// With the scope `saved` current. A scope that is not in the store is
    /// not made current; in a consistent state every saved scope is in the
    /// store ([`lemma_leaving_a_block_restores`],
    /// [`lemma_leaving_a_call_restores`]).
    pub open spec fn restore(self, saved: Option<usize>) -> MachineView {
        match saved {
            Some(env) => if env < self.environments.len() {
                MachineView { environment: env, ..self }
            } else {
                self
            },
            None => self,
        }
    }

    /// The value of the variable that the expression `expr` names: by its
    /// depth if the resolver recorded one, else from the global scope.
    pub open spec fn variable(self, expr: usize, name: TokenView) -> Result<
        ObjectView,
        LoxResultView,
    > {
        let found = match depth_of(self.locals, expr) {
            Some(distance) => lookup_at(
                self.environments,
                self.environment,
                distance as nat,
                name.lexeme,
            ),
            None => lookup(self.environments, GLOBALS, name.lexeme),
        };
        match found {
            Some(v) => Ok(v),
            None => Err(undefined_variable(name)),
        }
    }

    /// A variable is read.
    pub open spec fn read(self, expr: usize, name: TokenView) -> Outcome {
        match self.variable(expr, name) {
            Ok(v) => self.give(v),
            Err(e) => self.fail(e),
        }
    }

    /// A variable is assigned: at its depth if the resolver recorded one,
    /// else in the global scope, where it must be bound already.
    pub open spec fn assign(self, expr: usize, name: TokenView, value: ObjectView) -> Outcome {
        let changed = match depth_of(self.locals, expr) {
            Some(distance) => assigned_at(
                self.environments,
                self.environment,
                distance as nat,
                name.lexeme,
                value,
            ),
            None => assigned(self.environments, GLOBALS, name.lexeme, value),
        };
        match changed {
            Some(environments) => MachineView { environments, ..self }.give(value),
            None => self.fail(undefined_variable(name)),
        }
    }

    /// A name is bound in the current scope.
    pub open spec fn define(self, name: Seq<char>, value: ObjectView) -> MachineView {
        MachineView {
            environments: bound(self.environments, self.environment, name, value),
            ..self
        }
    }

    /// A block is entered: its statements run in a new scope inside the
    /// current one, which is restored when the block is left.
    pub open spec fn enter_block(self, stmt: usize) -> Outcome {
        MachineView {
            environments: self.environments.push(empty_scope(self.environment)),
            environment: self.environments.len() as usize,
            stack: self.stack.push(
                FrameView::Sequence { stmt, next: 0, saved: Some(self.environment) },
            ),
            ..self
        }.give(ObjectView::Nil)
    }

    /// A call is left with the value `value`: the caller's scope is
    /// restored. An initializer gives the `this` of its closure whatever it
    /// returns.
    pub open spec fn leave_call(
        self,
        saved: usize,
        closure: usize,
        is_initializer: bool,
        value: ObjectView,
    ) -> Outcome {
        let back = self.restore(Some(saved));
        if is_initializer {
            match lookup_at(self.environments, closure, 0, "this"@) {
                Some(this) => back.give(this),
                None => back.give(value),
            }
        } else {
            back.give(value)
        }
    }

    /// A field of an instance is set.
    pub open spec fn set_field(self, instance: usize, name: TokenView, value: ObjectView)
        -> Outcome {
        if instance < self.instances.len() {
            MachineView {
                instances: self.instances.update(
                    instance as int,
                    with_field(self.instances[instance as int], name.lexeme, value),
                ),
                ..self
            }.give(value)
        } else {
            self.fail(system_error("no such instance"@))
        }
    }

    /// A function is declared: it closes over the current scope, and its
    /// name is bound to it there.
    pub open spec fn declare_function(self, stmt: usize) -> Outcome {
        MachineView {
            functions: self.functions.push(
                LoxFunction { declaration: stmt, closure: self.environment, is_initializer: false },
            ),
            ..self
        }.define(
            function_name(self.ast, stmt),
            ObjectView::Func(self.functions.len() as usize),
        ).give(ObjectView::Nil)
    }

    /// The display form of a value that is not a number: a string is its
    /// text, a function `<fun name(a, b)>`, a class `<class Name>`, an
    /// instance `instance of Name`, the native function `<native-fun()>`.
    pub open spec fn display(self, value: ObjectView) -> Seq<char> {
        match value {
            ObjectView::Str(s) => s,
            ObjectView::Number(_) => seq![],
            ObjectView::Bool(b) => if b {
                "true"@
            } else {
                "false"@
            },
            ObjectView::Func(f) => if f < self.functions.len() {
                function_text(self.ast, self.functions[f as int].declaration)
            } else {
                "<fun>"@
            },
            ObjectView::Class(c) => "<class "@ + self.class_name(c) + ">"@,
            ObjectView::Instance(i) => "instance of "@ + (if i < self.instances.len() {
                self.class_name(self.instances[i as int].klass)
            } else {
                seq![]
            }),
            ObjectView::Native(_) => "<native-fun()>"@,
            ObjectView::Nil => "nil"@,
        }
    }

    /// The name of the class `c`.
    pub open spec fn class_name(self, c: usize) -> Seq<char> {
        if c < self.classes.len() {
            self.classes[c as int].name
        } else {
            seq![]
        }
    }

    /// The method `name` of the class `c` is bound to `this`: the function
    /// made is closed over a new scope that binds `this` and lies inside the
    /// method's closure. A class without the method: the runtime error
    /// "Undefined property".
    pub open spec fn bound_method(self, c: usize, name: TokenView, this: ObjectView) -> Outcome {
        match method_of(self.classes, c, name.lexeme) {
            Some(f) => if f >= self.functions.len() {
                self.fail(system_error("no such function"@))
            } else {
                let method = self.functions[f as int];
                if method.closure >= self.environments.len() {
                    self.fail(system_error("no such scope"@))
                } else {
                    let scope = self.environments.len() as usize;
                    MachineView {
                        environments: bound(
                            self.environments.push(empty_scope(method.closure)),
                            scope,
                            "this"@,
                            this,
                        ),
                        functions: self.functions.push(
                            LoxFunction {
                                declaration: method.declaration,
                                closure: scope,
                                is_initializer: method.is_initializer,
                            },
                        ),
                        ..self
                    }.give(ObjectView::Func(self.functions.len() as usize))
                }
            },
            None => self.fail(runtime_error(name, "Undefined property "@ + name.lexeme)),
        }
    }

    /// A property is read: a field of the instance first, then a method of
    /// its class, bound to the instance. Only instances have properties.
    pub open spec fn get_property(self, name: TokenView, object: ObjectView) -> Outcome {
        match object {
            ObjectView::Instance(i) => if i >= self.instances.len() {
                self.fail(system_error("no such instance"@))
            } else {
                match field(self.instances[i as int], name.lexeme) {
                    Some(v) => self.give(v),
                    None => self.bound_method(self.instances[i as int].klass, name, object),
                }
            },
            _ => self.fail(runtime_error(name, "Only instances have properties"@)),
        }
    }

    /// `super.method`: the scope that binds `super` is found by the depth
    /// recorded for the expression, `this` one scope further in; the method
    /// of the superclass is bound to `this`.
    pub open spec fn super_method(self, expr: usize, keyword: TokenView, method: TokenView)
        -> Outcome {
        match depth_of(self.locals, expr) {
            None => self.fail(undefined_variable(keyword)),
            Some(distance) => match lookup_at(
                self.environments,
                self.environment,
                distance as nat,
                keyword.lexeme,
            ) {
                None => self.fail(undefined_variable(keyword)),
                Some(superclass) => if distance == 0 {
                    self.fail(undefined_variable(keyword))
                } else {
                    match lookup_at(
                        self.environments,
                        self.environment,
                        (distance - 1) as nat,
                        "this"@,
                    ) {
                        None => self.fail(undefined_variable(this_of(keyword))),
                        Some(this) => match superclass {
                            ObjectView::Class(c) => self.bound_method(c, method, this),
                            _ => self.fail(runtime_error(keyword, "Superclass must be a class"@)),
                        },
                    }
                },
            },
        }
    }

    /// The body of `function` is entered with the arguments bound to its
    /// parameters in a new scope inside its closure. The number of
    /// arguments must be the number of parameters.
    pub open spec fn enter(self, paren: TokenView, function: LoxFunction, arguments: Seq<ObjectView>)
        -> Outcome {
        match parameters(self.ast, function.declaration) {
            None => self.fail(system_error("no such function"@)),
            Some(params) => if arguments.len() != params.len() {
                self.fail(
                    runtime_error(paren, arity_text(params.len() as usize, arguments.len() as usize)),
                )
            } else if function.closure >= self.environments.len() {
                self.fail(system_error("no such scope"@))
            } else {
                let scope = self.environments.len() as usize;
                MachineView {
                    environments: bind_arguments(
                        self.environments.push(empty_scope(function.closure)),
                        scope,
                        params,
                        arguments,
                        0,
                    ),
                    environment: scope,
                    stack: self.stack.push(
                        FrameView::Call {
                            saved: self.environment,
                            closure: function.closure,
                            is_initializer: function.is_initializer,
                        },
                    ).push(
                        FrameView::Sequence { stmt: function.declaration, next: 0, saved: None },
                    ),
                    ..self
                }.give(ObjectView::Nil)
            },
        }
    }

    /// A class is called: an instance is made; if the class has an
    /// initializer, it is bound to the instance and called with the
    /// arguments. Without one the class takes no arguments.
    pub open spec fn instantiate(self, paren: TokenView, c: usize, arguments: Seq<ObjectView>)
        -> Outcome {
        if c >= self.classes.len() {
            self.fail(system_error("no such class"@))
        } else {
            let instance = self.instances.len() as usize;
            let made = MachineView {
                instances: self.instances.push(
                    InstanceView { klass: c, field_names: seq![], field_values: seq![] },
                ),
                ..self
            };
            match method_of(self.classes, c, "init"@) {
                Some(f) => if f >= self.functions.len() {
                    self.fail(system_error("no such function"@))
                } else {
                    let initializer = self.functions[f as int];
                    match parameters(self.ast, initializer.declaration) {
                        None => self.fail(system_error("no such function"@)),
                        Some(params) => if arguments.len() != params.len() {
                            self.fail(
                                runtime_error(
                                    paren,
                                    arity_text(params.len() as usize, arguments.len() as usize),
                                ),
                            )
                        } else if initializer.closure >= self.environments.len() {
                            made.fail(system_error("no such scope"@))
                        } else {
                            let scope = self.environments.len() as usize;
                            MachineView {
                                environments: bound(
                                    self.environments.push(empty_scope(initializer.closure)),
                                    scope,
                                    "this"@,
                                    ObjectView::Instance(instance),
                                ),
                                ..made
                            }.enter(
                                paren,
                                LoxFunction {
                                    declaration: initializer.declaration,
                                    closure: scope,
                                    is_initializer: initializer.is_initializer,
                                },
                                arguments,
                            )
                        },
                    }
                },
                None => if arguments.len() != 0 {
                    self.fail(runtime_error(paren, arity_text(0, arguments.len() as usize)))
                } else {
                    made.give(ObjectView::Instance(instance))
                },
            }
        }
    }

    /// A value is called: a function, a class, or the native clock, for
    /// which the host is asked. Nothing else can be called.
    pub open spec fn call(self, paren: TokenView, callee: ObjectView, arguments: Seq<ObjectView>)
        -> Outcome {
        match callee {
            ObjectView::Func(f) => if f >= self.functions.len() {
                self.fail(system_error("no such function"@))
            } else {
                self.enter(paren, self.functions[f as int], arguments)
            },
            ObjectView::Class(c) => self.instantiate(paren, c, arguments),
            ObjectView::Native(_) => if arguments.len() != 0 {
                self.fail(runtime_error(paren, arity_text(0, arguments.len() as usize)))
            } else {
                (
                    MachineView { task: TaskView::Await(PendingView::Number), ..self },
                    ActionView::Clock,
                )
            },
            _ => self.fail(runtime_error(paren, "Can only call functions and classes"@)),
        }
    }

    /// A class is declared. Its name is bound to `nil` first; with a
    /// superclass, the methods close over a new scope that binds `super`;
    /// then the class is assigned to its name.
    pub open spec fn declare_class(self, stmt: usize, superclass: Option<usize>) -> Outcome {
        if stmt >= self.ast.stmts.len() {
            self.fail(system_error("no such statement"@))
        } else {
            match self.ast.stmts[stmt as int] {
                StmtView::Class { name, methods, .. } => {
                    let named = bound(
                        self.environments,
                        self.environment,
                        name.lexeme,
                        ObjectView::Nil,
                    );
                    let closure = match superclass {
                        Some(_) => named.len() as usize,
                        None => self.environment,
                    };
                    let scoped = match superclass {
                        Some(parent) => bound(
                            named.push(empty_scope(self.environment)),
                            closure,
                            "super"@,
                            ObjectView::Class(parent),
                        ),
                        None => named,
                    };
                    let made = method_functions(self.ast, methods, closure);
                    let class = add_methods(
                        ClassView {
                            name: name.lexeme,
                            superclass,
                            method_names: seq![],
                            method_functions: seq![],
                        },
                        self.ast,
                        methods,
                        self.functions.len(),
                        0,
                    );
                    let declared = MachineView {
                        environments: scoped,
                        functions: self.functions + made,
                        classes: self.classes.push(class),
                        ..self
                    };
                    match assigned(
                        scoped,
                        self.environment,
                        name.lexeme,
                        ObjectView::Class(self.classes.len() as usize),
                    ) {
                        Some(environments) => MachineView { environments, ..declared }.give(
                            ObjectView::Nil,
                        ),
                        None => declared.fail(undefined_variable(name)),
                    }
                },
                _ => self.fail(system_error("frame does not fit its node"@)),
            }
        }
    }
}

/// The token `this` at the place of `at`.
pub open spec fn this_of(at: TokenView) -> TokenView {
    TokenView {
        ttype: crate::token::TokenType::This,
        lexeme: "this"@,
        literal: None,
        line: at.line,
        col: at.col,
    }
}

/// What the move `m` does to the state `state`, and what is asked of the
/// host.
pub open spec fn perform(state: MachineView, m: MoveView) -> Outcome {
    match m {
        MoveView::Evaluate(e) => (
            MachineView { task: TaskView::Evaluate(e), ..state },
            ActionView::Continue,
        ),
        MoveView::Execute(s) => (
            MachineView { task: TaskView::Execute(s), ..state },
            ActionView::Continue,
        ),
        MoveView::PushEvaluate(frame, e) => (
            MachineView { task: TaskView::Evaluate(e), ..state.push(frame) },
            ActionView::Continue,
        ),
        MoveView::PushExecute(frame, s) => (
            MachineView { task: TaskView::Execute(s), ..state.push(frame) },
            ActionView::Continue,
        ),
        MoveView::Give(v) => state.give(v),
        MoveView::Ask(action, pending) => (
            MachineView { task: TaskView::Await(pending), ..state },
            action,
        ),
        MoveView::Unwind(signal) => (
            MachineView { task: TaskView::Unwind(signal), ..state },
            ActionView::Continue,
        ),
        MoveView::Lookup { expr, name } => state.read(expr, name),
        MoveView::Assign { expr, name, value } => state.assign(expr, name, value),
        MoveView::Call { paren, callee, arguments } => state.call(paren, callee, arguments),
        MoveView::GetProperty { name, object } => state.get_property(name, object),
        MoveView::SetField { instance, name, value } => state.set_field(instance, name, value),
        MoveView::Super { expr, keyword, method } => state.super_method(expr, keyword, method),
        MoveView::Print(v) => (
            MachineView { task: TaskView::Await(PendingView::Printed), ..state },
            ActionView::Print(state.display(v)),
        ),
        MoveView::Define { name, value } => state.define(name.lexeme, value).give(ObjectView::Nil),
        MoveView::EnterBlock(stmt) => state.enter_block(stmt),
        MoveView::LeaveBlock(saved) => state.restore(saved).give(ObjectView::Nil),
        MoveView::LeaveCall { saved, closure, is_initializer, value } => state.leave_call(
            saved,
            closure,
            is_initializer,
            value,
        ),
        MoveView::DeclareFunction(stmt) => state.declare_function(stmt),
        MoveView::DeclareClass { stmt, superclass } => state.declare_class(stmt, superclass),
    }
}

/// The error with which a run ends when a signal has left the last frame
/// behind: the error itself; for a `break` or a `return`, which the
/// resolver keeps to loops and functions, a system error.
pub open spec fn escaped_error(signal: SignalView) -> LoxResultView {
    match signal {
        SignalView::Error(e) => e,
        SignalView::Break => system_error("break outside of a loop"@),
        SignalView::Return(_) => system_error("return outside of a function"@),
    }
}

/// One step of the evaluator: the state and the action that follow from
/// `state` and the host's answer `event`.
///
/// * An expression or statement to run: the move its node asks for.
/// * A value to give: the frame on top of the stack is taken off and says
///   what follows; with the stack empty the run has ended with the value.
/// * A signal: the frame on top is taken off; it stops the signal or lets it
///   pass, restoring the scope it had saved. With the stack empty the run
///   has ended with an error.
/// * An answer awaited: what follows from `event`.
pub open spec fn step(state: MachineView, event: EventView) -> Outcome {
    let idle = MachineView { task: TaskView::Idle, ..state };
    match state.task {
        TaskView::Idle => (idle, ActionView::Finished(Ok(ObjectView::Nil))),
        TaskView::Evaluate(e) => perform(idle, expression_move(state.ast, e)),
        TaskView::Execute(s) => perform(idle, statement_move(state.ast, s)),
        TaskView::Give(v) => if state.stack.len() == 0 {
            (idle, ActionView::Finished(Ok(v)))
        } else {
            perform(
                MachineView { stack: state.stack.drop_last(), ..idle },
                frame_move(state.ast, state.stack.last(), v),
            )
        },
        TaskView::Unwind(signal) => if state.stack.len() == 0 {
            (idle, ActionView::Finished(Err(escaped_error(signal))))
        } else {
            let popped = MachineView { stack: state.stack.drop_last(), ..idle };
            match frame_catch(state.stack.last(), signal) {
                CaughtView::Passed(saved, passed) => perform(
                    popped.restore(saved),
                    MoveView::Unwind(passed),
                ),
                CaughtView::Stopped(m) => perform(popped, m),
            }
        },
        TaskView::Await(pending) => perform(idle, answer_move(pending, event)),
    }
}

/// A variable holds the value it was declared with: once `var name = e;`
/// has bound `name` to the value of `e` in the current scope, a use of the
/// name that is resolved to that scope (or, in the global scope, left to
/// the globals) evaluates to that value.
pub proof fn lemma_declared_variable_is_read(
    state: MachineView,
    name: TokenView,
    value: ObjectView,
    expr: usize,
    used: TokenView,
)
    requires
        crate::environment::well_formed(state.environments),
        state.environment < state.environments.len(),
        used.lexeme == name.lexeme,
        depth_of(state.locals, expr) == Some(0usize) || (depth_of(state.locals, expr) is None
            && state.environment == GLOBALS),
    ensures
        perform(
            perform(state, MoveView::Define { name, value }).0,
            MoveView::Lookup { expr, name: used },
        ) == (
            MachineView {
                task: TaskView::Give(value),
                ..state.define(name.lexeme, value)
            },
            ActionView::Continue,
        ),
{
    let declared = state.define(name.lexeme, value);
    crate::environment::lemma_define_then_get(
        state.environments,
        state.environment,
        name.lexeme,
        value,
        name.lexeme,
    );
    crate::environment::lemma_home(declared.environments, declared.environment, name.lexeme);
    crate::environment::lemma_local_put(
        state.environments[state.environment as int],
        name.lexeme,
        value,
        name.lexeme,
    );
    assert(crate::environment::ancestor(declared.environments, declared.environment, 0) == Some(
        declared.environment,
    ));
}

/// An assignment is what later uses read, and it touches nothing else:
/// once `name = e` has assigned the value of `e`, a use of the name that is
/// resolved as the assignment was (to the same depth, or both left to the
/// globals) evaluates to that value; every other name evaluates to what it
/// did before; and no scope is added to the store.
pub proof fn lemma_assigned_variable_is_read(
    state: MachineView,
    name: TokenView,
    value: ObjectView,
    target: usize,
    expr: usize,
    used: TokenView,
    elsewhere: usize,
    other: TokenView,
)
    requires
        crate::environment::well_formed(state.environments),
        used.lexeme == name.lexeme,
        other.lexeme != name.lexeme,
        depth_of(state.locals, target) == depth_of(state.locals, expr),
        perform(state, MoveView::Assign { expr: target, name, value }).0.task is Give,
    ensures
        perform(state, MoveView::Assign { expr: target, name, value }).0.task == TaskView::Give(
            value,
        ),
        perform(
            perform(state, MoveView::Assign { expr: target, name, value }).0,
            MoveView::Lookup { expr, name: used },
        ).0.task == TaskView::Give(value),
        perform(state, MoveView::Assign { expr: target, name, value }).0.variable(elsewhere, other)
            == state.variable(elsewhere, other),
        perform(state, MoveView::Assign { expr: target, name, value }).0.environments.len()
            == state.environments.len(),
{
    let envs = state.environments;
    match depth_of(state.locals, target) {
        Some(distance) => {
            let a = crate::environment::ancestor(envs, state.environment, distance as nat)->Some_0;
            crate::environment::lemma_assign_at_then_get(
                envs,
                state.environment,
                distance as nat,
                name.lexeme,
                value,
                state.environment,
                distance as nat,
            );
            crate::environment::lemma_bound_frame(envs, a, name.lexeme, value);
            match depth_of(state.locals, elsewhere) {
                Some(d) => crate::environment::lemma_bound_keeps_other_names(
                    envs,
                    a,
                    name.lexeme,
                    value,
                    state.environment,
                    other.lexeme,
                    d as nat,
                ),
                None => crate::environment::lemma_bound_keeps_other_names(
                    envs,
                    a,
                    name.lexeme,
                    value,
                    GLOBALS,
                    other.lexeme,
                    0,
                ),
            }
        },
        None => {
            let h = crate::environment::home(envs, GLOBALS, name.lexeme)->Some_0;
            crate::environment::lemma_assign_then_get(envs, GLOBALS, name.lexeme, value);
            crate::environment::lemma_bound_frame(envs, h, name.lexeme, value);
            match depth_of(state.locals, elsewhere) {
                Some(d) => crate::environment::lemma_bound_keeps_other_names(
                    envs,
                    h,
                    name.lexeme,
                    value,
                    state.environment,
                    other.lexeme,
                    d as nat,
                ),
                None => crate::environment::lemma_bound_keeps_other_names(
                    envs,
                    h,
                    name.lexeme,
                    value,
                    GLOBALS,
                    other.lexeme,
                    0,
                ),
            }
        },
    }
}

/// Binding arguments keeps the store well formed and every scope where it
/// lies.
pub proof fn lemma_bind_arguments_frame(
    envs: Seq<BindingsView>,
    env: usize,
    params: Seq<TokenView>,
    arguments: Seq<ObjectView>,
    i: int,
    scope: usize,
)
    requires
        crate::environment::well_formed(envs),
    ensures
        crate::environment::well_formed(bind_arguments(envs, env, params, arguments, i)),
        crate::environment::parent(bind_arguments(envs, env, params, arguments, i), scope)
            == crate::environment::parent(envs, scope),
    decreases arguments.len() - i,
{
    if 0 <= i < arguments.len() {
        if i < params.len() {
            crate::environment::lemma_bound_frame(envs, env, params[i].lexeme, arguments[i]);
            lemma_bind_arguments_frame(
                bound(envs, env, params[i].lexeme, arguments[i]),
                env,
                params,
                arguments,
                i + 1,
                scope,
            );
        } else {
            lemma_bind_arguments_frame(envs, env, params, arguments, i + 1, scope);
        }
    }
}

/// The scope of a call lies in the closure of the function called: when a
/// function is entered, the new current scope is a new scope of the store,
/// and the scope around it is the one the function closes over. So the
/// calls of two functions with one closure run in scopes that lie in the
/// same scope, which they share
/// ([`crate::environment::lemma_shared_closure`]).
pub proof fn lemma_call_scope_lies_in_closure(
    state: MachineView,
    paren: TokenView,
    function: LoxFunction,
    arguments: Seq<ObjectView>,
)
    requires
        crate::environment::well_formed(state.environments),
        state.environments.len() < usize::MAX,
        state.enter(paren, function, arguments).0.task is Give,
    ensures
        ({
            let entered = state.enter(paren, function, arguments).0;
            &&& crate::environment::well_formed(entered.environments)
            &&& entered.environment == state.environments.len()
            &&& entered.environments.len() == state.environments.len() + 1
            &&& crate::environment::parent(entered.environments, entered.environment) == Some(
                function.closure,
            )
        }),
{
    let params = parameters(state.ast, function.declaration)->Some_0;
    let scope = state.environments.len() as usize;
    let pushed = state.environments.push(empty_scope(function.closure));
    assert(crate::environment::well_formed(pushed)) by {
        assert forall|k: int| 0 <= k < pushed.len() implies crate::environment::scope_wf(
            #[trigger] pushed[k],
        ) by {
            if k < state.environments.len() {
                assert(pushed[k] == state.environments[k]);
            }
        }
    }
    lemma_bind_arguments_len(pushed, scope, params, arguments, 0);
    lemma_bind_arguments_frame(pushed, scope, params, arguments, 0, scope);
    assert(pushed[scope as int] == empty_scope(function.closure));
    assert(crate::environment::parent(pushed, scope) == Some(function.closure));
}

/// Binding arguments adds no scope.
pub proof fn lemma_bind_arguments_len(
    envs: Seq<BindingsView>,
    env: usize,
    params: Seq<TokenView>,
    arguments: Seq<ObjectView>,
    i: int,
)
    ensures
        bind_arguments(envs, env, params, arguments, i).len() == envs.len(),
    decreases arguments.len() - i,
{
    if 0 <= i < arguments.len() {
        if i < params.len() {
            lemma_bind_arguments_len(
                bound(envs, env, params[i].lexeme, arguments[i]),
                env,
                params,
                arguments,
                i + 1,
            );
        } else {
            lemma_bind_arguments_len(envs, env, params, arguments, i + 1);
        }
    }
}

/// A state stays consistent when scopes are added to the store or changed
/// in it, and nothing else changes.
pub proof fn lemma_consistent_with_more_scopes(state: MachineView, environments: Seq<BindingsView>)
    requires
        state.consistent(),
        environments.len() >= state.environments.len(),
    ensures
        (MachineView { environments, ..state }).consistent(),
{
    let grown = MachineView { environments, ..state };
    assert forall|i: int| 0 <= i < grown.stack.len() implies frame_ok(
        #[trigger] grown.stack[i],
        grown.environments.len(),
    ) by {
        assert(frame_ok(state.stack[i], state.environments.len()));
    }
}

/// A state stays consistent when a frame is pushed whose scopes are in the
/// store.
pub proof fn lemma_consistent_with_frame(state: MachineView, frame: FrameView)
    requires
        state.consistent(),
        frame_ok(frame, state.environments.len()),
    ensures
        state.push(frame).consistent(),
{
    let pushed = state.push(frame);
    assert forall|i: int| 0 <= i < pushed.stack.len() implies frame_ok(
        #[trigger] pushed.stack[i],
        pushed.environments.len(),
    ) by {
        if i < state.stack.len() {
            assert(pushed.stack[i] == state.stack[i]);
        }
    }
}

/// A state stays consistent when a function is added that closes over a
/// scope of the store.
pub proof fn lemma_consistent_with_function(state: MachineView, function: LoxFunction)
    requires
        state.consistent(),
        function.closure < state.environments.len(),
    ensures
        (MachineView { functions: state.functions.push(function), ..state }).consistent(),
{
    let added = MachineView { functions: state.functions.push(function), ..state };
    assert forall|i: int| 0 <= i < added.functions.len() implies (#[trigger] added.functions[i])
        .closure < added.environments.len() by {
        if i < state.functions.len() {
            assert(added.functions[i] == state.functions[i]);
        }
    }
}

/// Entering a function keeps the state consistent.
pub proof fn lemma_enter_consistent(
    state: MachineView,
    paren: TokenView,
    function: LoxFunction,
    arguments: Seq<ObjectView>,
)
    requires
        state.consistent(),
    ensures
        state.enter(paren, function, arguments).0.consistent(),
        state.enter(paren, function, arguments).0.environments.len() >= state.environments.len(),
        state.enter(paren, function, arguments).0.functions == state.functions,
{
    match parameters(state.ast, function.declaration) {
        None => {},
        Some(params) => {
            if arguments.len() == params.len() && function.closure < state.environments.len() {
                let scope = state.environments.len() as usize;
                let pushed = state.environments.push(empty_scope(function.closure));
                lemma_bind_arguments_len(pushed, scope, params, arguments, 0);
                let environments = bind_arguments(pushed, scope, params, arguments, 0);
                lemma_consistent_with_more_scopes(state, environments);
                let grown = MachineView { environments, ..state };
                let call = FrameView::Call {
                    saved: state.environment,
                    closure: function.closure,
                    is_initializer: function.is_initializer,
                };
                lemma_consistent_with_frame(grown, call);
                lemma_consistent_with_frame(
                    grown.push(call),
                    FrameView::Sequence { stmt: function.declaration, next: 0, saved: None },
                );
            }
        },
    }
}

/// Binding a method keeps the state consistent.
pub proof fn lemma_bound_method_consistent(
    state: MachineView,
    c: usize,
    name: TokenView,
    this: ObjectView,
)
    requires
        state.consistent(),
    ensures
        state.bound_method(c, name, this).0.consistent(),
        state.bound_method(c, name, this).0.environments.len() >= state.environments.len(),
{
    match method_of(state.classes, c, name.lexeme) {
        Some(f) => {
            if f < state.functions.len() {
                let method = state.functions[f as int];
                if method.closure < state.environments.len() {
                    let scope = state.environments.len() as usize;
                    let environments = bound(
                        state.environments.push(empty_scope(method.closure)),
                        scope,
                        "this"@,
                        this,
                    );
                    lemma_consistent_with_more_scopes(state, environments);
                    lemma_consistent_with_function(
                        MachineView { environments, ..state },
                        LoxFunction {
                            declaration: method.declaration,
                            closure: scope,
                            is_initializer: method.is_initializer,
                        },
                    );
                }
            }
        },
        None => {},
    }
}

/// Calling a class keeps the state consistent.
pub proof fn lemma_instantiate_consistent(
    state: MachineView,
    paren: TokenView,
    c: usize,
    arguments: Seq<ObjectView>,
)
    requires
        state.consistent(),
    ensures
        state.instantiate(paren, c, arguments).0.consistent(),
        state.instantiate(paren, c, arguments).0.environments.len() >= state.environments.len(),
{
    if c < state.classes.len() {
        let instance = state.instances.len() as usize;
        let made = MachineView {
            instances: state.instances.push(
                InstanceView { klass: c, field_names: seq![], field_values: seq![] },
            ),
            ..state
        };
        assert(made.consistent());
        match method_of(state.classes, c, "init"@) {
            Some(f) => {
                if f < state.functions.len() {
                    let initializer = state.functions[f as int];
                    match parameters(state.ast, initializer.declaration) {
                        None => {},
                        Some(params) => {
                            if arguments.len() == params.len() && initializer.closure
                                < state.environments.len() {
                                let scope = state.environments.len() as usize;
                                let environments = bound(
                                    state.environments.push(empty_scope(initializer.closure)),
                                    scope,
                                    "this"@,
                                    ObjectView::Instance(instance),
                                );
                                lemma_consistent_with_more_scopes(made, environments);
                                lemma_enter_consistent(
                                    MachineView { environments, ..made },
                                    paren,
                                    LoxFunction {
                                        declaration: initializer.declaration,
                                        closure: scope,
                                        is_initializer: initializer.is_initializer,
                                    },
                                    arguments,
                                );
                            }
                        },
                    }
                }
            },
            None => {},
        }
    }
}

/// Declaring a class keeps the state consistent.
pub proof fn lemma_declare_class_consistent(
    state: MachineView,
    stmt: usize,
    superclass: Option<usize>,
)
    requires
        state.consistent(),
    ensures
        state.declare_class(stmt, superclass).0.consistent(),
        state.declare_class(stmt, superclass).0.environments.len() >= state.environments.len(),
{
    if stmt < state.ast.stmts.len() {
        match state.ast.stmts[stmt as int] {
            StmtView::Class { name, methods, .. } => {
                let named = bound(
                    state.environments,
                    state.environment,
                    name.lexeme,
                    ObjectView::Nil,
                );
                let closure = match superclass {
                    Some(_) => named.len() as usize,
                    None => state.environment,
                };
                let scoped = match superclass {
                    Some(parent) => bound(
                        named.push(empty_scope(state.environment)),
                        closure,
                        "super"@,
                        ObjectView::Class(parent),
                    ),
                    None => named,
                };
                let made = method_functions(state.ast, methods, closure);
                let out = state.declare_class(stmt, superclass).0;
                assert(out.environments.len() == scoped.len());
                assert(closure < scoped.len());
                assert(out.functions == state.functions + made);
                assert forall|i: int| 0 <= i < out.functions.len() implies (
                #[trigger] out.functions[i]).closure < out.environments.len() by {
                    if i < state.functions.len() {
                        assert(out.functions[i] == state.functions[i]);
                    } else {
                        assert(out.functions[i] == made[i - state.functions.len()]);
                    }
                }
                assert forall|i: int| 0 <= i < out.stack.len() implies frame_ok(
                    #[trigger] out.stack[i],
                    out.environments.len(),
                ) by {
                    assert(frame_ok(state.stack[i], state.environments.len()));
                }
            },
            _ => {},
        }
    }
}

/// A move whose scopes are in the store keeps the state consistent, and
/// takes no scope out of the store.
pub proof fn lemma_perform_consistent(state: MachineView, m: MoveView)
    requires
        state.consistent(),
        move_ok(m, state.environments.len()),
    ensures
        perform(state, m).0.consistent(),
        perform(state, m).0.environments.len() >= state.environments.len(),
{
    match m {
        MoveView::PushEvaluate(frame, e) => {
            lemma_consistent_with_frame(state, frame);
        },
        MoveView::PushExecute(frame, s) => {
            lemma_consistent_with_frame(state, frame);
        },
        MoveView::Assign { expr, name, value } => {
            let out = state.assign(expr, name, value).0;
            lemma_consistent_with_more_scopes(state, out.environments);
        },
        MoveView::Call { paren, callee, arguments } => {
            match callee {
                ObjectView::Func(f) => {
                    if f < state.functions.len() {
                        lemma_enter_consistent(state, paren, state.functions[f as int], arguments);
                    }
                },
                ObjectView::Class(c) => {
                    lemma_instantiate_consistent(state, paren, c, arguments);
                },
                _ => {},
            }
        },
        MoveView::GetProperty { name, object } => {
            match object {
                ObjectView::Instance(i) => {
                    if i < state.instances.len() {
                        lemma_bound_method_consistent(
                            state,
                            state.instances[i as int].klass,
                            name,
                            object,
                        );
                    }
                },
                _ => {},
            }
        },
        MoveView::Super { expr, keyword, method } => {
            match depth_of(state.locals, expr) {
                Some(distance) => {
                    if distance > 0 {
                        match lookup_at(
                            state.environments,
                            state.environment,
                            distance as nat,
                            keyword.lexeme,
                        ) {
                            Some(ObjectView::Class(c)) => {
                                match lookup_at(
                                    state.environments,
                                    state.environment,
                                    (distance - 1) as nat,
                                    "this"@,
                                ) {
                                    Some(this) => {
                                        lemma_bound_method_consistent(state, c, method, this);
                                    },
                                    None => {},
                                }
                            },
                            _ => {},
                        }
                    }
                },
                None => {},
            }
        },
        MoveView::Define { name, value } => {
            lemma_consistent_with_more_scopes(state, state.define(name.lexeme, value).environments);
        },
        MoveView::EnterBlock(stmt) => {
            let environments = state.environments.push(empty_scope(state.environment));
            lemma_consistent_with_more_scopes(state, environments);
            lemma_consistent_with_frame(
                MachineView { environments, ..state },
                FrameView::Sequence { stmt, next: 0, saved: Some(state.environment) },
            );
        },
        MoveView::DeclareFunction(stmt) => {
            let function = LoxFunction {
                declaration: stmt,
                closure: state.environment,
                is_initializer: false,
            };
            lemma_consistent_with_function(state, function);
            let added = MachineView { functions: state.functions.push(function), ..state };
            lemma_consistent_with_more_scopes(
                added,
                added.define(
                    function_name(state.ast, stmt),
                    ObjectView::Func(state.functions.len() as usize),
                ).environments,
            );
        },
        MoveView::DeclareClass { stmt, superclass } => {
            lemma_declare_class_consistent(state, stmt, superclass);
        },
        _ => {},
    }
}

/// What follows when a value is given to a frame names no scope that the
/// frame did not name.
pub proof fn lemma_frame_move_ok(ast: AstView, frame: FrameView, value: ObjectView, scopes: nat)
    requires
        frame_ok(frame, scopes),
    ensures
        move_ok(frame_move(ast, frame, value), scopes),
{
}

/// Every step keeps the state consistent: a scope that a frame has saved,
/// or that a function closes over, is still in the store when it is needed.
pub proof fn lemma_step_consistent(state: MachineView, event: EventView)
    requires
        state.consistent(),
    ensures
        step(state, event).0.consistent(),
        step(state, event).0.environments.len() >= state.environments.len(),
{
    let idle = MachineView { task: TaskView::Idle, ..state };
    assert(idle.consistent());
    let scopes = state.environments.len();
    match state.task {
        TaskView::Idle => {},
        TaskView::Evaluate(e) => {
            lemma_perform_consistent(idle, expression_move(state.ast, e));
        },
        TaskView::Execute(s) => {
            lemma_perform_consistent(idle, statement_move(state.ast, s));
        },
        TaskView::Give(v) => {
            if state.stack.len() > 0 {
                let popped = MachineView { stack: state.stack.drop_last(), ..idle };
                assert(popped.consistent()) by {
                    assert forall|i: int| 0 <= i < popped.stack.len() implies frame_ok(
                        #[trigger] popped.stack[i],
                        scopes,
                    ) by {
                        assert(popped.stack[i] == state.stack[i]);
                    }
                }
                assert(frame_ok(state.stack[state.stack.len() - 1], scopes));
                lemma_frame_move_ok(state.ast, state.stack.last(), v, scopes);
                lemma_perform_consistent(popped, frame_move(state.ast, state.stack.last(), v));
            }
        },
        TaskView::Unwind(signal) => {
            if state.stack.len() > 0 {
                let popped = MachineView { stack: state.stack.drop_last(), ..idle };
                assert(popped.consistent()) by {
                    assert forall|i: int| 0 <= i < popped.stack.len() implies frame_ok(
                        #[trigger] popped.stack[i],
                        scopes,
                    ) by {
                        assert(popped.stack[i] == state.stack[i]);
                    }
                }
                assert(frame_ok(state.stack[state.stack.len() - 1], scopes));
                match frame_catch(state.stack.last(), signal) {
                    CaughtView::Passed(saved, passed) => {
                        assert(popped.restore(saved).consistent());
                        lemma_perform_consistent(popped.restore(saved), MoveView::Unwind(passed));
                    },
                    CaughtView::Stopped(m) => {
                        lemma_perform_consistent(popped, m);
                    },
                }
            }
        },
        TaskView::Await(pending) => {
            lemma_perform_consistent(idle, answer_move(pending, event));
        },
    }
}

/// Leaving a block restores the scope that was current when the block was
/// entered: in a consistent state, when the last statement of a block has
/// been executed, the next step makes the scope that the block's frame had
/// saved the current one.
pub proof fn lemma_leaving_a_block_restores(state: MachineView, event: EventView)
    requires
        state.consistent(),
        state.task is Give,
        state.stack.len() > 0,
        state.stack.last() matches FrameView::Sequence { stmt, next, saved: Some(_) } && next
            >= crate::machine::sequence_of(state.ast, stmt).len(),
    ensures
        Some(step(state, event).0.environment) == state.stack.last()->Sequence_saved,
        step(state, event).0.stack == state.stack.drop_last(),
{
    assert(frame_ok(state.stack[state.stack.len() - 1], state.environments.len()));
}

/// Leaving a call restores the caller's scope: in a consistent state, when
/// a function returns, by `return` or by running to its end, the next step
/// makes the scope that was current at the call the current one.
pub proof fn lemma_leaving_a_call_restores(state: MachineView, event: EventView)
    requires
        state.consistent(),
        state.task is Give || state.task matches TaskView::Unwind(SignalView::Return(_)),
        state.stack.len() > 0,
        state.stack.last() is Call,
    ensures
        step(state, event).0.environment == state.stack.last()->Call_saved,
        step(state, event).0.stack == state.stack.drop_last(),
        step(state, event).0.task is Give,
{
    assert(frame_ok(state.stack[state.stack.len() - 1], state.environments.len()));
}

} // verus!
