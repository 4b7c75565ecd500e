//! The evaluator: a machine that runs a program step by step.
//!
//! A step looks at what is to be done next, decides by the rules of
//! [`crate::machine`], changes what the evaluator keeps, and says what it
//! asks of the host. The host runs the loop: it performs the action and
//! hands the answer to the next step. What a step does is stated in
//! [`crate::semantics`].

use vstd::prelude::*;
use vstd::string::*;
use crate::ast::Ast;
use crate::environment::Environment;
use crate::error::LoxResult;
use crate::functions_lox::LoxFunction;
use crate::functions_native::NativeClock;
use crate::lox_class::{LoxClass, classes_view};
use crate::lox_instance::{InstanceView, LoxInstance, instances_view};
use crate::machine::{
    Action, Caught, Event, Frame, FrameView, Move, Pending, Signal, Task, TaskView, answer, catch,
    evaluate, execute, frames_view, resume,
};
use crate::object::{Object, ObjectView, objects_view};
pub use crate::semantics::GLOBALS;
use crate::semantics::{
    MachineView, add_methods, lemma_consistent_with_frame, lemma_step_consistent, arity_text, bind_arguments, class_methods, depth_of, escaped_error,
    function_name, function_text, method_functions, parameter_list, parameters, perform, recorded,
    recorded_all, step, this_of,
};
use crate::stmt::Stmt;
use crate::text::push_decimal;
use crate::token::{Token, TokenType, tokens_view};

verus! {

/// The evaluator.
pub struct Interpreter {
    ast: Ast,
    environments: Environment,
    environment: usize,
    locals: Vec<Option<usize>>,
    functions: Vec<LoxFunction>,
    classes: Vec<LoxClass>,
    instances: Vec<LoxInstance>,
    stack: Vec<Frame>,
    task: Task,
}

impl View for Interpreter {
    type V = MachineView;

    closed spec fn view(&self) -> MachineView {
        MachineView {
            ast: self.ast@,
            environments: self.environments@,
            environment: self.environment,
            locals: self.locals@,
            functions: self.functions@,
            classes: classes_view(self.classes@),
            instances: instances_view(self.instances@),
            stack: frames_view(self.stack@),
            task: self.task@,
        }
    }
}

fn this_token(at: &Token) -> (t: Token)
    ensures
        t@ == this_of(at@),
{
    Token::new(TokenType::This, String::from_str("this"), None, at.line, at.col)
}

fn arity_message(expected: usize, got: usize) -> (s: String)
    ensures
        s@ == arity_text(expected, got),
{
    let mut s = String::from_str("Expected ");
    push_decimal(&mut s, expected);
    s.append(" arguments but got ");
    push_decimal(&mut s, got);
    s
}

/// The error with which a run ends when a signal has left the last frame
/// behind.
pub fn escaped(signal: Signal) -> (e: LoxResult)
    ensures
        e@ == escaped_error(signal@),
{
    match signal {
        Signal::Error(e) => e,
        Signal::Break => LoxResult::system_error("break outside of a loop"),
        Signal::Return(_) => LoxResult::system_error("return outside of a function"),
    }
}

impl Interpreter {
    /// The evaluator's invariant: the parts of every node of the program come
    /// before it, and every scope that the state names is in the store: the
    /// current one, those that the frames of the stack have saved, and those
    /// that the functions close over ([`MachineView::consistent`]).
    pub closed spec fn wf(&self) -> bool {
        self.sound() && self@.consistent()
    }

    // The part of the invariant that the stores keep by themselves.
    spec fn sound(&self) -> bool {
        &&& self.ast@.wf()
        &&& self.environments.wf()
        &&& self.environment < self.environments@.len()
        &&& forall|i: int| 0 <= i < self.instances.len() ==> (#[trigger] self.instances[i]).wf()
    }

    /// In a well-formed evaluator every scope that the state names is in
    /// the store.
    pub proof fn lemma_scopes_in_store(&self)
        requires
            self.wf(),
        ensures
            self@.consistent(),
    {
    }

    /// An evaluator with an empty program. Its only scope is the global
    /// one, which binds `clock` to the native function.
    pub fn new() -> (i: Interpreter)
        ensures
            i.wf(),
            i@.ast.exprs.len() == 0,
            i@.ast.stmts.len() == 0,
            i@.environments == crate::environment::bound(
                seq![
                    crate::environment::BindingsView {
                        names: seq![],
                        values: seq![],
                        enclosing: None,
                    },
                ],
                GLOBALS,
                "clock"@,
                ObjectView::Native(0),
            ),
            i@.environment == GLOBALS,
            i@.locals == Seq::<Option<usize>>::empty(),
            i@.functions == Seq::<LoxFunction>::empty(),
            i@.classes.len() == 0,
            i@.instances.len() == 0,
            i@.stack.len() == 0,
            i@.task == TaskView::Idle,
    {
        let mut environments = Environment::new();
        environments.define(GLOBALS, "clock", Object::Native(0));
        Interpreter {
            ast: Ast::new(),
            environments,
            environment: GLOBALS,
            locals: Vec::new(),
            functions: Vec::new(),
            classes: Vec::new(),
            instances: Vec::new(),
            stack: Vec::new(),
            task: Task::Idle,
        }
    }

    /// The program.
    pub fn ast(&self) -> (ast: &Ast)
        ensures
            ast@ == self@.ast,
            self.wf() ==> ast@.wf(),
    {
        &self.ast
    }

    /// Takes the program out, so that a parser can add to it; an empty one
    /// is left in its place.
    pub fn take_ast(&mut self) -> (ast: Ast)
        requires
            old(self).wf(),
        ensures
            final(self).wf(),
            ast@ == old(self)@.ast,
            ast@.wf(),
            final(self)@ == (MachineView { ast: final(self)@.ast, ..old(self)@ }),
            final(self)@.ast.exprs.len() == 0,
            final(self)@.ast.stmts.len() == 0,
    {
        let mut ast = Ast::new();
        core::mem::swap(&mut self.ast, &mut ast);
        ast
    }

    /// Puts the program in place.
    pub fn set_ast(&mut self, ast: Ast)
        requires
            old(self).wf(),
            ast@.wf(),
        ensures
            final(self).wf(),
            final(self)@ == (MachineView { ast: ast@, ..old(self)@ }),
    {
        self.ast = ast;
    }

    /// The scopes.
    pub fn environments(&self) -> (e: &Environment)
        ensures
            e@ == self@.environments,
            self.wf() ==> e.wf(),
    {
        &self.environments
    }

    /// The current scope.
    pub fn environment(&self) -> (e: usize)
        ensures
            e == self@.environment,
    {
        self.environment
    }

    /// Records that the expression `expr` is bound `depth` scopes out from
    /// where it stands.
    pub fn resolve(&mut self, expr: usize, depth: usize)
        requires
            old(self).wf(),
        ensures
            final(self).wf(),
            final(self)@ == (MachineView {
                locals: recorded(old(self)@.locals, expr, depth),
                ..old(self)@
            }),
    {
        if expr < self.locals.len() {
            self.locals.set(expr, Some(depth));
        } else {
            let ghost before = self.locals@;
            while self.locals.len() < expr
                invariant
                    self.locals.len() <= expr,
                    before.len() <= self.locals.len(),
                    self.locals@ == before + Seq::new(
                        (self.locals.len() - before.len()) as nat,
                        |i: int| None::<usize>,
                    ),
                    self.ast == old(self).ast,
                    self.classes == old(self).classes,
                    self.instances == old(self).instances,
                    self.environments == old(self).environments,
                    self.environment == old(self).environment,
                    self.functions == old(self).functions,
                    self.stack == old(self).stack,
                    self.task == old(self).task,
                decreases expr - self.locals.len(),
            {
                self.locals.push(None);
                assert(self.locals@ =~= before + Seq::new(
                    (self.locals.len() - before.len()) as nat,
                    |i: int| None::<usize>,
                ));
            }
            self.locals.push(Some(depth));
        }
    }

    /// Records the resolver's side table: every pair of an expression and
    /// its depth, in order.
    pub fn resolve_all(&mut self, locals: &Vec<(usize, usize)>)
        requires
            old(self).wf(),
        ensures
            final(self).wf(),
            final(self)@ == (MachineView {
                locals: recorded_all(old(self)@.locals, locals@, 0),
                ..old(self)@
            }),
    {
        let mut i: usize = 0;
        while i < locals.len()
            invariant
                self.wf(),
                i <= locals.len(),
                self@ == (MachineView { locals: self@.locals, ..old(self)@ }),
                recorded_all(old(self)@.locals, locals@, 0) == recorded_all(
                    self@.locals,
                    locals@,
                    i as int,
                ),
            decreases locals.len() - i,
        {
            self.resolve(locals[i].0, locals[i].1);
            i += 1;
        }
    }

    /// Begins the run of a program: its statements will be executed in
    /// order, in the current scope.
    pub fn interpret(&mut self, stmts: Vec<usize>)
        requires
            old(self).wf(),
        ensures
            final(self).wf(),
            final(self)@ == (MachineView {
                stack: old(self)@.stack.push(
                    FrameView::Program { stmts: stmts@, next: 0, saved: old(self)@.environment },
                ),
                task: TaskView::Give(ObjectView::Nil),
                ..old(self)@
            }),
    {
        let frame = Frame::Program { stmts, next: 0, saved: self.environment };
        proof {
            lemma_consistent_with_frame(self@, frame@);
        }
        self.push(frame);
        self.task = Task::Give(Object::Nil);
    }

    /// Begins the evaluation of one expression in the current scope.
    pub fn evaluate(&mut self, expr: usize)
        requires
            old(self).wf(),
        ensures
            final(self).wf(),
            final(self)@ == (MachineView { task: TaskView::Evaluate(expr), ..old(self)@ }),
    {
        self.task = Task::Evaluate(expr);
    }

    /// Begins the execution of the statements of the block or function
    /// `stmt` in the scope `environment`; the current scope is restored
    /// when they are done.
    pub fn execute_block(&mut self, stmt: usize, environment: usize)
        requires
            old(self).wf(),
            environment < old(self)@.environments.len(),
        ensures
            final(self).wf(),
            final(self)@ == (MachineView {
                stack: old(self)@.stack.push(
                    FrameView::Sequence { stmt, next: 0, saved: Some(old(self)@.environment) },
                ),
                environment,
                task: TaskView::Give(ObjectView::Nil),
                ..old(self)@
            }),
    {
        let frame = Frame::Sequence { stmt, next: 0, saved: Some(self.environment) };
        proof {
            lemma_consistent_with_frame(self@, frame@);
        }
        self.push(frame);
        self.environment = environment;
        self.task = Task::Give(Object::Nil);
    }

    /// The value of the variable that the expression `expr` names: by its
    /// depth if the resolver recorded one, else from the global scope.
    pub fn lookup_variable(&self, name: &Token, expr: usize) -> (r: Result<Object, LoxResult>)
        requires
            self.wf(),
        ensures
            match r {
                Ok(v) => self@.variable(expr, name@) == Ok::<_, crate::error::LoxResultView>(v@),
                Err(e) => self@.variable(expr, name@) == Err::<ObjectView, _>(e@),
            },
    {
        self.read(name, expr)
    }

    // The value of the variable that the expression `expr` names.
    fn read(&self, name: &Token, expr: usize) -> (r: Result<Object, LoxResult>)
        requires
            self.sound(),
        ensures
            match r {
                Ok(v) => self@.variable(expr, name@) == Ok::<_, crate::error::LoxResultView>(v@),
                Err(e) => self@.variable(expr, name@) == Err::<ObjectView, _>(e@),
            },
    {
        match self.depth(expr) {
            Some(distance) => self.environments.get_at(self.environment, distance, name),
            None => self.environments.get(GLOBALS, name),
        }
    }

    // Everything but the scopes, the functions, the stack and the task is as
    // in `before`.
    spec fn kept(&self, before: &Interpreter) -> bool {
        &&& self.ast == before.ast
        &&& self.locals == before.locals
        &&& self.classes == before.classes
        &&& self.instances == before.instances
    }

    // The depth recorded for the expression `expr`.
    fn depth(&self, expr: usize) -> (r: Option<usize>)
        ensures
            r == depth_of(self.locals@, expr),
    {
        if expr < self.locals.len() {
            self.locals[expr]
        } else {
            None
        }
    }

    fn push(&mut self, frame: Frame)
        requires
            old(self).sound(),
        ensures
            final(self).sound(),
            final(self)@ == old(self)@.push(frame@),
    {
        self.stack.push(frame);
        assert(frames_view(self.stack@) =~= frames_view(old(self).stack@).push(frame@));
    }

    // Makes `saved` the current scope, if it is one.
    fn restore(&mut self, saved: Option<usize>)
        requires
            old(self).sound(),
        ensures
            final(self).sound(),
            final(self)@ == old(self)@.restore(saved),
    {
        if let Some(env) = saved {
            if env < self.environments.len() {
                self.environment = env;
            }
        }
    }

    fn give(&mut self, value: Object) -> (a: Action)
        requires
            old(self).sound(),
        ensures
            final(self).sound(),
            (final(self)@, a@) == old(self)@.give(value@),
    {
        self.task = Task::Give(value);
        Action::Continue
    }

    fn fail(&mut self, error: LoxResult) -> (a: Action)
        requires
            old(self).sound(),
        ensures
            final(self).sound(),
            (final(self)@, a@) == old(self)@.fail(error@),
    {
        self.task = Task::Unwind(Signal::Error(error));
        Action::Continue
    }

    // The number of parameters of the function declared by `declaration`.
    fn arity(&self, declaration: usize) -> (r: Option<usize>)
        ensures
            match r {
                Some(n) => parameters(self.ast@, declaration) is Some && n == parameters(
                    self.ast@,
                    declaration,
                )->Some_0.len() && declaration < self.ast@.stmts.len(),
                None => parameters(self.ast@, declaration) is None,
            },
    {
        if declaration < self.ast.stmt_count() {
            if let Stmt::Function(function) = self.ast.stmt(declaration) {
                return Some(function.params.len());
            }
        }
        None
    }

    // The methods of the class declared by `stmt`.
    fn methods(&self, stmt: usize) -> (r: Vec<usize>)
        ensures
            r@ == class_methods(self.ast@, stmt),
    {
        let mut r: Vec<usize> = Vec::new();
        if stmt < self.ast.stmt_count() {
            if let Stmt::Class(class) = self.ast.stmt(stmt) {
                let mut i: usize = 0;
                while i < class.methods.len()
                    invariant
                        i <= class.methods.len(),
                        r@ == class.methods@.subrange(0, i as int),
                    decreases class.methods.len() - i,
                {
                    r.push(class.methods[i]);
                    i += 1;
                    assert(r@ =~= class.methods@.subrange(0, i as int));
                }
                assert(r@ =~= class.methods@);
                return r;
            }
        }
        assert(r@ =~= seq![]);
        r
    }

    // The name of the function declared by `declaration`.
    fn name_of(&self, declaration: usize) -> (r: String)
        ensures
            r@ == function_name(self.ast@, declaration),
    {
        if declaration < self.ast.stmt_count() {
            if let Stmt::Function(function) = self.ast.stmt(declaration) {
                return function.name.lexeme.clone();
            }
        }
        let r = String::new();
        assert(r@ =~= seq![]);
        r
    }

    // The display form of the function declared by `declaration`.
    fn function_text(&self, declaration: usize) -> (r: String)
        ensures
            r@ == function_text(self.ast@, declaration),
    {
        let mut s = String::from_str("<fun ");
        s.append(self.name_of(declaration).as_str());
        s.append("(");
        if declaration < self.ast.stmt_count() {
            if let Stmt::Function(function) = self.ast.stmt(declaration) {
                let ghost params = tokens_view(function.params@);
                let ghost head = s@;
                let mut i: usize = 0;
                while i < function.params.len()
                    invariant
                        i <= function.params.len(),
                        params == tokens_view(function.params@),
                        s@ + parameter_list(params, i as int) == head + parameter_list(params, 0),
                    decreases function.params.len() - i,
                {
                    let ghost before = s@;
                    if i > 0 {
                        s.append(", ");
                    }
                    s.append(function.params[i].lexeme.as_str());
                    assert(s@ + parameter_list(params, i + 1) =~= before + parameter_list(
                        params,
                        i as int,
                    ));
                    i += 1;
                }
                assert(s@ =~= head + parameter_list(params, 0));
                s.append(")>");
                assert(s@ =~= function_text(self.ast@, declaration));
                return s;
            }
        }
        s.append(")>");
        assert(s@ =~= function_text(self.ast@, declaration));
        s
    }

    // The name of the class `c`.
    fn class_name(&self, c: usize) -> (r: String)
        ensures
            r@ == self@.class_name(c),
    {
        if c < self.classes.len() {
            self.classes[c].name().clone()
        } else {
            let r = String::new();
            assert(r@ =~= seq![]);
            r
        }
    }

    /// The display form of a value that is not a number (for a number the
    /// host is asked, and this gives the empty text).
    pub fn display(&self, value: &Object) -> (s: String)
        ensures
            s@ == self@.display(value@),
    {
        match value {
            Object::Str(s) => s.clone(),
            Object::Number(_) => {
                let r = String::new();
                assert(r@ =~= seq![]);
                r
            },
            Object::Bool(b) => {
                if *b {
                    String::from_str("true")
                } else {
                    String::from_str("false")
                }
            },
            Object::Func(f) => {
                if *f < self.functions.len() {
                    self.function_text(self.functions[*f].declaration)
                } else {
                    String::from_str("<fun>")
                }
            },
            Object::Class(c) => {
                let mut s = String::from_str("<class ");
                s.append(self.class_name(*c).as_str());
                s.append(">");
                s
            },
            Object::Instance(i) => {
                let mut s = String::from_str("instance of ");
                if *i < self.instances.len() {
                    let c = self.instances[*i].klass();
                    s.append(self.class_name(c).as_str());
                } else {
                    assert(s@ =~= "instance of "@ + Seq::<char>::empty());
                }
                s
            },
            Object::Native(_) => String::from_str("<native-fun()>"),
            Object::Nil => String::from_str("nil"),
        }
    }

    // Enters the body of `function` with the arguments bound to its
    // parameters.
    fn enter(&mut self, paren: &Token, function: LoxFunction, arguments: Vec<Object>) -> (a:
        Action)
        requires
            old(self).sound(),
        ensures
            final(self).sound(),
            (final(self)@, a@) == old(self)@.enter(paren@, function, objects_view(arguments@)),
    {
        let arity = match self.arity(function.declaration) {
            Some(n) => n,
            None => {
                return self.fail(LoxResult::system_error("no such function"));
            },
        };
        if arguments.len() != arity {
            let message = arity_message(arity, arguments.len());
            return self.fail(LoxResult::RuntimeError { token: paren.clone(), message });
        }
        if function.closure >= self.environments.len() {
            return self.fail(LoxResult::system_error("no such scope"));
        }
        let ghost params = parameters(self.ast@, function.declaration)->Some_0;
        let ghost values = objects_view(arguments@);
        let env = self.environments.new_enclosing(function.closure);
        let ghost begun = self.environments@;
        let mut i: usize = 0;
        while i < arguments.len()
            invariant
                self.sound(),
                env < self.environments@.len(),
                i <= arguments.len(),
                arguments.len() == arity,
                function.declaration < self.ast@.stmts.len(),
                parameters(self.ast@, function.declaration) == Some(params),
                values == objects_view(arguments@),
                bind_arguments(begun, env, params, values, 0) == bind_arguments(
                    self.environments@,
                    env,
                    params,
                    values,
                    i as int,
                ),
                self.kept(old(self)),
                self.environment == old(self).environment,
                self.functions == old(self).functions,
                self.stack == old(self).stack,
                self.task == old(self).task,
            decreases arguments.len() - i,
        {
            if let Stmt::Function(declared) = self.ast.stmt(function.declaration) {
                if i < declared.params.len() {
                    self.environments.define(
                        env,
                        declared.params[i].lexeme.as_str(),
                        arguments[i].clone(),
                    );
                }
            }
            i += 1;
        }
        let saved = self.environment;
        self.push(
            Frame::Call {
                saved,
                closure: function.closure,
                is_initializer: function.is_initializer,
            },
        );
        self.push(Frame::Sequence { stmt: function.declaration, next: 0, saved: None });
        self.environment = env;
        self.give(Object::Nil)
    }

    // Calls `callee` with the arguments.
    fn visit_call_expr(&mut self, paren: &Token, callee: Object, arguments: Vec<Object>) -> (a:
        Action)
        requires
            old(self).sound(),
        ensures
            final(self).sound(),
            (final(self)@, a@) == old(self)@.call(paren@, callee@, objects_view(arguments@)),
    {
        match callee {
            Object::Func(f) => {
                if f >= self.functions.len() {
                    return self.fail(LoxResult::system_error("no such function"));
                }
                let function = self.functions[f];
                self.enter(paren, function, arguments)
            },
            Object::Class(c) => self.instantiate(paren, c, arguments),
            Object::Native(_) => {
                let clock = NativeClock {  };
                if arguments.len() != clock.arity() {
                    let message = arity_message(clock.arity(), arguments.len());
                    return self.fail(LoxResult::RuntimeError { token: paren.clone(), message });
                }
                self.task = Task::Await(Pending::Number);
                Action::Clock
            },
            _ => self.fail(LoxResult::error_runtime(paren, "Can only call functions and classes")),
        }
    }

    // Adds an instance of the class `c` and returns its index.
    fn make_instance(&mut self, c: usize) -> (instance: usize)
        requires
            old(self).sound(),
        ensures
            final(self).sound(),
            instance == old(self)@.instances.len(),
            final(self)@ == (MachineView {
                instances: old(self)@.instances.push(
                    InstanceView { klass: c, field_names: seq![], field_values: seq![] },
                ),
                ..old(self)@
            }),
    {
        let instance = self.instances.len();
        self.instances.push(LoxInstance::new(c));
        assert(instances_view(self.instances@) =~= instances_view(old(self).instances@).push(
            InstanceView { klass: c, field_names: seq![], field_values: seq![] },
        ));
        instance
    }

    // Makes an instance of the class `c`; if the class has an initializer,
    // it is bound to the instance and called with the arguments.
    fn instantiate(&mut self, paren: &Token, c: usize, arguments: Vec<Object>) -> (a: Action)
        requires
            old(self).sound(),
        ensures
            final(self).sound(),
            (final(self)@, a@) == old(self)@.instantiate(paren@, c, objects_view(arguments@)),
    {
        if c >= self.classes.len() {
            return self.fail(LoxResult::system_error("no such class"));
        }
        let init = String::from_str("init");
        match LoxClass::find_method(&self.classes, c, &init) {
            Some(f) => {
                if f >= self.functions.len() {
                    return self.fail(LoxResult::system_error("no such function"));
                }
                let initializer = self.functions[f];
                let arity = match self.arity(initializer.declaration) {
                    Some(n) => n,
                    None => {
                        return self.fail(LoxResult::system_error("no such function"));
                    },
                };
                if arguments.len() != arity {
                    let message = arity_message(arity, arguments.len());
                    return self.fail(LoxResult::RuntimeError { token: paren.clone(), message });
                }
                let instance = self.make_instance(c);
                match initializer.bind(&mut self.environments, Object::Instance(instance)) {
                    Some(bound) => self.enter(paren, bound, arguments),
                    None => self.fail(LoxResult::system_error("no such scope")),
                }
            },
            None => {
                if arguments.len() != 0 {
                    let message = arity_message(0, arguments.len());
                    return self.fail(LoxResult::RuntimeError { token: paren.clone(), message });
                }
                let instance = self.make_instance(c);
                self.give(Object::Instance(instance))
            },
        }
    }

    // The method `name` of the class `c`, bound to `this`.
    fn bound_method(&mut self, c: usize, name: &Token, this: Object) -> (a: Action)
        requires
            old(self).sound(),
        ensures
            final(self).sound(),
            (final(self)@, a@) == old(self)@.bound_method(c, name@, this@),
    {
        match LoxClass::find_method(&self.classes, c, &name.lexeme) {
            Some(f) => {
                if f >= self.functions.len() {
                    return self.fail(LoxResult::system_error("no such function"));
                }
                let method = self.functions[f];
                match method.bind(&mut self.environments, this) {
                    Some(bound) => {
                        let id = self.functions.len();
                        self.functions.push(bound);
                        self.give(Object::Func(id))
                    },
                    None => self.fail(LoxResult::system_error("no such scope")),
                }
            },
            None => {
                let mut message = String::from_str("Undefined property ");
                message.append(name.lexeme.as_str());
                self.fail(LoxResult::RuntimeError { token: name.clone(), message })
            },
        }
    }

    // Reads the property `name` of `object`: a field first, then a method.
    fn visit_get_expr(&mut self, name: &Token, object: Object) -> (a: Action)
        requires
            old(self).sound(),
        ensures
            final(self).sound(),
            (final(self)@, a@) == old(self)@.get_property(name@, object@),
    {
        match object {
            Object::Instance(i) => {
                if i >= self.instances.len() {
                    return self.fail(LoxResult::system_error("no such instance"));
                }
                match self.instances[i].get(name) {
                    Some(v) => self.give(v),
                    None => {
                        let c = self.instances[i].klass();
                        self.bound_method(c, name, Object::Instance(i))
                    },
                }
            },
            _ => self.fail(LoxResult::error_runtime(name, "Only instances have properties")),
        }
    }

    // Looks up a method of the superclass and binds it to `this`.
    fn visit_super_expr(&mut self, expr: usize, keyword: &Token, method: &Token) -> (a: Action)
        requires
            old(self).sound(),
        ensures
            final(self).sound(),
            (final(self)@, a@) == old(self)@.super_method(expr, keyword@, method@),
    {
        let distance = match self.depth(expr) {
            Some(d) => d,
            None => {
                return self.fail(crate::environment::undefined_variable_error(keyword));
            },
        };
        let superclass = match self.environments.get_at(self.environment, distance, keyword) {
            Ok(v) => v,
            Err(e) => {
                return self.fail(e);
            },
        };
        if distance == 0 {
            return self.fail(crate::environment::undefined_variable_error(keyword));
        }
        // The scope that binds `this` lies just inside the one that binds `super`.
        let this = match self.environments.get_at(
            self.environment,
            distance - 1,
            &this_token(keyword),
        ) {
            Ok(v) => v,
            Err(e) => {
                return self.fail(e);
            },
        };
        match superclass {
            Object::Class(c) => self.bound_method(c, method, this),
            _ => self.fail(LoxResult::error_runtime(keyword, "Superclass must be a class")),
        }
    }

    // Assigns to the variable that the expression `expr` names.
    fn visit_assign_expr(&mut self, expr: usize, name: &Token, value: Object) -> (a: Action)
        requires
            old(self).sound(),
        ensures
            final(self).sound(),
            (final(self)@, a@) == old(self)@.assign(expr, name@, value@),
    {
        let result = match self.depth(expr) {
            Some(distance) => self.environments.assign_at(
                self.environment,
                distance,
                name,
                value.clone(),
            ),
            None => match self.environments.assign(GLOBALS, name, value.clone()) {
                Ok(_) => Ok(()),
                Err(e) => Err(e),
            },
        };
        match result {
            Ok(_) => self.give(value),
            Err(e) => self.fail(e),
        }
    }

    // Closure holds on to the surrounding variables when a function is declared.
    // The current scope is the one that is active when the function is
    // declared, not when it is called.
    fn visit_function_stmt(&mut self, stmt: usize) -> (a: Action)
        requires
            old(self).sound(),
        ensures
            final(self).sound(),
            (final(self)@, a@) == old(self)@.declare_function(stmt),
    {
        let name = self.name_of(stmt);
        let id = self.functions.len();
        self.functions.push(LoxFunction::new(stmt, self.environment, false));
        self.environments.define(self.environment, name.as_str(), Object::Func(id));
        self.give(Object::Nil)
    }

    // Makes the functions for the methods of a class, closed over `closure`,
    // and adds them to the class.
    fn make_methods(&mut self, class: &mut LoxClass, methods: &Vec<usize>, closure: usize)
        requires
            old(self).sound(),
            old(class).wf(),
        ensures
            final(self).sound(),
            final(class).wf(),
            final(class)@ == add_methods(
                old(class)@,
                old(self)@.ast,
                methods@,
                old(self)@.functions.len(),
                0,
            ),
            final(self)@ == (MachineView {
                functions: old(self)@.functions + method_functions(
                    old(self)@.ast,
                    methods@,
                    closure,
                ),
                ..old(self)@
            }),
    {
        let ghost first = self.functions@;
        let mut i: usize = 0;
        while i < methods.len()
            invariant
                self.sound(),
                class.wf(),
                i <= methods.len(),
                first == old(self).functions@,
                self.functions@.len() == first.len() + i,
                forall|k: int| 0 <= k < first.len() ==> self.functions@[k] == first[k],
                forall|k: int|
                    0 <= k < i ==> #[trigger] self.functions@[first.len() + k] == method_functions(
                        self.ast@,
                        methods@,
                        closure,
                    )[k],
                add_methods(old(class)@, self.ast@, methods@, first.len(), 0) == add_methods(
                    class@,
                    self.ast@,
                    methods@,
                    first.len(),
                    i as int,
                ),
                self.kept(old(self)),
                self.environments == old(self).environments,
                self.environment == old(self).environment,
                self.stack == old(self).stack,
                self.task == old(self).task,
            decreases methods.len() - i,
        {
            let method = methods[i];
            let name = self.name_of(method);
            let is_initializer = name == String::from_str("init");
            class.add_method(&name, self.functions.len());
            self.functions.push(LoxFunction::new(method, closure, is_initializer));
            i += 1;
        }
        assert forall|k: int| 0 <= k < self.functions@.len() implies self.functions@[k] == (first
            + method_functions(self.ast@, methods@, closure))[k] by {
            if k >= first.len() {
                assert(self.functions@[first.len() + (k - first.len())] == method_functions(
                    self.ast@,
                    methods@,
                    closure,
                )[k - first.len()]);
            }
        }
        assert(self.functions@ =~= first + method_functions(self.ast@, methods@, closure));
    }

    // Declares the class `stmt`, whose superclass, if it has one, is `superclass`.
    fn visit_class_stmt(&mut self, stmt: usize, superclass: Option<usize>) -> (a: Action)
        requires
            old(self).sound(),
        ensures
            final(self).sound(),
            (final(self)@, a@) == old(self)@.declare_class(stmt, superclass),
    {
        if stmt >= self.ast.stmt_count() {
            return self.fail(LoxResult::system_error("no such statement"));
        }
        let name = match self.ast.stmt(stmt) {
            Stmt::Class(class) => class.name.clone(),
            _ => {
                return self.fail(LoxResult::system_error("frame does not fit its node"));
            },
        };
        let methods = self.methods(stmt);
        self.environments.define(self.environment, name.lexeme.as_str(), Object::Nil);
        let closure = match superclass {
            Some(parent) => {
                let env = self.environments.new_enclosing(self.environment);
                self.environments.define(env, "super", Object::Class(parent));
                env
            },
            None => self.environment,
        };
        let mut class = LoxClass::new(name.lexeme.as_str(), superclass);
        self.make_methods(&mut class, &methods, closure);
        let id = self.classes.len();
        let ghost made = class@;
        self.classes.push(class);
        assert(classes_view(self.classes@) =~= classes_view(old(self).classes@).push(made));
        match self.environments.assign(self.environment, &name, Object::Class(id)) {
            Ok(_) => self.give(Object::Nil),
            Err(e) => self.fail(e),
        }
    }

    // Sets a field of an instance.
    fn visit_set_expr(&mut self, instance: usize, name: &Token, value: Object) -> (a: Action)
        requires
            old(self).sound(),
        ensures
            final(self).sound(),
            (final(self)@, a@) == old(self)@.set_field(instance, name@, value@),
    {
        if instance >= self.instances.len() {
            return self.fail(LoxResult::system_error("no such instance"));
        }
        self.instances[instance].set(name, value.clone());
        assert(instances_view(self.instances@) =~= instances_view(old(self).instances@).update(
            instance as int,
            crate::lox_instance::with_field(
                instances_view(old(self).instances@)[instance as int],
                name.lexeme@,
                value@,
            ),
        ));
        self.give(value)
    }

    // Leaves a call with the value it returns.
    fn leave_call(&mut self, saved: usize, closure: usize, is_initializer: bool, value: Object)
        -> (a: Action)
        requires
            old(self).sound(),
        ensures
            final(self).sound(),
            (final(self)@, a@) == old(self)@.leave_call(saved, closure, is_initializer, value@),
    {
        self.restore(Some(saved));
        if is_initializer {
            // An initializer always returns 'this' instance
            let token = Token::new(TokenType::This, String::from_str("this"), None, 0, 0);
            match self.environments.get_at(closure, 0, &token) {
                Ok(this) => self.give(this),
                Err(_) => self.give(value),
            }
        } else {
            self.give(value)
        }
    }

    // Enters the block `stmt`.
    fn visit_block_stmt(&mut self, stmt: usize) -> (a: Action)
        requires
            old(self).sound(),
        ensures
            final(self).sound(),
            (final(self)@, a@) == old(self)@.enter_block(stmt),
    {
        let saved = self.environment;
        let env = self.environments.new_enclosing(self.environment);
        self.push(Frame::Sequence { stmt, next: 0, saved: Some(saved) });
        self.environment = env;
        self.give(Object::Nil)
    }

    // Makes the move.
    fn perform(&mut self, m: Move) -> (a: Action)
        requires
            old(self).sound(),
        ensures
            final(self).sound(),
            (final(self)@, a@) == perform(old(self)@, m@),
    {
        match m {
            Move::Evaluate(e) => {
                self.task = Task::Evaluate(e);
                Action::Continue
            },
            Move::Execute(s) => {
                self.task = Task::Execute(s);
                Action::Continue
            },
            Move::PushEvaluate(frame, e) => {
                self.push(frame);
                self.task = Task::Evaluate(e);
                Action::Continue
            },
            Move::PushExecute(frame, s) => {
                self.push(frame);
                self.task = Task::Execute(s);
                Action::Continue
            },
            Move::Give(v) => self.give(v),
            Move::Ask(action, pending) => {
                self.task = Task::Await(pending);
                action
            },
            Move::Unwind(signal) => {
                self.task = Task::Unwind(signal);
                Action::Continue
            },
            Move::Lookup { expr, name } => match self.read(&name, expr) {
                Ok(v) => self.give(v),
                Err(e) => self.fail(e),
            },
            Move::Assign { expr, name, value } => self.visit_assign_expr(expr, &name, value),
            Move::Call { paren, callee, arguments } => self.visit_call_expr(
                &paren,
                callee,
                arguments,
            ),
            Move::GetProperty { name, object } => self.visit_get_expr(&name, object),
            Move::SetField { instance, name, value } => self.visit_set_expr(instance, &name, value),
            Move::Super { expr, keyword, method } => self.visit_super_expr(expr, &keyword, &method),
            Move::Print(v) => {
                let line = self.display(&v);
                self.task = Task::Await(Pending::Printed);
                Action::Print(line)
            },
            Move::Define { name, value } => {
                self.environments.define(self.environment, name.lexeme.as_str(), value);
                self.give(Object::Nil)
            },
            Move::EnterBlock(stmt) => self.visit_block_stmt(stmt),
            Move::LeaveBlock(saved) => {
                self.restore(saved);
                self.give(Object::Nil)
            },
            Move::LeaveCall { saved, closure, is_initializer, value } => self.leave_call(
                saved,
                closure,
                is_initializer,
                value,
            ),
            Move::DeclareFunction(stmt) => self.visit_function_stmt(stmt),
            Move::DeclareClass { stmt, superclass } => self.visit_class_stmt(stmt, superclass),
        }
    }

    // Takes the frame on top of the stack off.
    fn pop(&mut self) -> (r: Option<Frame>)
        requires
            old(self).sound(),
        ensures
            final(self).sound(),
            match r {
                Some(frame) => old(self)@.stack.len() > 0 && frame@ == old(self)@.stack.last()
                    && final(self)@ == (MachineView {
                    stack: old(self)@.stack.drop_last(),
                    ..old(self)@
                }),
                None => old(self)@.stack.len() == 0 && final(self)@ == old(self)@,
            },
    {
        let r = self.stack.pop();
        if r.is_some() {
            assert(frames_view(self.stack@) =~= frames_view(old(self).stack@).drop_last());
        }
        r
    }

    /// Takes one step: `event` is the host's answer to the action of the
    /// step before (`Resume` where nothing was asked). The action returned
    /// is what the host does before the next step; after `Finished` the
    /// evaluator is idle.
    pub fn step(&mut self, event: Event) -> (a: Action)
        requires
            old(self).wf(),
        ensures
            final(self).wf(),
            (final(self)@, a@) == step(old(self)@, event@),
    {
        proof {
            lemma_step_consistent(self@, event@);
        }
        let mut task = Task::Idle;
        core::mem::swap(&mut self.task, &mut task);
        let m = match task {
            Task::Idle => {
                return Action::Finished(Ok(Object::Nil));
            },
            Task::Evaluate(e) => evaluate(&self.ast, e),
            Task::Execute(s) => execute(&self.ast, s),
            Task::Give(v) => match self.pop() {
                Some(frame) => resume(&self.ast, frame, v),
                None => {
                    return Action::Finished(Ok(v));
                },
            },
            Task::Unwind(signal) => match self.pop() {
                Some(frame) => match catch(frame, signal) {
                    Caught::Passed(saved, signal) => {
                        self.restore(saved);
                        Move::Unwind(signal)
                    },
                    Caught::Stopped(m) => m,
                },
                None => {
                    return Action::Finished(Err(escaped(signal)));
                },
            },
            Task::Await(pending) => answer(pending, event),
        };
        self.perform(m)
    }
}

} // verus!
