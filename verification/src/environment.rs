//! Environments: the scopes of a running program.
//!
//! Every scope maps names to values and may have an enclosing scope. The
//! scopes live in one store and are known by index, so that closures which
//! were made in the same scope share it: what one writes the other reads.

use vstd::prelude::*;
use vstd::string::*;
use crate::names::{
    distinct, find_name, index_of, lemma_distinct_after_push, lemma_find_after_push, texts,
};
use crate::error::{LoxResult, LoxResultView};
use crate::object::{Object, ObjectView, objects_view};
use crate::token::{Token, TokenView};

verus! {

/// One scope: its names with their values, and the scope around it.
pub struct Bindings {
    names: Vec<String>,
    values: Vec<Object>,
    enclosing: Option<usize>,
}

/// Mathematical model of one scope. No name occurs twice.
pub struct BindingsView {
    pub names: Seq<Seq<char>>,
    pub values: Seq<ObjectView>,
    pub enclosing: Option<usize>,
}

impl View for Bindings {
    type V = BindingsView;

    closed spec fn view(&self) -> BindingsView {
        BindingsView {
            names: texts(self.names@),
            values: objects_view(self.values@),
            enclosing: self.enclosing,
        }
    }
}

/// The value that `name` has in the scope itself.
pub open spec fn local_get(scope: BindingsView, name: Seq<char>) -> Option<ObjectView> {
    match find_name(scope.names, name, 0) {
        Some(i) => Some(scope.values[i]),
        None => None,
    }
}

/// The scope with `name` bound to `value`; an earlier binding of the name is
/// replaced.
pub open spec fn local_put(scope: BindingsView, name: Seq<char>, value: ObjectView)
    -> BindingsView {
    match find_name(scope.names, name, 0) {
        Some(i) => BindingsView {
            names: scope.names,
            values: scope.values.update(i, value),
            enclosing: scope.enclosing,
        },
        None => BindingsView {
            names: scope.names.push(name),
            values: scope.values.push(value),
            enclosing: scope.enclosing,
        },
    }
}

/// The scope around `env`, which was made before it.
pub open spec fn parent(envs: Seq<BindingsView>, env: usize) -> Option<usize> {
    if env < envs.len() {
        match envs[env as int].enclosing {
            Some(p) => if p < env {
                Some(p)
            } else {
                None
            },
            None => None,
        }
    } else {
        None
    }
}

/// The innermost scope from `env` outwards that binds `name`.
pub open spec fn home(envs: Seq<BindingsView>, env: usize, name: Seq<char>) -> Option<usize>
    decreases env,
{
    if env >= envs.len() {
        None
    } else if local_get(envs[env as int], name) is Some {
        Some(env)
    } else {
        match parent(envs, env) {
            Some(p) => home(envs, p, name),
            None => None,
        }
    }
}

/// The value of `name` as seen from `env`: that of the innermost scope from
/// `env` outwards that binds it.
pub open spec fn lookup(envs: Seq<BindingsView>, env: usize, name: Seq<char>) -> Option<
    ObjectView,
> {
    match home(envs, env, name) {
        Some(h) => local_get(envs[h as int], name),
        None => None,
    }
}

/// The scope `distance` scopes out from `env`.
pub open spec fn ancestor(envs: Seq<BindingsView>, env: usize, distance: nat) -> Option<usize>
    decreases distance,
{
    if env >= envs.len() {
        None
    } else if distance == 0 {
        Some(env)
    } else {
        match parent(envs, env) {
            Some(p) => ancestor(envs, p, (distance - 1) as nat),
            None => None,
        }
    }
}

/// The value of `name` in the scope `distance` scopes out from `env`.
pub open spec fn lookup_at(envs: Seq<BindingsView>, env: usize, distance: nat, name: Seq<char>)
    -> Option<ObjectView> {
    match ancestor(envs, env, distance) {
        Some(a) => local_get(envs[a as int], name),
        None => None,
    }
}

/// The store with `name` bound to `value` in the scope `env`.
pub open spec fn bound(envs: Seq<BindingsView>, env: usize, name: Seq<char>, value: ObjectView)
    -> Seq<BindingsView> {
    if env < envs.len() {
        envs.update(env as int, local_put(envs[env as int], name, value))
    } else {
        envs
    }
}

/// The store after `value` has been assigned to `name` as seen from `env`;
/// none if no scope from `env` outwards binds the name.
pub open spec fn assigned(
    envs: Seq<BindingsView>,
    env: usize,
    name: Seq<char>,
    value: ObjectView,
) -> Option<Seq<BindingsView>> {
    match home(envs, env, name) {
        Some(h) => Some(bound(envs, h, name, value)),
        None => None,
    }
}

/// The store after `value` has been assigned to `name` in the scope
/// `distance` scopes out from `env`; none if there is no such scope.
pub open spec fn assigned_at(
    envs: Seq<BindingsView>,
    env: usize,
    distance: nat,
    name: Seq<char>,
    value: ObjectView,
) -> Option<Seq<BindingsView>> {
    match ancestor(envs, env, distance) {
        Some(a) => Some(bound(envs, a, name, value)),
        None => None,
    }
}

/// The message for a name that is not bound.
pub open spec fn undefined_variable(name: TokenView) -> LoxResultView {
    LoxResultView::RuntimeError {
        token: name,
        message: "Undefined variable '"@ + name.lexeme + "'"@,
    }
}

/// The error for a name that is not bound.
pub fn undefined_variable_error(name: &Token) -> (e: LoxResult)
    ensures
        e@ == undefined_variable(name@),
{
    undefined(name)
}

fn undefined(name: &Token) -> (e: LoxResult)
    ensures
        e@ == undefined_variable(name@),
{
    let mut message = String::from_str("Undefined variable '");
    message.append(name.lexeme.as_str());
    message.append("'");
    LoxResult::RuntimeError { token: name.clone(), message }
}

impl Bindings {
    // One value for each name, and no name twice.
    spec fn wf(&self) -> bool {
        self.names.len() == self.values.len() && distinct(texts(self.names@))
    }

    fn get(&self, name: &String) -> (r: Option<&Object>)
        requires
            self.wf(),
        ensures
            match r {
                Some(v) => local_get(self@, name@) == Some(v@),
                None => local_get(self@, name@) is None,
            },
    {
        match index_of(&self.names, name) {
            Some(i) => Some(&self.values[i]),
            None => None,
        }
    }

    fn put(&mut self, name: &String, value: Object)
        requires
            old(self).wf(),
        ensures
            final(self).wf(),
            final(self)@ == local_put(old(self)@, name@, value@),
            final(self).enclosing == old(self).enclosing,
    {
        match index_of(&self.names, name) {
            Some(i) => {
                self.values.set(i, value);
                assert(objects_view(self.values@) =~= objects_view(old(self).values@).update(
                    i as int,
                    value@,
                ));
            },
            None => {
                self.names.push(name.clone());
                self.values.push(value);
                assert(texts(self.names@) =~= texts(old(self).names@).push(name@));
                assert(objects_view(self.values@) =~= objects_view(old(self).values@).push(
                    value@,
                ));
                proof {
                    lemma_distinct_after_push(texts(old(self).names@), name@);
                }
            },
        }
    }
}

/// Views of a sequence of scopes, element by element.
pub open spec fn bindings_view(scopes: Seq<Bindings>) -> Seq<BindingsView> {
    scopes.map_values(|b: Bindings| b@)
}

/// The scopes of a running program.
pub struct Environment {
    scopes: Vec<Bindings>,
}

impl View for Environment {
    type V = Seq<BindingsView>;

    closed spec fn view(&self) -> Seq<BindingsView> {
        bindings_view(self.scopes@)
    }
}

impl Environment {
    /// The store's invariant: a scope's enclosing scope was made before it.
    pub closed spec fn wf(&self) -> bool {
        forall|i: int|
            0 <= i < self.scopes.len() ==> (#[trigger] self.scopes[i]).wf() && (
            self.scopes[i].enclosing matches Some(p) ==> p < i)
    }

    /// A store with one scope, the global one, which has the index 0.
    pub fn new() -> (e: Environment)
        ensures
            e.wf(),
            e@ == seq![BindingsView { names: seq![], values: seq![], enclosing: None }],
    {
        let mut scopes: Vec<Bindings> = Vec::new();
        scopes.push(Bindings { names: Vec::new(), values: Vec::new(), enclosing: None });
        let e = Environment { scopes };
        assert(e@[0].names =~= seq![]);
        assert(e@[0].values =~= seq![]);
        assert(e@ =~= seq![BindingsView { names: seq![], values: seq![], enclosing: None }]);
        e
    }

    /// The number of scopes in the store.
    pub fn len(&self) -> (n: usize)
        ensures
            n == self@.len(),
    {
        self.scopes.len()
    }

    /// The scope around the scope `env`, if it has one.
    pub fn enclosing(&self, env: usize) -> (r: Option<usize>)
        requires
            env < self@.len(),
        ensures
            r == self@[env as int].enclosing,
    {
        self.scopes[env].enclosing
    }

    /// The store as a model is well formed: every scope has one value for
    /// each of its names.
    pub proof fn lemma_well_formed(&self)
        requires
            self.wf(),
        ensures
            well_formed(self@),
    {
        assert forall|i: int| 0 <= i < self@.len() implies scope_wf(#[trigger] self@[i]) by {
            assert(self.scopes[i].wf());
        }
    }

    /// Makes an empty scope inside `enclosing` and returns its index.
    pub fn new_enclosing(&mut self, enclosing: usize) -> (env: usize)
        requires
            old(self).wf(),
            enclosing < old(self)@.len(),
        ensures
            final(self).wf(),
            env == old(self)@.len(),
            final(self)@ == old(self)@.push(
                BindingsView { names: seq![], values: seq![], enclosing: Some(enclosing) },
            ),
    {
        let env = self.scopes.len();
        let b = Bindings { names: Vec::new(), values: Vec::new(), enclosing: Some(enclosing) };
        assert(b@.names =~= seq![]);
        assert(b@.values =~= seq![]);
        self.scopes.push(b);
        assert(self@ =~= old(self)@.push(
            BindingsView { names: seq![], values: seq![], enclosing: Some(enclosing) },
        ));
        env
    }

    /// Binds `name` to `value` in the scope `env`. A name may be bound again
    /// in the same scope: the last binding wins.
    pub fn define(&mut self, env: usize, name: &str, value: Object)
        requires
            old(self).wf(),
            env < old(self)@.len(),
        ensures
            final(self).wf(),
            final(self)@ == bound(old(self)@, env, name@, value@),
    {
        let key = String::from_str(name);
        self.put(env, &key, value);
    }

    // Binds `name` to `value` in the scope `env`.
    fn put(&mut self, env: usize, name: &String, value: Object)
        requires
            old(self).wf(),
            env < old(self).scopes.len(),
        ensures
            final(self).wf(),
            final(self)@ == bound(old(self)@, env, name@, value@),
    {
        let ghost before = self@;
        self.scopes[env].put(name, value);
        assert(self@ =~= bound(before, env, name@, value@));
    }

    // The innermost scope from `env` outwards that binds `name`.
    fn find(&self, env: usize, name: &String) -> (r: Option<usize>)
        requires
            self.wf(),
        ensures
            r == home(self@, env, name@),
            r matches Some(h) ==> h < self.scopes.len(),
    {
        let mut at = env;
        loop
            invariant
                self.wf(),
                home(self@, env, name@) == home(self@, at, name@),
            decreases at,
        {
            if at >= self.scopes.len() {
                return None;
            }
            if self.scopes[at].get(name).is_some() {
                return Some(at);
            }
            match self.scopes[at].enclosing {
                Some(p) => {
                    at = p;
                },
                None => {
                    return None;
                },
            }
        }
    }

    // The scope `distance` scopes out from `env`.
    fn hop(&self, env: usize, distance: usize) -> (r: Option<usize>)
        requires
            self.wf(),
        ensures
            r == ancestor(self@, env, distance as nat),
            r matches Some(a) ==> a < self.scopes.len(),
    {
        let mut at = env;
        let mut left = distance;
        loop
            invariant
                self.wf(),
                left <= distance,
                ancestor(self@, env, distance as nat) == ancestor(self@, at, left as nat),
            decreases left,
        {
            if at >= self.scopes.len() {
                return None;
            }
            if left == 0 {
                return Some(at);
            }
            match self.scopes[at].enclosing {
                Some(p) => {
                    at = p;
                    left -= 1;
                },
                None => {
                    return None;
                },
            }
        }
    }

    /// The value of `name` as seen from `env`: the chain of scopes is walked
    /// outwards. A name that no scope binds is a runtime error.
    pub fn get(&self, env: usize, name: &Token) -> (r: Result<Object, LoxResult>)
        requires
            self.wf(),
        ensures
            match r {
                Ok(v) => lookup(self@, env, name.lexeme@) == Some(v@),
                Err(e) => lookup(self@, env, name.lexeme@) is None && e@ == undefined_variable(
                    name@,
                ),
            },
    {
        match self.find(env, &name.lexeme) {
            Some(h) => match self.scopes[h].get(&name.lexeme) {
                Some(v) => Ok(v.clone()),
                None => Err(undefined(name)),
            },
            None => Err(undefined(name)),
        }
    }

    /// The value of `name` in the scope exactly `distance` scopes out from
    /// `env`. Where that scope does not exist or does not bind the name, a
    /// runtime error.
    pub fn get_at(&self, env: usize, distance: usize, name: &Token) -> (r: Result<
        Object,
        LoxResult,
    >)
        requires
            self.wf(),
        ensures
            match r {
                Ok(v) => lookup_at(self@, env, distance as nat, name.lexeme@) == Some(v@),
                Err(e) => lookup_at(self@, env, distance as nat, name.lexeme@) is None && e@
                    == undefined_variable(name@),
            },
    {
        match self.hop(env, distance) {
            Some(a) => match self.scopes[a].get(&name.lexeme) {
                Some(v) => Ok(v.clone()),
                None => Err(undefined(name)),
            },
            None => Err(undefined(name)),
        }
    }

    /// Assigns `value` to `name` in the innermost scope from `env` outwards
    /// that binds it, and returns the value. A name that no scope binds is a
    /// runtime error, and nothing changes.
    pub fn assign(&mut self, env: usize, name: &Token, value: Object) -> (r: Result<
        Object,
        LoxResult,
    >)
        requires
            old(self).wf(),
        ensures
            final(self).wf(),
            match r {
                Ok(v) => v@ == value@ && assigned(old(self)@, env, name.lexeme@, value@) == Some(
                    final(self)@,
                ),
                Err(e) => assigned(old(self)@, env, name.lexeme@, value@) is None && final(self)@
                    == old(self)@ && e@ == undefined_variable(name@),
            },
    {
        match self.find(env, &name.lexeme) {
            Some(h) => {
                self.put(h, &name.lexeme, value.clone());
                Ok(value)
            },
            None => Err(undefined(name)),
        }
    }

    /// Binds `name` to `value` in the scope exactly `distance` scopes out
    /// from `env`. Where that scope does not exist, a runtime error, and
    /// nothing changes.
    pub fn assign_at(&mut self, env: usize, distance: usize, name: &Token, value: Object) -> (r:
        Result<(), LoxResult>)
        requires
            old(self).wf(),
        ensures
            final(self).wf(),
            match r {
                Ok(_) => assigned_at(old(self)@, env, distance as nat, name.lexeme@, value@)
                    == Some(final(self)@),
                Err(e) => assigned_at(old(self)@, env, distance as nat, name.lexeme@, value@)
                    is None && final(self)@ == old(self)@ && e@ == undefined_variable(name@),
            },
    {
        match self.hop(env, distance) {
            Some(a) => {
                self.put(a, &name.lexeme, value);
                Ok(())
            },
            None => Err(undefined(name)),
        }
    }
}

/// Whether a scope has one value for each of its names, and no name twice.
pub open spec fn scope_wf(scope: BindingsView) -> bool {
    scope.names.len() == scope.values.len() && distinct(scope.names)
}

/// Whether every scope of the store has one value for each of its names, and
/// no name twice.
pub open spec fn well_formed(envs: Seq<BindingsView>) -> bool {
    forall|i: int| 0 <= i < envs.len() ==> scope_wf(#[trigger] envs[i])
}

/// After a name has been bound in a scope, the scope gives it the new value
/// and every other name the value it had.
pub proof fn lemma_local_put(scope: BindingsView, name: Seq<char>, value: ObjectView, other: Seq<char>)
    requires
        scope_wf(scope),
    ensures
        scope_wf(local_put(scope, name, value)),
        local_put(scope, name, value).enclosing == scope.enclosing,
        local_get(local_put(scope, name, value), name) == Some(value),
        other != name ==> local_get(local_put(scope, name, value), other) == local_get(
            scope,
            other,
        ),
{
    lemma_find_after_push(scope.names, name, name, 0);
    lemma_find_after_push(scope.names, other, name, 0);
    if find_name(scope.names, name, 0) is None {
        lemma_distinct_after_push(scope.names, name);
    }
}

/// The innermost scope that binds a name is in the store, no further out
/// than where the search starts, and binds the name.
pub proof fn lemma_home(envs: Seq<BindingsView>, env: usize, name: Seq<char>)
    ensures
        home(envs, env, name) matches Some(h) ==> h <= env && h < envs.len() && local_get(
            envs[h as int],
            name,
        ) is Some,
    decreases env,
{
    if env < envs.len() && local_get(envs[env as int], name) is None {
        match parent(envs, env) {
            Some(p) => lemma_home(envs, p, name),
            None => {},
        }
    }
}

/// Binding `name` in a scope that already binds it changes no scope's
/// enclosing scope and not which scope a search for any name ends in.
pub proof fn lemma_home_after_bound(
    envs: Seq<BindingsView>,
    h: usize,
    name: Seq<char>,
    value: ObjectView,
    from: usize,
    other: Seq<char>,
)
    requires
        well_formed(envs),
        h < envs.len(),
        local_get(envs[h as int], name) is Some,
    ensures
        home(bound(envs, h, name, value), from, other) == home(envs, from, other),
    decreases from,
{
    let after = bound(envs, h, name, value);
    lemma_local_put(envs[h as int], name, value, other);
    if from < envs.len() {
        assert(parent(after, from) == parent(envs, from));
        assert((local_get(after[from as int], other) is Some) == (local_get(
            envs[from as int],
            other,
        ) is Some));
        if local_get(envs[from as int], other) is None {
            match parent(envs, from) {
                Some(p) => lemma_home_after_bound(envs, h, name, value, p, other),
                None => {},
            }
        }
    }
}

/// A variable holds the value it was declared with: after `name` has been
/// bound to `value` in the scope `env`, `name` as seen from `env` is
/// `value`, and every other name is what it was.
pub proof fn lemma_define_then_get(
    envs: Seq<BindingsView>,
    env: usize,
    name: Seq<char>,
    value: ObjectView,
    other: Seq<char>,
)
    requires
        well_formed(envs),
        env < envs.len(),
    ensures
        lookup(bound(envs, env, name, value), env, name) == Some(value),
        other != name && local_get(envs[env as int], name) is Some ==> lookup(
            bound(envs, env, name, value),
            env,
            other,
        ) == lookup(envs, env, other),
{
    let after = bound(envs, env, name, value);
    lemma_local_put(envs[env as int], name, value, other);
    if other != name && local_get(envs[env as int], name) is Some {
        lemma_home_after_bound(envs, env, name, value, env, other);
        lemma_home(envs, env, other);
        match home(envs, env, other) {
            Some(h) => {
                if h != env {
                    assert(after[h as int] == envs[h as int]);
                }
            },
            None => {},
        }
    }
}

/// Until it is assigned again, a variable keeps the value assigned to it:
/// after an assignment to `name` as seen from `env`, `name` as seen from
/// `env` is the value assigned.
pub proof fn lemma_assign_then_get(
    envs: Seq<BindingsView>,
    env: usize,
    name: Seq<char>,
    value: ObjectView,
)
    requires
        well_formed(envs),
        assigned(envs, env, name, value) is Some,
    ensures
        lookup(assigned(envs, env, name, value)->Some_0, env, name) == Some(value),
{
    lemma_home(envs, env, name);
    let h = home(envs, env, name)->Some_0;
    lemma_home_after_bound(envs, h, name, value, env, name);
    lemma_local_put(envs[h as int], name, value, name);
}

/// Environments are shared by reference: where two scopes `a` and `b` lie
/// in the same enclosing scope and neither binds `name` itself, a value
/// assigned to `name` from `a` is the value that `b` reads.
pub proof fn lemma_shared_scope(
    envs: Seq<BindingsView>,
    a: usize,
    b: usize,
    name: Seq<char>,
    value: ObjectView,
)
    requires
        well_formed(envs),
        a < envs.len(),
        b < envs.len(),
        parent(envs, a) is Some,
        parent(envs, a) == parent(envs, b),
        local_get(envs[a as int], name) is None,
        local_get(envs[b as int], name) is None,
        assigned(envs, a, name, value) is Some,
    ensures
        lookup(assigned(envs, a, name, value)->Some_0, b, name) == Some(value),
        lookup(assigned(envs, a, name, value)->Some_0, a, name) == Some(value),
{
    lemma_home(envs, a, name);
    let h = home(envs, a, name)->Some_0;
    assert(home(envs, b, name) == Some(h));
    lemma_home_after_bound(envs, h, name, value, b, name);
    lemma_home_after_bound(envs, h, name, value, a, name);
    lemma_local_put(envs[h as int], name, value, name);
}

/// A lookup by depth agrees with a lookup by name wherever the depth is that
/// of the innermost scope that binds the name: if the scope `distance`
/// scopes out from `env` binds `name` and no scope nearer does, both give
/// the value bound there.
pub proof fn lemma_depth_of_innermost(
    envs: Seq<BindingsView>,
    env: usize,
    distance: nat,
    name: Seq<char>,
)
    requires
        ancestor(envs, env, distance) matches Some(a) && local_get(envs[a as int], name) is Some,
        forall|k: nat|
            k < distance ==> (#[trigger] ancestor(envs, env, k) matches Some(b) ==> local_get(
                envs[b as int],
                name,
            ) is None),
    ensures
        home(envs, env, name) == ancestor(envs, env, distance),
        lookup_at(envs, env, distance, name) == lookup(envs, env, name),
    decreases distance,
{
    if distance > 0 {
        assert(ancestor(envs, env, 0) == Some(env));
        let p = parent(envs, env)->Some_0;
        assert forall|k: nat| k < distance - 1 implies (#[trigger] ancestor(envs, p, k) matches Some(
            b,
        ) ==> local_get(envs[b as int], name) is None) by {
            assert(ancestor(envs, env, k + 1) == ancestor(envs, p, k));
        }
        lemma_depth_of_innermost(envs, p, (distance - 1) as nat, name);
    }
}

/// A name that no scope up to `distance` scopes out binds is looked up from
/// the scope `distance` scopes out: where that is the global scope, a
/// lookup by name is a lookup among the globals.
pub proof fn lemma_unbound_is_global(
    envs: Seq<BindingsView>,
    env: usize,
    distance: nat,
    name: Seq<char>,
)
    requires
        ancestor(envs, env, distance) is Some,
        forall|k: nat|
            k < distance ==> (#[trigger] ancestor(envs, env, k) matches Some(b) ==> local_get(
                envs[b as int],
                name,
            ) is None),
    ensures
        lookup(envs, env, name) == lookup(envs, ancestor(envs, env, distance)->Some_0, name),
    decreases distance,
{
    if distance > 0 {
        assert(ancestor(envs, env, 0) == Some(env));
        let p = parent(envs, env)->Some_0;
        assert forall|k: nat| k < distance - 1 implies (#[trigger] ancestor(envs, p, k) matches Some(
            b,
        ) ==> local_get(envs[b as int], name) is None) by {
            assert(ancestor(envs, env, k + 1) == ancestor(envs, p, k));
        }
        lemma_unbound_is_global(envs, p, (distance - 1) as nat, name);
    }
}

/// Binding a name in a scope changes no other scope, adds no scope, and
/// leaves every scope where it lies.
pub proof fn lemma_bound_frame(
    envs: Seq<BindingsView>,
    h: usize,
    name: Seq<char>,
    value: ObjectView,
)
    requires
        well_formed(envs),
    ensures
        well_formed(bound(envs, h, name, value)),
        bound(envs, h, name, value).len() == envs.len(),
        forall|k: int|
            0 <= k < envs.len() && k != h ==> #[trigger] bound(envs, h, name, value)[k] == envs[k],
        forall|k: usize| #[trigger]
            parent(bound(envs, h, name, value), k) == parent(envs, k),
{
    if h < envs.len() {
        lemma_local_put(envs[h as int], name, value, name);
        assert forall|k: usize| #[trigger]
            parent(bound(envs, h, name, value), k) == parent(envs, k) by {
            if k < envs.len() {
                if k == h {
                    assert(bound(envs, h, name, value)[k as int].enclosing == envs[k as int].enclosing);
                }
            }
        }
    }
}

/// Binding a name in a scope leaves every scope where it lies in the chain:
/// the scope `distance` scopes out from `env` is the same before and after.
pub proof fn lemma_ancestor_after_bound(
    envs: Seq<BindingsView>,
    h: usize,
    name: Seq<char>,
    value: ObjectView,
    env: usize,
    distance: nat,
)
    requires
        well_formed(envs),
    ensures
        ancestor(bound(envs, h, name, value), env, distance) == ancestor(envs, env, distance),
    decreases distance,
{
    lemma_bound_frame(envs, h, name, value);
    if env < envs.len() && distance > 0 {
        assert(parent(bound(envs, h, name, value), env) == parent(envs, env));
        match parent(envs, env) {
            Some(p) => lemma_ancestor_after_bound(envs, h, name, value, p, (distance - 1) as nat),
            None => {},
        }
    }
}

/// A variable keeps the value assigned to it: after an assignment to `name`
/// at the depth `distance` from `env`, `name` at that depth from `env` is
/// the value assigned, and the same holds from every scope `other` whose
/// chain reaches the same scope at the depth `reach`.
pub proof fn lemma_assign_at_then_get(
    envs: Seq<BindingsView>,
    env: usize,
    distance: nat,
    name: Seq<char>,
    value: ObjectView,
    other: usize,
    reach: nat,
)
    requires
        well_formed(envs),
        assigned_at(envs, env, distance, name, value) is Some,
        ancestor(envs, other, reach) == ancestor(envs, env, distance),
    ensures
        lookup_at(assigned_at(envs, env, distance, name, value)->Some_0, env, distance, name)
            == Some(value),
        lookup_at(assigned_at(envs, env, distance, name, value)->Some_0, other, reach, name)
            == Some(value),
{
    let a = ancestor(envs, env, distance)->Some_0;
    lemma_ancestor_in_store(envs, env, distance);
    lemma_ancestor_after_bound(envs, a, name, value, env, distance);
    lemma_ancestor_after_bound(envs, a, name, value, other, reach);
    lemma_local_put(envs[a as int], name, value, name);
}

/// The scope found by hopping outwards is in the store.
pub proof fn lemma_ancestor_in_store(envs: Seq<BindingsView>, env: usize, distance: nat)
    ensures
        ancestor(envs, env, distance) matches Some(a) ==> a < envs.len() && a <= env,
    decreases distance,
{
    if env < envs.len() && distance > 0 {
        match parent(envs, env) {
            Some(p) => lemma_ancestor_in_store(envs, p, (distance - 1) as nat),
            None => {},
        }
    }
}

/// An assignment touches one slot: binding `name` in a scope leaves the
/// value of every other name as it was, looked up by name or by depth from
/// any scope.
pub proof fn lemma_bound_keeps_other_names(
    envs: Seq<BindingsView>,
    h: usize,
    name: Seq<char>,
    value: ObjectView,
    env: usize,
    other: Seq<char>,
    distance: nat,
)
    requires
        well_formed(envs),
        other != name,
    ensures
        home(bound(envs, h, name, value), env, other) == home(envs, env, other),
        lookup(bound(envs, h, name, value), env, other) == lookup(envs, env, other),
        lookup_at(bound(envs, h, name, value), env, distance, other) == lookup_at(
            envs,
            env,
            distance,
            other,
        ),
    decreases env,
{
    let after = bound(envs, h, name, value);
    lemma_bound_frame(envs, h, name, value);
    lemma_ancestor_after_bound(envs, h, name, value, env, distance);
    lemma_ancestor_in_store(envs, env, distance);
    if h < envs.len() {
        lemma_local_put(envs[h as int], name, value, other);
    }
    assert forall|k: int| 0 <= k < envs.len() implies local_get(#[trigger] after[k], other)
        == local_get(envs[k], other) by {
        if k != h {
            assert(after[k] == envs[k]);
        }
    }
    if env < envs.len() {
        if local_get(envs[env as int], other) is None {
            match parent(envs, env) {
                Some(p) => {
                    lemma_bound_keeps_other_names(envs, h, name, value, p, other, distance);
                },
                None => {},
            }
        }
        lemma_home(envs, env, other);
    }
}

/// Two calls share the scope their functions close over: where the scopes
/// `a` and `b` (the scopes of two calls, made for functions with the same
/// closure) lie in the same scope, a value that is assigned to `name` from
/// `a`, one scope out, is the value read from `b`, one scope out. The scope
/// is shared by reference, not copied.
pub proof fn lemma_shared_closure(
    envs: Seq<BindingsView>,
    a: usize,
    b: usize,
    name: Seq<char>,
    value: ObjectView,
)
    requires
        well_formed(envs),
        parent(envs, a) is Some,
        parent(envs, a) == parent(envs, b),
    ensures
        assigned_at(envs, a, 1, name, value) is Some,
        lookup_at(assigned_at(envs, a, 1, name, value)->Some_0, b, 1, name) == Some(value),
        lookup_at(assigned_at(envs, a, 1, name, value)->Some_0, a, 1, name) == Some(value),
{
    let p = parent(envs, a)->Some_0;
    assert(ancestor(envs, p, 0) == Some(p));
    assert(ancestor(envs, a, 1) == Some(p));
    assert(ancestor(envs, b, 1) == Some(p));
    lemma_assign_at_then_get(envs, a, 1, name, value, b, 1);
}

} // verus!
