//! User functions and methods.

use vstd::prelude::*;
use crate::environment::{BindingsView, Environment, bound};
use crate::object::Object;

verus! {

/// A function value: its declaration (the index of the `Function`
/// statement), the scope that was current where it was declared, and whether
/// it is the initializer of a class.
#[derive(PartialEq, Eq, Structural, Clone, Copy, Debug)]
pub struct LoxFunction {
    pub declaration: usize,
    pub closure: usize,
    pub is_initializer: bool,
}

impl LoxFunction {
    pub fn new(declaration: usize, closure: usize, is_initializer: bool) -> (f: LoxFunction)
        ensures
            f == (LoxFunction { declaration, closure, is_initializer }),
    {
        LoxFunction { declaration, closure, is_initializer }
    }

    /// The method bound to `instance`: the same function, closed over a new
    /// scope that lies inside the method's closure and binds `this`. None
    /// where the closure is not in the store, which is then unchanged.
    pub fn bind(&self, environments: &mut Environment, instance: Object) -> (r: Option<
        LoxFunction,
    >)
        requires
            old(environments).wf(),
        ensures
            final(environments).wf(),
            match r {
                Some(f) => self.closure < old(environments)@.len() && f == (LoxFunction {
                    declaration: self.declaration,
                    closure: old(environments)@.len() as usize,
                    is_initializer: self.is_initializer,
                }) && final(environments)@ == bound(
                    old(environments)@.push(
                        BindingsView {
                            names: seq![],
                            values: seq![],
                            enclosing: Some(self.closure),
                        },
                    ),
                    f.closure,
                    "this"@,
                    instance@,
                ),
                None => self.closure >= old(environments)@.len() && final(environments)@ == old(
                    environments,
                )@,
            },
    {
        if self.closure >= environments.len() {
            return None;
        }
        let env = environments.new_enclosing(self.closure);
        environments.define(env, "this", instance);
        Some(
            LoxFunction {
                declaration: self.declaration,
                closure: env,
                is_initializer: self.is_initializer,
            },
        )
    }
}

} // verus!
