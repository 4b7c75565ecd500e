//! Instances of classes.

use vstd::prelude::*;
use crate::names::{distinct, find_name, index_of, lemma_distinct_after_push, texts};
use crate::object::{Object, ObjectView, objects_view};
use crate::token::Token;

verus! {

/// An instance: its class and its fields.
pub struct LoxInstance {
    klass: usize,
    field_names: Vec<String>,
    field_values: Vec<Object>,
}

/// Mathematical model of a [`LoxInstance`]. No field name occurs twice.
pub struct InstanceView {
    pub klass: usize,
    pub field_names: Seq<Seq<char>>,
    pub field_values: Seq<ObjectView>,
}

impl View for LoxInstance {
    type V = InstanceView;

    closed spec fn view(&self) -> InstanceView {
        InstanceView {
            klass: self.klass,
            field_names: texts(self.field_names@),
            field_values: objects_view(self.field_values@),
        }
    }
}

/// Views of a sequence of instances, element by element.
pub open spec fn instances_view(instances: Seq<LoxInstance>) -> Seq<InstanceView> {
    instances.map_values(|i: LoxInstance| i@)
}

/// The value of the field `name`.
pub open spec fn field(instance: InstanceView, name: Seq<char>) -> Option<ObjectView> {
    match find_name(instance.field_names, name, 0) {
        Some(i) => Some(instance.field_values[i]),
        None => None,
    }
}

/// The instance with the field `name` set to `value`.
pub open spec fn with_field(instance: InstanceView, name: Seq<char>, value: ObjectView)
    -> InstanceView {
    match find_name(instance.field_names, name, 0) {
        Some(i) => InstanceView {
            klass: instance.klass,
            field_names: instance.field_names,
            field_values: instance.field_values.update(i, value),
        },
        None => InstanceView {
            klass: instance.klass,
            field_names: instance.field_names.push(name),
            field_values: instance.field_values.push(value),
        },
    }
}

impl LoxInstance {
    /// The instance's invariant: one value for each field name, and no name
    /// twice.
    pub closed spec fn wf(&self) -> bool {
        self.field_names.len() == self.field_values.len() && distinct(texts(self.field_names@))
    }

    /// An instance of the class `klass` without fields.
    pub fn new(klass: usize) -> (i: LoxInstance)
        ensures
            i.wf(),
            i@ == (InstanceView { klass, field_names: seq![], field_values: seq![] }),
    {
        let i = LoxInstance { klass, field_names: Vec::new(), field_values: Vec::new() };
        assert(i@.field_names =~= seq![]);
        assert(i@.field_values =~= seq![]);
        i
    }

    /// The instance's class.
    pub fn klass(&self) -> (c: usize)
        ensures
            c == self@.klass,
    {
        self.klass
    }

    /// The value of the field that `name` names, if the instance has it.
    pub fn get(&self, name: &Token) -> (r: Option<Object>)
        requires
            self.wf(),
        ensures
            match r {
                Some(v) => field(self@, name.lexeme@) == Some(v@),
                None => field(self@, name.lexeme@) is None,
            },
    {
        match index_of(&self.field_names, &name.lexeme) {
            Some(i) => Some(self.field_values[i].clone()),
            None => None,
        }
    }

    /// Sets the field that `name` names to `object`.
    pub fn set(&mut self, name: &Token, object: Object)
        requires
            old(self).wf(),
        ensures
            final(self).wf(),
            final(self)@ == with_field(old(self)@, name.lexeme@, object@),
    {
        match index_of(&self.field_names, &name.lexeme) {
            Some(i) => {
                self.field_values.set(i, object);
                assert(objects_view(self.field_values@) =~= objects_view(
                    old(self).field_values@,
                ).update(i as int, object@));
            },
            None => {
                self.field_names.push(name.lexeme.clone());
                self.field_values.push(object);
                assert(texts(self.field_names@) =~= texts(old(self).field_names@).push(
                    name.lexeme@,
                ));
                assert(objects_view(self.field_values@) =~= objects_view(
                    old(self).field_values@,
                ).push(object@));
                proof {
                    lemma_distinct_after_push(texts(old(self).field_names@), name.lexeme@);
                }
            },
        }
    }
}

} // verus!
