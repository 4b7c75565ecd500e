//! Classes.

use vstd::prelude::*;
use vstd::string::*;
use crate::names::{distinct, find_name, index_of, lemma_distinct_after_push, texts};

verus! {

/// A class: its name, its superclass (a class made before it) and its
/// methods, each a function known by its index. No method name occurs
/// twice: a method declared again takes the place of the earlier one.
pub struct LoxClass {
    name: String,
    superclass: Option<usize>,
    method_names: Vec<String>,
    method_functions: Vec<usize>,
}

/// Mathematical model of a [`LoxClass`].
pub struct ClassView {
    pub name: Seq<char>,
    pub superclass: Option<usize>,
    pub method_names: Seq<Seq<char>>,
    pub method_functions: Seq<usize>,
}

impl View for LoxClass {
    type V = ClassView;

    closed spec fn view(&self) -> ClassView {
        ClassView {
            name: self.name@,
            superclass: self.superclass,
            method_names: texts(self.method_names@),
            method_functions: self.method_functions@,
        }
    }
}

/// Views of a sequence of classes, element by element.
pub open spec fn classes_view(classes: Seq<LoxClass>) -> Seq<ClassView> {
    classes.map_values(|c: LoxClass| c@)
}

/// The method `name` that the class itself declares.
pub open spec fn own_method(class: ClassView, name: Seq<char>) -> Option<usize> {
    match find_name(class.method_names, name, 0) {
        Some(i) => if i < class.method_functions.len() {
            Some(class.method_functions[i])
        } else {
            None
        },
        None => None,
    }
}

/// The method `name` of the class `class`: its own, else that of its
/// superclass, and so on up the chain.
pub open spec fn method_of(classes: Seq<ClassView>, class: usize, name: Seq<char>) -> Option<
    usize,
>
    decreases class,
{
    if class >= classes.len() {
        None
    } else {
        match own_method(classes[class as int], name) {
            Some(f) => Some(f),
            None => match classes[class as int].superclass {
                Some(parent) => if parent < class {
                    method_of(classes, parent, name)
                } else {
                    None
                },
                None => None,
            },
        }
    }
}

/// The class with the method `name` being the function `function`; an
/// earlier method of that name is replaced.
pub open spec fn with_method(class: ClassView, name: Seq<char>, function: usize) -> ClassView {
    match find_name(class.method_names, name, 0) {
        Some(i) => ClassView {
            name: class.name,
            superclass: class.superclass,
            method_names: class.method_names,
            method_functions: class.method_functions.update(i, function),
        },
        None => ClassView {
            name: class.name,
            superclass: class.superclass,
            method_names: class.method_names.push(name),
            method_functions: class.method_functions.push(function),
        },
    }
}

impl LoxClass {
    /// The class's invariant: one function for each method name, and no
    /// name twice.
    pub closed spec fn wf(&self) -> bool {
        self.method_names.len() == self.method_functions.len() && distinct(
            texts(self.method_names@),
        )
    }

    /// A class without methods.
    pub fn new(name: &str, superclass: Option<usize>) -> (c: LoxClass)
        ensures
            c.wf(),
            c@ == (ClassView {
                name: name@,
                superclass,
                method_names: seq![],
                method_functions: seq![],
            }),
    {
        let c = LoxClass {
            name: String::from_str(name),
            superclass,
            method_names: Vec::new(),
            method_functions: Vec::new(),
        };
        assert(c@.method_names =~= seq![]);
        assert(c@.method_functions =~= seq![]);
        c
    }

    /// Makes `function` the method `name` of the class.
    pub fn add_method(&mut self, name: &String, function: usize)
        requires
            old(self).wf(),
        ensures
            final(self).wf(),
            final(self)@ == with_method(old(self)@, name@, function),
    {
        match index_of(&self.method_names, name) {
            Some(i) => {
                self.method_functions.set(i, function);
            },
            None => {
                self.method_names.push(name.clone());
                self.method_functions.push(function);
                assert(texts(self.method_names@) =~= texts(old(self).method_names@).push(name@));
                proof {
                    lemma_distinct_after_push(texts(old(self).method_names@), name@);
                }
            },
        }
    }

    /// The class's name.
    pub fn name(&self) -> (n: &String)
        ensures
            n@ == self@.name,
    {
        &self.name
    }

    /// The class's superclass.
    pub fn superclass(&self) -> (s: Option<usize>)
        ensures
            s == self@.superclass,
    {
        self.superclass
    }

    /// The method `name` of the class with index `class` in `classes`,
    /// searched from the class up its chain of superclasses.
    pub fn find_method(classes: &Vec<LoxClass>, class: usize, name: &String) -> (r: Option<usize>)
        ensures
            r == method_of(classes_view(classes@), class, name@),
    {
        let mut at = class;
        loop
            invariant
                method_of(classes_view(classes@), class, name@) == method_of(
                    classes_view(classes@),
                    at,
                    name@,
                ),
            decreases at,
        {
            if at >= classes.len() {
                return None;
            }
            let c = &classes[at];
            match index_of(&c.method_names, name) {
                Some(i) => {
                    if i < c.method_functions.len() {
                        return Some(c.method_functions[i]);
                    }
                },
                None => {},
            }
            match c.superclass {
                Some(parent) => {
                    if parent < at {
                        at = parent;
                    } else {
                        return None;
                    }
                },
                None => {
                    return None;
                },
            }
        }
    }
}

} // verus!
