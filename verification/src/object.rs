//! Runtime values.

use vstd::prelude::*;
use vstd::string::*;

verus! {

/// A value of the language.
///
/// A number is held as the bit pattern of a 64-bit binary floating-point
/// number. The library never looks into it: arithmetic, comparison, parsing
/// and display of numbers are asked of the host. Functions, classes,
/// instances and natives are held by identity: the index under which the
/// evaluator keeps them.
#[derive(Debug, PartialEq, Eq)]
pub enum Object {
    Str(String),
    Number(u64),
    Bool(bool),
    Func(usize),
    Class(usize),
    Instance(usize),
    Native(usize),
    Nil,
}

/// Mathematical model of an [`Object`].
pub enum ObjectView {
    Str(Seq<char>),
    Number(u64),
    Bool(bool),
    Func(usize),
    Class(usize),
    Instance(usize),
    Native(usize),
    Nil,
}

impl View for Object {
    type V = ObjectView;

    open spec fn view(&self) -> ObjectView {
        match self {
            Object::Str(s) => ObjectView::Str(s@),
            Object::Number(n) => ObjectView::Number(*n),
            Object::Bool(b) => ObjectView::Bool(*b),
            Object::Func(f) => ObjectView::Func(*f),
            Object::Class(c) => ObjectView::Class(*c),
            Object::Instance(i) => ObjectView::Instance(*i),
            Object::Native(n) => ObjectView::Native(*n),
            Object::Nil => ObjectView::Nil,
        }
    }
}

impl Clone for Object {
    fn clone(&self) -> (r: Object)
        ensures
            r@ == self@,
    {
        match self {
            Object::Str(s) => Object::Str(s.clone()),
            Object::Number(n) => Object::Number(*n),
            Object::Bool(b) => Object::Bool(*b),
            Object::Func(f) => Object::Func(*f),
            Object::Class(c) => Object::Class(*c),
            Object::Instance(i) => Object::Instance(*i),
            Object::Native(n) => Object::Native(*n),
            Object::Nil => Object::Nil,
        }
    }
}

/// Views of a sequence of values, element by element.
pub open spec fn objects_view(values: Seq<Object>) -> Seq<ObjectView> {
    values.map_values(|v: Object| v@)
}

/// Truthiness: `false` and `nil` are falsey, everything else is truthy.
pub open spec fn truthy(value: ObjectView) -> bool {
    match value {
        ObjectView::Bool(b) => b,
        ObjectView::Nil => false,
        _ => true,
    }
}

/// What `!` gives.
pub open spec fn negation(value: ObjectView) -> ObjectView {
    ObjectView::Bool(!truthy(value))
}

/// Whether two values, not both numbers, are equal: by value for strings,
/// booleans and `nil`, by identity for functions, classes, instances and
/// natives; values of different kinds are never equal.
pub open spec fn same(left: ObjectView, right: ObjectView) -> bool
    recommends
        !(left is Number && right is Number),
{
    match (left, right) {
        (ObjectView::Str(a), ObjectView::Str(b)) => a == b,
        (ObjectView::Bool(a), ObjectView::Bool(b)) => a == b,
        (ObjectView::Func(a), ObjectView::Func(b)) => a == b,
        (ObjectView::Class(a), ObjectView::Class(b)) => a == b,
        (ObjectView::Instance(a), ObjectView::Instance(b)) => a == b,
        (ObjectView::Native(a), ObjectView::Native(b)) => a == b,
        (ObjectView::Nil, ObjectView::Nil) => true,
        _ => false,
    }
}

/// `text` repeated `count` times.
pub open spec fn repeated(text: Seq<char>, count: nat) -> Seq<char>
    decreases count,
{
    if count == 0 {
        seq![]
    } else {
        repeated(text, (count - 1) as nat) + text
    }
}

impl Object {
    /// Truthiness: `false` and `nil` are falsey, everything else is truthy.
    pub fn is_truthy(&self) -> (b: bool)
        ensures
            b == truthy(self@),
    {
        match self {
            Object::Bool(b) => *b,
            Object::Nil => false,
            _ => true,
        }
    }

    /// What `!` gives for this value.
    pub fn not(&self) -> (r: Object)
        ensures
            r@ == negation(self@),
    {
        Object::Bool(!self.is_truthy())
    }

    /// Whether this value equals `other`. Two numbers are not compared
    /// here: whether they are equal is for the host to say.
    pub fn same_as(&self, other: &Object) -> (b: bool)
        requires
            !(self@ is Number && other@ is Number),
        ensures
            b == same(self@, other@),
    {
        match (self, other) {
            (Object::Str(a), Object::Str(b)) => *a == *b,
            (Object::Bool(a), Object::Bool(b)) => *a == *b,
            (Object::Func(a), Object::Func(b)) => *a == *b,
            (Object::Class(a), Object::Class(b)) => *a == *b,
            (Object::Instance(a), Object::Instance(b)) => *a == *b,
            (Object::Native(a), Object::Native(b)) => *a == *b,
            (Object::Nil, Object::Nil) => true,
            _ => false,
        }
    }
}

/// The text `text` repeated `count` times.
pub fn repeat(text: &String, count: usize) -> (r: String)
    ensures
        r@ == repeated(text@, count as nat),
{
    let mut r = String::new();
    let mut i: usize = 0;
    while i < count
        invariant
            i <= count,
            r@ == repeated(text@, i as nat),
        decreases count - i,
    {
        r.append(text.as_str());
        i += 1;
    }
    r
}

/// The law of double negation: `!!x` is the truthiness of `x`, for every
/// value `x`.
pub proof fn lemma_double_negation(x: ObjectView)
    ensures
        negation(negation(x)) == ObjectView::Bool(truthy(x)),
{
}

} // verus!
