//! Runtime values.

use vstd::prelude::*;
use crate::callable::{Callable, same_callable};
use crate::number;

verus! {

#[derive(Debug)]
pub struct InterpreterError {
    pub message: String,
}

/// A value. A number is held as the bits of a 64-bit binary floating
/// point number; an instance by its index among the instances.
#[derive(Debug, PartialEq)]
pub enum Value<'a> {
    Callable(Callable<'a>),
    Instance(usize),
    Number(u64),
    String(String),
    Bool(bool),
    Nil,
}

/// How a statement ended: by running to its end, or by a `return`.
#[derive(Debug)]
pub enum InterpreterResult<'a> {
    Done,
    Return(Value<'a>),
}

impl<'a> Clone for Value<'a> {
    fn clone(&self) -> (r: Self)
        ensures
            r == *self,
    {
        match self {
            Value::Callable(c) => Value::Callable(*c),
            Value::Instance(i) => Value::Instance(*i),
            Value::Number(n) => Value::Number(*n),
            Value::String(s) => Value::String(s.clone()),
            Value::Bool(b) => Value::Bool(*b),
            Value::Nil => Value::Nil,
        }
    }
}

/// Truthiness: `false` and `nil` are false, everything else is true.
pub open spec fn truthy(v: Value) -> bool {
    match v {
        Value::Bool(b) => b,
        Value::Nil => false,
        _ => true,
    }
}

/// Equality of values: `nil` equals `nil`; booleans, numbers and
/// strings are equal when their contents are; callables and instances
/// when they are the same one; values of different kinds never.
pub open spec fn values_equal(a: Value, b: Value) -> bool {
    match (a, b) {
        (Value::Nil, Value::Nil) => true,
        (Value::Bool(x), Value::Bool(y)) => x == y,
        (Value::Number(x), Value::Number(y)) => number::equal_spec(x, y),
        (Value::String(x), Value::String(y)) => x@ == y@,
        (Value::Callable(x), Value::Callable(y)) => same_callable(x, y),
        (Value::Instance(x), Value::Instance(y)) => x == y,
        _ => false,
    }
}

/// The kind of a value, as a number: one for each variant.
pub open spec fn kind(v: Value) -> int {
    match v {
        Value::Callable(_) => 0,
        Value::Instance(_) => 1,
        Value::Number(_) => 2,
        Value::String(_) => 3,
        Value::Bool(_) => 4,
        Value::Nil => 5,
    }
}

impl<'a> Value<'a> {
    pub fn is_nil(&self) -> (r: bool)
        ensures
            r == (*self is Nil),
    {
        matches!(self, Value::Nil)
    }

    pub fn is_true(&self) -> (r: bool)
        ensures
            r == truthy(*self),
    {
        match self {
            Value::Bool(value) => *value,
            Value::Nil => false,
            _ => true,
        }
    }

    /// Whether `self` equals `other` as the language's `==` has it.
    pub fn equals(&self, other: &Value<'a>) -> (r: bool)
        ensures
            r == values_equal(*self, *other),
    {
        match (self, other) {
            (Value::Nil, Value::Nil) => true,
            (Value::Bool(x), Value::Bool(y)) => *x == *y,
            (Value::Number(x), Value::Number(y)) => number::equal(*x, *y),
            (Value::String(x), Value::String(y)) => *x == *y,
            (Value::Callable(x), Value::Callable(y)) => x.is(y),
            (Value::Instance(x), Value::Instance(y)) => *x == *y,
            _ => false,
        }
    }
}

/// Values of different kinds are never equal.
pub proof fn lemma_different_kinds_differ(a: Value, b: Value)
    requires
        kind(a) != kind(b),
    ensures
        !values_equal(a, b),
{
}

/// A `nil`, a boolean, a string, or a number that is a number, equals
/// itself.
pub proof fn lemma_primitive_equals_itself(a: Value)
    requires
        a is Nil || a is Bool || a is String || (a matches Value::Number(n) && !number::is_nan(n)),
    ensures
        values_equal(a, a),
{
}

/// Equality does not depend on the order of its operands.
pub proof fn lemma_equality_symmetric(a: Value, b: Value)
    ensures
        values_equal(a, b) == values_equal(b, a),
{
}

} // verus!
