//! What can be called: the built-in clock, functions with their
//! closures, and classes.

use vstd::prelude::*;
use vstd::string::StringExecFns;
use crate::stmt::FunctionStmt;

verus! {

/// The built-in function `clock`: no parameters; its result is the
/// host's wall-clock time.
#[derive(Debug, Clone, Copy, PartialEq)]
pub struct LoxBuiltinFunctionClock {}

impl LoxBuiltinFunctionClock {
    pub fn new() -> (r: Self)
        ensures
            r == (LoxBuiltinFunctionClock {  }),
    {
        Self {  }
    }

    pub fn arity(&self) -> (r: usize)
        ensures
            r == 0,
    {
        0
    }

    pub fn to_string(&self) -> (r: String)
        ensures
            r@ == "<native fn>"@,
    {
        String::from_str("<native fn>")
    }
}

/// A function that the host provides.
#[derive(Debug, Clone, Copy, PartialEq)]
pub struct LoxDynamicFunction {
    pub callable: LoxBuiltinFunctionClock,
}

/// A function value: a declaration together with the scope in which it
/// was declared. `id` tells function values apart: every evaluation of
/// a declaration and every binding of a method makes a new one.
#[derive(Debug, Clone, Copy, PartialEq)]
pub struct LoxFunction<'a> {
    pub id: usize,
    pub declaration: &'a FunctionStmt,
    /// The scope that the function closes over, by its index.
    pub closure: usize,
    pub is_initializer: bool,
}

impl<'a> LoxFunction<'a> {
    pub fn new(id: usize, declaration: &'a FunctionStmt, closure: usize, is_initializer: bool) -> (r:
        Self)
        ensures
            r == (LoxFunction { id, declaration, closure, is_initializer }),
    {
        Self { id, declaration, closure, is_initializer }
    }

    /// The number of parameters.
    pub fn arity(&self) -> (r: usize)
        ensures
            r == self.declaration.params@.len(),
    {
        self.declaration.params.len()
    }

    pub fn to_string(&self) -> (r: String)
        ensures
            r@ == "<fn "@ + self.declaration.name.lexeme@ + ">"@,
    {
        let mut text = String::from_str("<fn ");
        text.append(self.declaration.name.lexeme.as_str());
        text.append(">");
        text
    }
}

#[derive(Debug, Clone, Copy, PartialEq)]
pub enum Callable<'a> {
    DynamicFunction(LoxDynamicFunction),
    Function(LoxFunction<'a>),
    /// A class, by its index among the classes.
    Class(usize),
}

/// Whether two callables are the same one.
pub open spec fn same_callable(a: Callable, b: Callable) -> bool {
    match (a, b) {
        (Callable::DynamicFunction(_), Callable::DynamicFunction(_)) => true,
        (Callable::Function(f), Callable::Function(g)) => f.id == g.id,
        (Callable::Class(c), Callable::Class(d)) => c == d,
        _ => false,
    }
}

impl<'a> Callable<'a> {
    /// Whether `self` and `other` are the same callable.
    pub fn is(&self, other: &Callable<'a>) -> (r: bool)
        ensures
            r == same_callable(*self, *other),
    {
        match (self, other) {
            (Callable::DynamicFunction(_), Callable::DynamicFunction(_)) => true,
            (Callable::Function(f), Callable::Function(g)) => f.id == g.id,
            (Callable::Class(c), Callable::Class(d)) => *c == *d,
            _ => false,
        }
    }
}

} // verus!
