//! Calls: of the clock, of functions, and of classes, which make
//! instances.

use vstd::prelude::*;
use vstd::string::StringExecFns;
use crate::callable::{Callable, LoxFunction};
use crate::class::{Instance, LoxClass, find_method, method_of};
use crate::environment::ScopeView;
use crate::interpreter::{
    Action, Frame, Interpreter, Machine, Mode, Registers, Store, fails, settles,
};
use crate::operators::{Expected, Outcome, Request, error_text, runtime_error};

use crate::text::{nat_text, usize_to_string};
use crate::tokens::Token;
use crate::value::{InterpreterError, Value};

verus! {

/// The text of the error for a call with the wrong number of arguments.
pub open spec fn arity_text(expected: nat, got: nat, line: int) -> Seq<char> {
    error_text(
        "Expected "@ + nat_text(expected) + " arguments but got "@ + nat_text(got) + "."@,
        line,
    )
}

pub fn arity_error(expected: usize, got: usize, line: i32) -> (r: InterpreterError)
    ensures
        r.message@ == arity_text(expected as nat, got as nat, line as int),
{
    let mut message = String::from_str("Expected ");
    let first = usize_to_string(expected);
    message.append(first.as_str());
    message.append(" arguments but got ");
    let second = usize_to_string(got);
    message.append(second.as_str());
    message.append(".");
    runtime_error(message.as_str(), line)
}

/// The bindings of the first `n` parameters to their arguments: a later
/// parameter of the same name replaces an earlier one.
pub open spec fn parameters_bound<'a>(params: Seq<Token>, arguments: Seq<Value<'a>>, n: int) -> Map<
    Seq<char>,
    Value<'a>,
>
    decreases n,
{
    if n <= 0 {
        Map::empty()
    } else {
        parameters_bound(params, arguments, n - 1).insert(params[n - 1].lexeme@, arguments[n - 1])
    }
}

/// The scope that a call of `function` with `arguments` runs in: a new
/// one inside the function's closure, with the parameters bound.
pub open spec fn call_scope<'a>(
    scopes: Seq<ScopeView<'a>>,
    function: LoxFunction<'a>,
    arguments: Seq<Value<'a>>,
) -> ScopeView<'a> {
    ScopeView {
        enclosing: if function.closure < scopes.len() {
            Some(function.closure)
        } else {
            None
        },
        values: parameters_bound(
            function.declaration.params@,
            arguments,
            function.declaration.params@.len() as int,
        ),
    }
}

/// The step that enters the body of `function`, called with as many
/// `arguments` as it has parameters: the body runs in the call's scope;
/// a frame marks where the call ends.
pub open spec fn enters<'a>(
    before: Machine<'a>,
    function: LoxFunction<'a>,
    arguments: Seq<Value<'a>>,
    after: Machine<'a>,
    action: Action<'a>,
) -> bool {
    &&& action is Continue
    &&& after.store == (Store {
        environments: before.store.environments.push(
            call_scope(before.store.environments, function, arguments),
        ),
        ..before.store
    })
    &&& after.registers == (Registers {
        mode: Mode::Deliver(Value::Nil),
        environment: before.store.environments.len() as usize,
        frames: before.registers.frames.push(
            Frame::Call { previous: before.registers.environment, function },
        ).push(Frame::Sequence { statements: &function.declaration.body, next: 0 }),
        ..before.registers
    })
}

/// The method bound to `instance`, as the next function value.
pub open spec fn bound_method<'a>(m: Machine<'a>, method: LoxFunction<'a>) -> LoxFunction<'a> {
    LoxFunction {
        id: m.store.functions.len() as usize,
        declaration: method.declaration,
        closure: m.store.environments.len() as usize,
        is_initializer: method.is_initializer,
    }
}

/// The store after `method` has been bound to `instance`: one more
/// function value, whose closure is a new scope that binds `this`.
pub open spec fn store_with_bound<'a>(m: Machine<'a>, method: LoxFunction<'a>, instance: usize) -> Store<
    'a,
> {
    Store {
        functions: m.store.functions.push(bound_method(m, method)),
        environments: m.store.environments.push(
            ScopeView {
                enclosing: if method.closure < m.store.environments.len() {
                    Some(method.closure)
                } else {
                    None
                },
                values: map!["this"@ => Value::Instance(instance)],
            },
        ),
        ..m.store
    }
}

/// The number of arguments that a call of the class `class` takes: as
/// many as its initializer, or none if it has no initializer.
pub open spec fn class_arity(classes: Seq<LoxClass>, class: usize) -> nat {
    match method_of(classes, class as int, "init"@) {
        Some(m) => m.declaration.params@.len(),
        None => 0,
    }
}

/// The step that calls `callee` with `arguments`. `before` is the state
/// with the call's frame and arguments taken off.
pub open spec fn invokes<'a>(
    before: Machine<'a>,
    callee: Callable<'a>,
    arguments: Seq<Value<'a>>,
    paren: &'a Token,
    after: Machine<'a>,
    action: Action<'a>,
) -> bool {
    let line = paren.line as int;
    match callee {
        Callable::DynamicFunction(_) => if arguments.len() != 0 {
            fails(before, after, action, arity_text(0, arguments.len(), line))
        } else {
            settles(before, after, action, Expected::Ask(Request::Clock))
        },
        Callable::Function(f) => if arguments.len() != f.declaration.params@.len() {
            fails(
                before,
                after,
                action,
                arity_text(f.declaration.params@.len(), arguments.len(), line),
            )
        } else {
            enters(before, f, arguments, after, action)
        },
        Callable::Class(class) => if arguments.len() != class_arity(before.store.classes, class) {
            fails(
                before,
                after,
                action,
                arity_text(class_arity(before.store.classes, class), arguments.len(), line),
            )
        } else {
            let instance = before.store.instances.len() as usize;
            &&& after.store.instances.len() == instance + 1
            &&& after.store.instances.take(instance as int) == before.store.instances
            &&& after.store.instances[instance as int].class == class
            &&& after.store.instances[instance as int].fields.as_map() == Map::<
                Seq<char>,
                Value,
            >::empty()
            &&& match method_of(before.store.classes, class as int, "init"@) {
                None => {
                    &&& action is Continue
                    &&& after.registers == (Registers {
                        mode: Mode::Deliver(Value::Instance(instance)),
                        ..before.registers
                    })
                    &&& after.store == (Store { instances: after.store.instances, ..before.store })
                },
                Some(init) => {
                    let bound = Machine {
                        store: Store {
                            instances: after.store.instances,
                            ..store_with_bound(before, init, instance)
                        },
                        registers: Registers {
                            frames: before.registers.frames.push(Frame::Construct(instance)),
                            ..before.registers
                        },
                    };
                    enters(bound, bound_method(before, init), arguments, after, action)
                },
            }
        },
    }
}

impl<'a> Interpreter<'a> {
    /// Enters the body of `function` with `arguments`, of which there
    /// are as many as parameters.
    pub(crate) fn call_function(&mut self, function: LoxFunction<'a>, arguments: Vec<Value<'a>>) -> (action:
        Action<'a>)
        requires
            old(self).wf(),
            arguments@.len() == function.declaration.params@.len(),
        ensures
            final(self).wf(),
            enters(old(self)@, function, arguments@, final(self)@, action),
    {
        let scope = self.environments.with_enclosing(function.closure);
        let ghost empty = self.environments@;
        let params = &function.declaration.params;
        let mut i: usize = 0;
        while i < params.len()
            invariant
                i <= params@.len(),
                params@.len() == arguments@.len(),
                params == &function.declaration.params,
                self.wf(),
                scope == old(self).environments@.len(),
                self.registers() == old(self).registers(),
                self.store() == (Store { environments: self.environments@, ..old(self).store() }),
                self.environments@ == old(self).environments@.push(
                    ScopeView {
                        enclosing: if function.closure < old(self).environments@.len() {
                            Some(function.closure)
                        } else {
                            None
                        },
                        values: parameters_bound(params@, arguments@, i as int),
                    },
                ),
            decreases params@.len() - i,
        {
            self.environments.define(scope, params[i].lexeme.as_str(), arguments[i].clone());
            i = i + 1;
            assert(self.environments@ =~= old(self).environments@.push(
                ScopeView {
                    enclosing: if function.closure < old(self).environments@.len() {
                        Some(function.closure)
                    } else {
                        None
                    },
                    values: parameters_bound(params@, arguments@, i as int),
                },
            ));
        }
        self.frames.push(Frame::Call { previous: self.environment, function });
        self.frames.push(Frame::Sequence { statements: &function.declaration.body, next: 0 });
        self.environment = scope;
        self.deliver(Value::Nil)
    }

    /// Calls `callee` with `arguments`; `paren` gives the line for an
    /// error.
    pub(crate) fn invoke(&mut self, callee: Callable<'a>, arguments: Vec<Value<'a>>, paren: &'a Token) -> (action:
        Action<'a>)
        requires
            old(self).wf(),
        ensures
            final(self).wf(),
            invokes(old(self)@, callee, arguments@, paren, final(self)@, action),
    {
        match callee {
            Callable::DynamicFunction(func) => {
                let arity = func.callable.arity();
                if arguments.len() != arity {
                    return self.fail(arity_error(arity, arguments.len(), paren.line));
                }
                self.settle(Outcome::Ask(Request::Clock), Ghost(Expected::Ask(Request::Clock)))
            },
            Callable::Function(func) => {
                if arguments.len() != func.arity() {
                    return self.fail(arity_error(func.arity(), arguments.len(), paren.line));
                }
                self.call_function(func, arguments)
            },
            Callable::Class(class) => {
                let init = find_method(&self.classes, class, "init");
                let arity = match init {
                    Some(method) => method.arity(),
                    None => 0,
                };
                if arguments.len() != arity {
                    return self.fail(arity_error(arity, arguments.len(), paren.line));
                }
                let instance = self.instances.len();
                self.instances.push(Instance::new(class));
                assert(self.instances@.take(instance as int) =~= old(self).instances@);
                assert(self.instances@[instance as int].fields.as_map() =~= Map::<
                    Seq<char>,
                    Value,
                >::empty());
                match init {
                    Some(method) => {
                        let bound = method.bind(
                            &mut self.environments,
                            &mut self.functions,
                            instance,
                        );
                        self.frames.push(Frame::Construct(instance));
                        self.call_function(bound, arguments)
                    },
                    None => self.deliver(Value::Instance(instance)),
                }
            },
        }
    }
}

} // verus!
