//! Class declarations.

use vstd::prelude::*;
use crate::callable::{Callable, LoxFunction};
use crate::class::LoxClass;
use crate::environment::{ScopeView, undefined_variable, undefined_variable_error};
use crate::interpreter::{
    Action, Interpreter, Machine, Mode, Registers, Store, define_spec, fails, lookup_spec,
};
use crate::names::{NameMap, str_eq};
use crate::operators::{error_text, runtime_error};
use crate::stmt::{ClassStmt, FunctionStmt};
use crate::value::{InterpreterError, Value};

verus! {

/// The function value of the method at position `i` of a class whose
/// methods close over `closure`, when `first` function values existed
/// before.
pub open spec fn method_value<'a>(list: &'a Vec<FunctionStmt>, i: int, closure: usize, first: int) -> LoxFunction<
    'a,
> {
    LoxFunction {
        id: (first + i) as usize,
        declaration: &list@[i],
        closure,
        is_initializer: list@[i].name.lexeme@ == "init"@,
    }
}

/// The methods of a class by name, from its first `n` declarations: a
/// later declaration of a name replaces an earlier one.
pub open spec fn methods_of<'a>(list: &'a Vec<FunctionStmt>, n: int, closure: usize, first: int) -> Map<
    Seq<char>,
    LoxFunction<'a>,
>
    decreases n,
{
    if n <= 0 {
        Map::empty()
    } else {
        methods_of(list, n - 1, closure, first).insert(
            list@[n - 1].name.lexeme@,
            method_value(list, n - 1, closure, first),
        )
    }
}

/// The function values of the first `n` methods of a class.
pub open spec fn method_values<'a>(list: &'a Vec<FunctionStmt>, n: int, closure: usize, first: int) -> Seq<
    LoxFunction<'a>,
> {
    Seq::new(n as nat, |i: int| method_value(list, i, closure, first))
}

/// The superclass that a class declaration names: none, the class with
/// an index, or an error.
pub enum Parent {
    Absent,
    Class(usize),
    Error(Seq<char>),
}

/// The superclass of `c` in the state `m`: its name must be a variable
/// whose value is a class.
pub open spec fn parent_of<'a>(m: Machine<'a>, c: &'a ClassStmt) -> Parent {
    match &c.superclass {
        None => Parent::Absent,
        Some(v) => match lookup_spec(m, v.name.lexeme@, v.id) {
            None => Parent::Error(undefined_variable(v.name)),
            Some(Value::Callable(Callable::Class(id))) => if id < m.store.classes.len() {
                Parent::Class(id)
            } else {
                Parent::Error(error_text("Superclass must be a class."@, v.name.line as int))
            },
            Some(_) => Parent::Error(
                error_text("Superclass must be a class."@, v.name.line as int),
            ),
        },
    }
}

/// The step that declares the class `c`. Its name is bound first, to
/// `nil`; then the superclass is looked up; the methods close over the
/// current scope, or over a new scope inside it that binds `super`;
/// last the name is bound to the class.
pub open spec fn declares<'a>(
    before: Machine<'a>,
    c: &'a ClassStmt,
    after: Machine<'a>,
    action: Action<'a>,
) -> bool {
    let env = before.registers.environment;
    let named = Machine {
        store: Store {
            environments: define_spec(before.store.environments, env, c.name.lexeme@, Value::Nil),
            ..before.store
        },
        ..before
    };
    let class = before.store.classes.len() as usize;
    let first = before.store.functions.len() as int;
    let count = c.methods@.len() as int;
    if env >= before.store.environments.len() {
        fails(before, after, action, undefined_variable(c.name))
    } else {
        match parent_of(named, c) {
            Parent::Error(message) => fails(named, after, action, message),
            parent => {
                let closure = if parent is Class {
                    named.store.environments.len() as usize
                } else {
                    env
                };
                let scoped = if parent is Class {
                    named.store.environments.push(
                        ScopeView {
                            enclosing: Some(env),
                            values: map![
                                "super"@ => Value::Callable(Callable::Class(parent->Class_0))
                            ],
                        },
                    )
                } else {
                    named.store.environments
                };
                &&& action is Continue
                &&& after.registers == (Registers {
                    mode: Mode::Deliver(Value::Nil),
                    ..before.registers
                })
                &&& after.store.globals == before.store.globals
                &&& after.store.base == before.store.base
                &&& after.store.locals == before.store.locals
                &&& after.store.instances == before.store.instances
                &&& after.store.functions == before.store.functions + method_values(
                    &c.methods,
                    count,
                    closure,
                    first,
                )
                &&& after.store.environments == define_spec(
                    scoped,
                    env,
                    c.name.lexeme@,
                    Value::Callable(Callable::Class(class)),
                )
                &&& after.store.classes.len() == class + 1
                &&& after.store.classes.take(class as int) == before.store.classes
                &&& after.store.classes[class as int].name@ == c.name.lexeme@
                &&& after.store.classes[class as int].superclass == (if parent is Class {
                    Some(parent->Class_0)
                } else {
                    None
                })
                &&& after.store.classes[class as int].methods.as_map() == methods_of(
                    &c.methods,
                    count,
                    closure,
                    first,
                )
            },
        }
    }
}

impl<'a> Interpreter<'a> {
    /// The index of the superclass that `stmt` names, if it names one.
    fn superclass(&self, stmt: &'a ClassStmt) -> (r: Result<Option<usize>, InterpreterError>)
        requires
            self.wf(),
        ensures
            match parent_of(self@, stmt) {
                Parent::Absent => r == Ok::<Option<usize>, InterpreterError>(None),
                Parent::Class(id) => r == Ok::<Option<usize>, InterpreterError>(
                    Some(id),
                ) && id < self.classes@.len(),
                Parent::Error(message) => r is Err && r->Err_0.message@ == message,
            },
    {
        match &stmt.superclass {
            None => Ok(None),
            Some(variable) => match self.lookup_variable(&variable.name, variable.id) {
                Err(e) => Err(e),
                Ok(Value::Callable(Callable::Class(id))) => {
                    if id < self.classes.len() {
                        Ok(Some(id))
                    } else {
                        Err(runtime_error("Superclass must be a class.", variable.name.line))
                    }
                },
                Ok(_) => Err(runtime_error("Superclass must be a class.", variable.name.line)),
            },
        }
    }

    /// Makes the function values of the methods of a class, which close
    /// over `closure`.
    fn make_methods(&mut self, list: &'a Vec<FunctionStmt>, closure: usize) -> (r: NameMap<
        'a,
        LoxFunction<'a>,
    >)
        requires
            old(self).wf(),
        ensures
            final(self).wf(),
            r.wf(),
            r.as_map() == methods_of(
                list,
                list@.len() as int,
                closure,
                old(self).functions@.len() as int,
            ),
            final(self).registers() == old(self).registers(),
            final(self).store() == (Store {
                functions: old(self).functions@ + method_values(
                    list,
                    list@.len() as int,
                    closure,
                    old(self).functions@.len() as int,
                ),
                ..old(self).store()
            }),
    {
        let mut methods: NameMap<'a, LoxFunction<'a>> = NameMap::new();
        let ghost first = self.functions@.len() as int;
        let mut i: usize = 0;
        assert(self.functions@ =~= old(self).functions@ + method_values(list, 0, closure, first));
        while i < list.len()
            invariant
                i <= list@.len(),
                self.wf(),
                methods.wf(),
                first == old(self).functions@.len(),
                methods.as_map() == methods_of(list, i as int, closure, first),
                self.registers() == old(self).registers(),
                self.store() == (Store {
                    functions: old(self).functions@ + method_values(list, i as int, closure, first),
                    ..old(self).store()
                }),
            decreases list@.len() - i,
        {
            let method = &list[i];
            let is_initializer = str_eq(method.name.lexeme.as_str(), "init");
            let function = self.make_function(method, closure, is_initializer);
            methods.insert(method.name.lexeme.as_str(), function);
            assert(self.functions@ =~= old(self).functions@ + method_values(
                list,
                i + 1,
                closure,
                first,
            ));
            i = i + 1;
        }
        methods
    }

    /// Declares a class.
    pub(crate) fn declare_class(&mut self, stmt: &'a ClassStmt) -> (action: Action<'a>)
        requires
            old(self).wf(),
        ensures
            final(self).wf(),
            declares(old(self)@, stmt, final(self)@, action),
    {
        if self.environment >= self.environments.scopes.len() {
            return self.fail(undefined_variable_error(&stmt.name));
        }
        self.environments.define(self.environment, stmt.name.lexeme.as_str(), Value::Nil);
        let superclass = match self.superclass(stmt) {
            Ok(s) => s,
            Err(e) => {
                return self.fail(e);
            },
        };
        let ghost named = self.environments@;
        let closure = match superclass {
            Some(id) => {
                let scope = self.environments.with_enclosing(self.environment);
                self.environments.define(scope, "super", Value::Callable(Callable::Class(id)));
                assert(Map::<Seq<char>, Value>::empty().insert(
                    "super"@,
                    Value::Callable(Callable::Class(id)),
                ) =~= map!["super"@ => Value::Callable(Callable::Class(id))]);
                assert(self.environments@ =~= named.push(
                    ScopeView {
                        enclosing: Some(self.environment),
                        values: map!["super"@ => Value::Callable(Callable::Class(id))],
                    },
                ));
                scope
            },
            None => self.environment,
        };
        assert(self.environments@[self.environment as int].values.contains_key(
            stmt.name.lexeme@,
        ));
        let methods = self.make_methods(&stmt.methods, closure);
        let class = self.classes.len();
        self.classes.push(LoxClass::new(stmt.name.lexeme.as_str(), superclass, methods));
        assert(self.classes@.take(class as int) =~= old(self).classes@);
        match self.environments.assign(
            self.environment,
            &stmt.name,
            Value::Callable(Callable::Class(class)),
        ) {
            Ok(_) => self.deliver(Value::Nil),
            Err(e) => self.fail(e),
        }
    }
}

} // verus!
