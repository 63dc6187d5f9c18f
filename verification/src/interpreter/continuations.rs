//! Going on with a value: what each frame does with the value that it
//! has been waiting for.

use vstd::prelude::*;
use vstd::string::StringExecFns;
use crate::callable::Callable;
use crate::class::{
    Property, field_set, get_instance_field, instance_text, property_of, set_field,
    undefined_property,
};
use crate::environment::{ancestor, bind, binding_scope, get_at_spec, undefined_variable};
use crate::expression::Assign;
use crate::interpreter::calls::invokes;
use crate::interpreter::expressions::binds;
use crate::interpreter::{
    Action, Frame, Interpreter, Machine, Mode, Printable, Registers, Store, begins, define_spec,
    fails, goes, settles,
};
use crate::callable::LoxFunction;
use crate::operators::{
    binary, binary_spec, decides, error_text, runtime_error, short_circuits, unary, unary_spec,
};
use crate::value::{InterpreterError, Value, truthy};

verus! {

/// What a value prints as: a text, or a number in the host's format.
pub enum Shown {
    Text(Seq<char>),
    Number(u64),
}

/// The text form of a value. A class prints as its name, an instance as
/// the name of its class followed by `instance`.
pub open spec fn shown(store: Store, value: Value) -> Shown {
    match value {
        Value::Nil => Shown::Text("nil"@),
        Value::Bool(b) => Shown::Text(
            if b {
                "true"@
            } else {
                "false"@
            },
        ),
        Value::Number(n) => Shown::Number(n),
        Value::String(s) => Shown::Text(s@),
        Value::Callable(Callable::DynamicFunction(_)) => Shown::Text("<native fn>"@),
        Value::Callable(Callable::Function(f)) => Shown::Text(
            "<fn "@ + f.declaration.name.lexeme@ + ">"@,
        ),
        Value::Callable(Callable::Class(c)) => Shown::Text(
            if c < store.classes.len() {
                store.classes[c as int].name@
            } else {
                "class"@
            },
        ),
        Value::Instance(i) => Shown::Text(
            if i < store.instances.len() {
                instance_text(store.classes, store.instances[i as int].class as int)
            } else {
                "instance"@
            },
        ),
    }
}

/// Whether `printable` is what `shown` says.
pub open spec fn shows(printable: Printable, shown: Shown) -> bool {
    match shown {
        Shown::Text(t) => printable matches Printable::Text(s) && s@ == t,
        Shown::Number(n) => printable == Printable::Number(n),
    }
}

/// The scope in which an assignment to `name` by the expression `id`
/// takes effect: the one at the recorded depth if the expression is
/// resolved and that scope binds the name; the global one if it is not
/// resolved and the global scope binds the name.
pub open spec fn assignment_scope(m: Machine, name: Seq<char>, id: usize) -> Option<int> {
    if m.store.locals.contains_key(id) {
        match ancestor(
            m.store.environments,
            m.registers.environment as int,
            m.store.locals[id] as nat,
        ) {
            Some(s) => if m.store.environments[s].values.contains_key(name) {
                Some(s)
            } else {
                None
            },
            None => None,
        }
    } else {
        binding_scope(m.store.environments, m.store.globals as int, name)
    }
}

/// The step that ends a call of `function` with `value`: the scope
/// `previous` is current again. An initializer that returns nothing
/// gives the instance it was called on.
pub open spec fn comes_back<'a>(
    before: Machine<'a>,
    previous: usize,
    function: LoxFunction<'a>,
    value: Value<'a>,
    after: Machine<'a>,
    action: Action<'a>,
) -> bool {
    let back = Registers { environment: previous, ..before.registers };
    if !(value is Nil) {
        goes(before, after, action, Registers { mode: Mode::Deliver(value), ..back })
    } else if !function.is_initializer {
        goes(before, after, action, Registers { mode: Mode::Deliver(Value::Nil), ..back })
    } else {
        match get_at_spec(before.store.environments, function.closure as int, "this"@, 0) {
            Some(Value::Instance(i)) => goes(
                before,
                after,
                action,
                Registers { mode: Mode::Deliver(Value::Instance(i)), ..back },
            ),
            _ => fails(
                before,
                after,
                action,
                "Initializer function called without 'this' instance."@,
            ),
        }
    }
}

/// The step in which `frame` receives `value`. `before` is the state
/// with the frame taken off.
pub open spec fn continues<'a>(
    before: Machine<'a>,
    frame: Frame<'a>,
    value: Value<'a>,
    after: Machine<'a>,
    action: Action<'a>,
) -> bool {
    let r = before.registers;
    let done = Registers { mode: Mode::Deliver(Value::Nil), ..r };
    match frame {
        Frame::Discard => goes(before, after, action, done),
        Frame::Print => {
            &&& action matches Action::Print(p)
            &&& shows(p, shown(before.store, value))
            &&& after.store == before.store
            &&& after.registers == done
        },
        Frame::Define(name) => {
            &&& action is Continue
            &&& after.registers == done
            &&& after.store == (Store {
                environments: define_spec(
                    before.store.environments,
                    r.environment,
                    name.lexeme@,
                    value,
                ),
                ..before.store
            })
        },
        Frame::Return => goes(before, after, action, Registers { mode: Mode::Unwind(value), ..r }),
        Frame::Branch(i) => if truthy(value) {
            goes(before, after, action, Registers { mode: Mode::Exec(&*i.then_branch), ..r })
        } else {
            match &i.else_branch {
                Some(e) => goes(before, after, action, Registers { mode: Mode::Exec(&**e), ..r }),
                None => goes(before, after, action, done),
            }
        },
        Frame::LoopTest(w) => if truthy(value) {
            goes(
                before,
                after,
                action,
                Registers {
                    mode: Mode::Exec(&*w.body),
                    frames: r.frames.push(Frame::LoopBody(w)),
                    ..r
                },
            )
        } else {
            goes(before, after, action, done)
        },
        Frame::LoopBody(w) => begins(before, after, action, Frame::LoopTest(w), &*w.condition),
        Frame::Sequence { statements, next } => if next < statements@.len() {
            goes(
                before,
                after,
                action,
                Registers {
                    mode: Mode::Exec(&statements@[next as int]),
                    frames: r.frames.push(
                        Frame::Sequence { statements, next: (next + 1) as usize },
                    ),
                    ..r
                },
            )
        } else {
            goes(before, after, action, done)
        },
        Frame::Restore(environment) => goes(
            before,
            after,
            action,
            Registers { mode: Mode::Deliver(value), environment, ..r },
        ),
        Frame::Call { previous, function } => comes_back(
            before,
            previous,
            function,
            Value::Nil,
            after,
            action,
        ),
        Frame::Unary(u) => settles(before, after, action, unary_spec(u.operator, value)),
        Frame::BinaryLeft(b) => goes(
            before,
            after,
            action,
            Registers {
                mode: Mode::Eval(&*b.right),
                frames: r.frames.push(Frame::BinaryRight(b)),
                operands: r.operands.push(value),
                ..r
            },
        ),
        Frame::BinaryRight(b) => if r.operands.len() == 0 {
            fails(before, after, action, "Missing operand."@)
        } else {
            settles(
                Machine { registers: Registers { operands: r.operands.drop_last(), ..r }, ..before },
                after,
                action,
                binary_spec(b.operator, r.operands.last(), value),
            )
        },
        Frame::Logical(l) => if short_circuits(l.operator, value) {
            goes(before, after, action, Registers { mode: Mode::Deliver(value), ..r })
        } else {
            goes(before, after, action, Registers { mode: Mode::Eval(&*l.right), ..r })
        },
        Frame::Assign(a) => match assignment_scope(before, a.name.lexeme@, a.id) {
            Some(s) => {
                &&& action is Continue
                &&& after.registers == (Registers { mode: Mode::Deliver(value), ..r })
                &&& after.store == (Store {
                    environments: bind(before.store.environments, s, a.name.lexeme@, value),
                    ..before.store
                })
            },
            None => fails(before, after, action, undefined_variable(a.name)),
        },
        Frame::Callee(c) => match value {
            Value::Callable(callee) => if c.arguments@.len() == 0 {
                invokes(before, callee, Seq::empty(), &c.paren, after, action)
            } else {
                goes(
                    before,
                    after,
                    action,
                    Registers {
                        mode: Mode::Eval(&c.arguments@[0]),
                        frames: r.frames.push(
                            Frame::Arguments { call: c, callee, base: r.operands.len() as usize },
                        ),
                        ..r
                    },
                )
            },
            _ => fails(
                before,
                after,
                action,
                error_text("Can only call functions and classes."@, c.paren.line as int),
            ),
        },
        Frame::Arguments { call, callee, base } => {
            let operands = r.operands.push(value);
            let count = operands.len() - base;
            if base > r.operands.len() {
                fails(before, after, action, "Missing operand."@)
            } else if count < call.arguments@.len() {
                goes(
                    before,
                    after,
                    action,
                    Registers {
                        mode: Mode::Eval(&call.arguments@[count]),
                        frames: r.frames.push(frame),
                        operands,
                        ..r
                    },
                )
            } else {
                invokes(
                    Machine {
                        registers: Registers { operands: operands.subrange(0, base as int), ..r },
                        ..before
                    },
                    callee,
                    operands.subrange(base as int, operands.len() as int),
                    &call.paren,
                    after,
                    action,
                )
            }
        },
        Frame::GetObject(g) => match value {
            Value::Instance(i) => match property_of(
                before.store.instances,
                before.store.classes,
                i as int,
                g.name.lexeme@,
            ) {
                Property::Field(v) => goes(
                    before,
                    after,
                    action,
                    Registers { mode: Mode::Deliver(v), ..r },
                ),
                Property::Method(m) => binds(before, m, i, after, action),
                Property::Missing => fails(before, after, action, undefined_property(g.name)),
            },
            _ => fails(
                before,
                after,
                action,
                error_text("Only instances have properties."@, g.name.line as int),
            ),
        },
        Frame::SetObject(s) => match value {
            Value::Instance(i) => begins(
                before,
                after,
                action,
                Frame::SetValue { set: s, instance: i },
                &*s.value,
            ),
            _ => fails(
                before,
                after,
                action,
                error_text("Only instances have fields."@, s.name.line as int),
            ),
        },
        Frame::SetValue { set, instance } => if instance < before.store.instances.len() {
            &&& action is Continue
            &&& after.registers == (Registers { mode: Mode::Deliver(value), ..r })
            &&& after.store == (Store { instances: after.store.instances, ..before.store })
            &&& field_set(
                before.store.instances,
                after.store.instances,
                instance as int,
                set.name.lexeme@,
                value,
            )
        } else {
            fails(
                before,
                after,
                action,
                error_text("Only instances have fields."@, set.name.line as int),
            )
        },
        Frame::Construct(instance) => goes(
            before,
            after,
            action,
            Registers { mode: Mode::Deliver(Value::Instance(instance)), ..r },
        ),
    }
}

impl<'a> Interpreter<'a> {
    /// The text form of a value.
    pub fn describe(&self, value: &Value<'a>) -> (r: Printable)
        ensures
            shows(r, shown(self.store(), *value)),
    {
        match value {
            Value::Nil => Printable::Text(String::from_str("nil")),
            Value::Bool(b) => Printable::Text(
                String::from_str(
                    if *b {
                        "true"
                    } else {
                        "false"
                    },
                ),
            ),
            Value::Number(n) => Printable::Number(*n),
            Value::String(s) => Printable::Text(s.clone()),
            Value::Callable(Callable::DynamicFunction(f)) => Printable::Text(f.callable.to_string()),
            Value::Callable(Callable::Function(f)) => Printable::Text(f.to_string()),
            Value::Callable(Callable::Class(c)) => Printable::Text(
                if *c < self.classes.len() {
                    self.classes[*c].to_string()
                } else {
                    String::from_str("class")
                },
            ),
            Value::Instance(i) => Printable::Text(
                if *i < self.instances.len() {
                    self.instances[*i].to_string(&self.classes)
                } else {
                    String::from_str("instance")
                },
            ),
        }
    }

    /// Ends a call of `function` with `value`.
    pub(crate) fn finish_call(&mut self, previous: usize, function: LoxFunction<'a>, value: Value<'a>) -> (action:
        Action<'a>)
        requires
            old(self).wf(),
        ensures
            final(self).wf(),
            comes_back(old(self)@, previous, function, value, final(self)@, action),
    {
        if !value.is_nil() {
            self.environment = previous;
            return self.deliver(value);
        }
        if !function.is_initializer {
            self.environment = previous;
            return self.deliver(Value::Nil);
        }
        match self.environments.get_at(function.closure, "this", 0) {
            Some(Value::Instance(instance)) => {
                self.environment = previous;
                self.deliver(Value::Instance(instance))
            },
            _ => self.fail(
                InterpreterError {
                    message: String::from_str(
                        "Initializer function called without 'this' instance.",
                    ),
                },
            ),
        }
    }

    /// Assigns `value` to the variable of `assign`.
    fn store_variable(&mut self, assign: &'a Assign, value: Value<'a>) -> (action: Action<'a>)
        requires
            old(self).wf(),
        ensures
            final(self).wf(),
            continues(old(self)@, Frame::Assign(assign), value, final(self)@, action),
    {
        let kept = value.clone();
        let result = match self.locals.get(&assign.id) {
            Some(depth) => {
                let depth = *depth;
                self.environments.assign_at(self.environment, &assign.name, value, depth)
            },
            None => self.environments.assign(self.globals, &assign.name, value),
        };
        match result {
            Ok(_) => self.deliver(kept),
            Err(e) => self.fail(e),
        }
    }

    /// Hands `value` to `frame`, which has been taken off the frames.
    pub(crate) fn continue_with(&mut self, frame: Frame<'a>, value: Value<'a>) -> (action: Action<
        'a,
    >)
        requires
            old(self).wf(),
        ensures
            final(self).wf(),
            continues(old(self)@, frame, value, final(self)@, action),
    {
        match frame {
            Frame::Discard => self.deliver(Value::Nil),
            Frame::Print => {
                let printable = self.describe(&value);
                self.mode = Mode::Deliver(Value::Nil);
                Action::Print(printable)
            },
            Frame::Define(name) => {
                self.environments.define(self.environment, name.lexeme.as_str(), value);
                self.deliver(Value::Nil)
            },
            Frame::Return => {
                self.mode = Mode::Unwind(value);
                Action::Continue
            },
            Frame::Branch(if_stmt) => {
                if value.is_true() {
                    self.mode = Mode::Exec(&if_stmt.then_branch);
                    Action::Continue
                } else if let Some(else_branch) = &if_stmt.else_branch {
                    self.mode = Mode::Exec(else_branch);
                    Action::Continue
                } else {
                    self.deliver(Value::Nil)
                }
            },
            Frame::LoopTest(while_stmt) => {
                if value.is_true() {
                    self.frames.push(Frame::LoopBody(while_stmt));
                    self.mode = Mode::Exec(&while_stmt.body);
                    Action::Continue
                } else {
                    self.deliver(Value::Nil)
                }
            },
            Frame::LoopBody(while_stmt) => self.evaluate_then(
                &while_stmt.condition,
                Frame::LoopTest(while_stmt),
            ),
            Frame::Sequence { statements, next } => {
                if next < statements.len() {
                    self.frames.push(Frame::Sequence { statements, next: next + 1 });
                    self.mode = Mode::Exec(&statements[next]);
                    Action::Continue
                } else {
                    self.deliver(Value::Nil)
                }
            },
            Frame::Restore(environment) => {
                self.environment = environment;
                self.deliver(value)
            },
            Frame::Call { previous, function } => self.finish_call(previous, function, Value::Nil),
            Frame::Unary(node) => {
                let ghost expected = unary_spec(node.operator, value);
                self.settle(unary(&node.operator, value), Ghost(expected))
            },
            Frame::BinaryLeft(node) => {
                self.operands.push(value);
                self.frames.push(Frame::BinaryRight(node));
                self.mode = Mode::Eval(&node.right);
                Action::Continue
            },
            Frame::BinaryRight(node) => match self.operands.pop() {
                Some(left) => {
                    let ghost expected = binary_spec(node.operator, left, value);
                    self.settle(binary(&node.operator, left, value), Ghost(expected))
                },
                None => self.fail(
                    InterpreterError { message: String::from_str("Missing operand.") },
                ),
            },
            Frame::Logical(node) => {
                if decides(&node.operator, &value) {
                    self.deliver(value)
                } else {
                    self.mode = Mode::Eval(&node.right);
                    Action::Continue
                }
            },
            Frame::Assign(assign) => self.store_variable(assign, value),
            Frame::Callee(call) => match value {
                Value::Callable(callee) => {
                    if call.arguments.len() == 0 {
                        let none: Vec<Value<'a>> = Vec::new();
                        assert(none@ =~= Seq::empty());
                        self.invoke(callee, none, &call.paren)
                    } else {
                        self.frames.push(
                            Frame::Arguments { call, callee, base: self.operands.len() },
                        );
                        self.mode = Mode::Eval(&call.arguments[0]);
                        Action::Continue
                    }
                },
                _ => self.fail(
                    runtime_error("Can only call functions and classes.", call.paren.line),
                ),
            },
            Frame::Arguments { call, callee, base } => {
                if base > self.operands.len() {
                    return self.fail(
                        InterpreterError { message: String::from_str("Missing operand.") },
                    );
                }
                self.operands.push(value);
                let count = self.operands.len() - base;
                if count < call.arguments.len() {
                    self.frames.push(frame);
                    self.mode = Mode::Eval(&call.arguments[count]);
                    Action::Continue
                } else {
                    let arguments = self.operands.split_off(base);
                    self.invoke(callee, arguments, &call.paren)
                }
            },
            Frame::GetObject(get) => match value {
                Value::Instance(instance) => {
                    match get_instance_field(
                        &self.instances,
                        &self.classes,
                        &mut self.environments,
                        &mut self.functions,
                        instance,
                        &get.name,
                    ) {
                        Ok(v) => self.deliver(v),
                        Err(e) => self.fail(e),
                    }
                },
                _ => self.fail(runtime_error("Only instances have properties.", get.name.line)),
            },
            Frame::SetObject(set) => match value {
                Value::Instance(instance) => self.evaluate_then(
                    &set.value,
                    Frame::SetValue { set, instance },
                ),
                _ => self.fail(runtime_error("Only instances have fields.", set.name.line)),
            },
            Frame::SetValue { set, instance } => {
                if instance < self.instances.len() {
                    set_field(
                        &mut self.instances,
                        instance,
                        set.name.lexeme.as_str(),
                        value.clone(),
                    );
                    self.deliver(value)
                } else {
                    self.fail(runtime_error("Only instances have fields.", set.name.line))
                }
            },
            Frame::Construct(instance) => self.deliver(Value::Instance(instance)),
        }
    }
}

} // verus!
