//! Classes and instances. Both live in lists and are addressed by
//! index; a class names its superclass by index, an instance its class.

use vstd::prelude::*;
use vstd::string::StringExecFns;
use crate::callable::{Callable, LoxFunction};
use crate::environment::{Environment, ScopeView, bind};
use crate::names::NameMap;
use crate::text::{i32_to_string, int_text};
use crate::tokens::Token;
use crate::value::{InterpreterError, Value};

verus! {

#[derive(Debug)]
pub struct LoxClass<'a> {
    pub name: &'a str,
    pub superclass: Option<usize>,
    pub methods: NameMap<'a, LoxFunction<'a>>,
}

#[derive(Debug)]
pub struct Instance<'a> {
    pub class: usize,
    pub fields: NameMap<'a, Value<'a>>,
}

/// The method `name` of the class with index `class`: its own, or else
/// that of the nearest superclass that has one. A superclass always has
/// a smaller index than its subclasses.
pub open spec fn method_of<'a>(classes: Seq<LoxClass<'a>>, class: int, name: Seq<char>) -> Option<
    LoxFunction<'a>,
>
    decreases class,
{
    if !(0 <= class < classes.len()) {
        None
    } else if classes[class].methods.has(name) {
        Some(classes[class].methods.value_of(name))
    } else {
        match classes[class].superclass {
            Some(s) => if s < class {
                method_of(classes, s as int, name)
            } else {
                None
            },
            None => None,
        }
    }
}

/// Whether every class keeps its methods in a well-formed map.
pub open spec fn classes_wf(classes: Seq<LoxClass>) -> bool {
    forall|i: int| 0 <= i < classes.len() ==> (#[trigger] classes[i]).methods.wf()
}

/// Whether every instance keeps its fields in a well-formed map.
pub open spec fn instances_wf(instances: Seq<Instance>) -> bool {
    forall|i: int| 0 <= i < instances.len() ==> (#[trigger] instances[i]).fields.wf()
}

/// The method `name` of the class with index `class`.
pub fn find_method<'a>(classes: &Vec<LoxClass<'a>>, class: usize, name: &str) -> (r: Option<
    LoxFunction<'a>,
>)
    requires
        classes_wf(classes@),
    ensures
        r == method_of(classes@, class as int, name@),
{
    let mut current = class;
    loop
        invariant
            classes_wf(classes@),
            method_of(classes@, current as int, name@) == method_of(classes@, class as int, name@),
        decreases current,
    {
        if current >= classes.len() {
            return None;
        }
        match classes[current].methods.get(name) {
            Some(f) => {
                return Some(*f);
            },
            None => {},
        }
        match classes[current].superclass {
            Some(s) => {
                if s < current {
                    current = s;
                } else {
                    return None;
                }
            },
            None => {
                return None;
            },
        }
    }
}

impl<'a> LoxClass<'a> {
    pub fn new(name: &'a str, superclass: Option<usize>, methods: NameMap<'a, LoxFunction<'a>>) -> (r:
        Self)
        ensures
            r == (LoxClass { name, superclass, methods }),
    {
        Self { name, superclass, methods }
    }

    /// The method `name` of this class: its own, or else that of the
    /// nearest superclass among `classes` that has one.
    pub open spec fn find_method_spec(&self, classes: Seq<LoxClass<'a>>, name: Seq<char>) -> Option<
        LoxFunction<'a>,
    > {
        if self.methods.has(name) {
            Some(self.methods.value_of(name))
        } else {
            match self.superclass {
                Some(s) => method_of(classes, s as int, name),
                None => None,
            }
        }
    }

    pub fn find_method(&self, classes: &Vec<LoxClass<'a>>, name: &str) -> (r: Option<
        LoxFunction<'a>,
    >)
        requires
            self.methods.wf(),
            classes_wf(classes@),
        ensures
            r == self.find_method_spec(classes@, name@),
    {
        match self.methods.get(name) {
            Some(f) => Some(*f),
            None => match self.superclass {
                Some(s) => find_method(classes, s, name),
                None => None,
            },
        }
    }

    pub fn to_string(&self) -> (r: String)
        ensures
            r@ == self.name@,
    {
        String::from_str(self.name)
    }
}

/// The text form of an instance of the class with index `class`.
pub open spec fn instance_text(classes: Seq<LoxClass>, class: int) -> Seq<char> {
    if 0 <= class < classes.len() {
        classes[class].name@ + " instance"@
    } else {
        "instance"@
    }
}

impl<'a> Instance<'a> {
    pub fn new(class: usize) -> (r: Self)
        ensures
            r.class == class,
            r.fields.wf(),
            forall|name: Seq<char>| !r.fields.has(name),
    {
        Self { class, fields: NameMap::new() }
    }

    /// Gives the field `name` the value `value`.
    pub fn set(&mut self, name: &'a str, value: Value<'a>)
        requires
            old(self).fields.wf(),
        ensures
            final(self).fields.wf(),
            final(self).class == old(self).class,
            final(self).fields.as_map() == old(self).fields.as_map().insert(name@, value),
    {
        self.fields.insert(name, value);
    }

    pub fn to_string(&self, classes: &Vec<LoxClass<'a>>) -> (r: String)
        ensures
            r@ == instance_text(classes@, self.class as int),
    {
        if self.class < classes.len() {
            let mut text = classes[self.class].to_string();
            text.append(" instance");
            text
        } else {
            String::from_str("instance")
        }
    }
}

impl<'a> LoxFunction<'a> {
    /// The method bound to an instance: a new function value whose
    /// closure is a new scope inside this function's closure, with
    /// `this` bound to the instance.
    pub fn bind(
        &self,
        environments: &mut Environment<'a>,
        functions: &mut Vec<LoxFunction<'a>>,
        instance: usize,
    ) -> (r: LoxFunction<'a>)
        requires
            old(environments).wf(),
        ensures
            final(environments).wf(),
            r == (LoxFunction {
                id: old(functions)@.len() as usize,
                declaration: self.declaration,
                closure: old(environments)@.len() as usize,
                is_initializer: self.is_initializer,
            }),
            final(functions)@ == old(functions)@.push(r),
            final(environments)@ == old(environments)@.push(
                ScopeView {
                    enclosing: if self.closure < old(environments)@.len() {
                        Some(self.closure)
                    } else {
                        None
                    },
                    values: map!["this"@ => Value::Instance(instance)],
                },
            ),
    {
        let scope = environments.with_enclosing(self.closure);
        environments.define(scope, "this", Value::Instance(instance));
        let bound = LoxFunction {
            id: functions.len(),
            declaration: self.declaration,
            closure: scope,
            is_initializer: self.is_initializer,
        };
        functions.push(bound);
        assert(final(environments)@ =~= old(environments)@.push(
            ScopeView {
                enclosing: if self.closure < old(environments)@.len() {
                    Some(self.closure)
                } else {
                    None
                },
                values: map!["this"@ => Value::Instance(instance)],
            },
        )) by {
            assert(Map::<Seq<char>, Value>::empty().insert("this"@, Value::Instance(instance))
                =~= map!["this"@ => Value::Instance(instance)]);
        }
        bound
    }
}

/// The instances with the field `name` of the instance with index
/// `instance` set to `value`.
pub open spec fn field_set<'a>(
    before: Seq<Instance<'a>>,
    after: Seq<Instance<'a>>,
    instance: int,
    name: Seq<char>,
    value: Value<'a>,
) -> bool {
    &&& after.len() == before.len()
    &&& forall|i: int| 0 <= i < before.len() && i != instance ==> after[i] == before[i]
    &&& after[instance].class == before[instance].class
    &&& after[instance].fields.as_map() == before[instance].fields.as_map().insert(name, value)
}

/// Gives the field `name` of the instance with index `instance` the
/// value `value`.
pub fn set_field<'a>(
    instances: &mut Vec<Instance<'a>>,
    instance: usize,
    name: &'a str,
    value: Value<'a>,
)
    requires
        instances_wf(old(instances)@),
        instance < old(instances)@.len(),
    ensures
        instances_wf(final(instances)@),
        field_set(old(instances)@, final(instances)@, instance as int, name@, value),
{
    let mut fields = NameMap::new();
    std::mem::swap(&mut instances[instance].fields, &mut fields);
    fields.insert(name, value);
    std::mem::swap(&mut instances[instance].fields, &mut fields);
}

/// The text of the error for a property that an instance does not have.
pub open spec fn undefined_property(name: Token) -> Seq<char> {
    "Undefined property '"@ + name.lexeme@ + "'.\n[line "@ + int_text(name.line as int) + "]"@
}

/// Builds the error for a property that an instance does not have.
pub fn undefined_property_error(name: &Token) -> (r: InterpreterError)
    ensures
        r.message@ == undefined_property(*name),
{
    let mut message = String::from_str("Undefined property '");
    message.append(name.lexeme.as_str());
    message.append("'.\n[line ");
    let line = i32_to_string(name.line);
    message.append(line.as_str());
    message.append("]");
    InterpreterError { message }
}

/// What the property `name` of an instance is: a field, or else a
/// method of its class, or nothing.
pub enum Property<'a> {
    Field(Value<'a>),
    Method(LoxFunction<'a>),
    Missing,
}

/// The property `name` of the instance with index `instance`: fields
/// come before methods. What is no instance has no property.
pub open spec fn property_of<'a>(
    instances: Seq<Instance<'a>>,
    classes: Seq<LoxClass<'a>>,
    instance: int,
    name: Seq<char>,
) -> Property<'a> {
    if !(0 <= instance < instances.len()) {
        Property::Missing
    } else if instances[instance].fields.has(name) {
        Property::Field(instances[instance].fields.value_of(name))
    } else {
        match method_of(classes, instances[instance].class as int, name) {
            Some(f) => Property::Method(f),
            None => Property::Missing,
        }
    }
}

/// Reads the property `name` of an instance: the value of a field, or a
/// method of the class bound to the instance (a new function value each
/// time), or an error.
pub fn get_instance_field<'a>(
    instances: &Vec<Instance<'a>>,
    classes: &Vec<LoxClass<'a>>,
    environments: &mut Environment<'a>,
    functions: &mut Vec<LoxFunction<'a>>,
    instance: usize,
    name: &Token,
) -> (r: Result<Value<'a>, InterpreterError>)
    requires
        instances_wf(instances@),
        classes_wf(classes@),
        old(environments).wf(),
    ensures
        final(environments).wf(),
        match property_of(instances@, classes@, instance as int, name.lexeme@) {
            Property::Field(v) => r == Ok::<Value, InterpreterError>(v) && final(environments)@
                == old(environments)@ && final(functions)@ == old(functions)@,
            Property::Method(f) => {
                let bound = LoxFunction {
                    id: old(functions)@.len() as usize,
                    declaration: f.declaration,
                    closure: old(environments)@.len() as usize,
                    is_initializer: f.is_initializer,
                };
                &&& r == Ok::<Value, InterpreterError>(Value::Callable(Callable::Function(bound)))
                &&& final(functions)@ == old(functions)@.push(bound)
                &&& final(environments)@ == old(environments)@.push(
                    ScopeView {
                        enclosing: if f.closure < old(environments)@.len() {
                            Some(f.closure)
                        } else {
                            None
                        },
                        values: map!["this"@ => Value::Instance(instance)],
                    },
                )
            },
            Property::Missing => r is Err && r->Err_0.message@ == undefined_property(*name)
                && final(environments)@ == old(environments)@ && final(functions)@ == old(
                functions,
            )@,
        },
{
    if instance >= instances.len() {
        return Err(undefined_property_error(name));
    }
    match instances[instance].fields.get(name.lexeme.as_str()) {
        Some(v) => {
            return Ok(v.clone());
        },
        None => {},
    }
    match find_method(classes, instances[instance].class, name.lexeme.as_str()) {
        Some(method) => Ok(
            Value::Callable(Callable::Function(method.bind(environments, functions, instance))),
        ),
        None => Err(undefined_property_error(name)),
    }
}

} // verus!
