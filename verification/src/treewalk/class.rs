//! Instances and their properties.

use vstd::prelude::*;
use crate::treewalk::env::Env;
use crate::treewalk::error::Error;
use crate::treewalk::value::Class;
use crate::treewalk::value::ClassInstance;
use crate::treewalk::value::Method;
use crate::treewalk::value::Value;

verus! {

/// The message for a property that an instance does not have.
pub open spec fn undefined_property(class: Seq<char>, key: Seq<char>) -> Seq<char> {
    "Undefined propety on "@ + class + " instance: "@ + key
}

fn no_property(class: &str, key: &str) -> (r: Error)
    ensures
        r is Runtime,
        r->Runtime_0@ == undefined_property(class@, key@),
{
    Error::Runtime(
        String::from_str("Undefined propety on ").concat(class).concat(" instance: ").concat(key),
    )
}

impl Class {
    pub fn name(&self) -> (r: &str)
        ensures
            r@ == self.name@,
    {
        self.name.as_str()
    }
}

impl ClassInstance {
    /// The fields: what each name is bound to.
    pub open spec fn field_map(&self) -> Map<Seq<char>, Value> {
        self.fields.frames().last()
    }

    /// The methods, each as a `Value::Method`.
    pub open spec fn method_map(&self) -> Map<Seq<char>, Value> {
        self.methods.frames().last()
    }

    /// Both tables are one frame each.
    pub open spec fn wf(&self) -> bool {
        self.fields.frames().len() == 1 && self.methods.frames().len() == 1
    }

    /// The property `key` as it is seen from outside: a field of that name,
    /// else a method of that name, bound to the name under which the
    /// instance is stored.
    pub open spec fn property(&self, key: Seq<char>) -> Option<Value> {
        if self.field_map().dom().contains(key) {
            Some(self.field_map()[key])
        } else if self.method_map().dom().contains(key) {
            Some(bound_to(self.method_map()[key], self.this_name))
        } else {
            None
        }
    }

    /// An instance of `class` without fields and methods.
    pub fn new(class: Class) -> (r: ClassInstance)
        ensures
            r.wf(),
            r.class == class,
            r.field_map() == Map::<Seq<char>, Value>::empty(),
            r.method_map() == Map::<Seq<char>, Value>::empty(),
            r.this_name@ == Seq::<char>::empty(),
    {
        let fields = Env::new(0);
        let methods = Env::new(0);
        assert(fields.frames() =~= seq![Map::<Seq<char>, Value>::empty()]);
        assert(methods.frames() =~= seq![Map::<Seq<char>, Value>::empty()]);
        ClassInstance { class, fields, methods, this_name: String::new() }
    }

    /// Reads a property; fails where the instance has no field and no method
    /// of that name.
    pub fn get(&self, key: &str) -> (r: Result<Value, Error>)
        requires
            self.wf(),
        ensures
            match self.property(key@) {
                Some(v) => r == Ok::<Value, Error>(v),
                None => r is Err && r->Err_0 is Runtime && r->Err_0->Runtime_0@
                    == undefined_property(self.class.name@, key@),
            },
    {
        proof {
            crate::treewalk::env::holder_of_one(self.fields.frames(), key@);
            crate::treewalk::env::holder_of_one(self.methods.frames(), key@);
        }
        if let Ok(val) = self.fields.get(key) {
            Ok(val)
        } else if let Ok(val) = self.methods.get(key) {
            Ok(bind(val, &self.this_name))
        } else {
            Err(no_property(self.class.name(), key))
        }
    }

    /// Gives the field `key` the value `value`, whether or not the instance
    /// has had that field.
    pub fn set(&mut self, key: &str, value: Value)
        requires
            old(self).wf(),
        ensures
            final(self).wf(),
            final(self).field_map() == old(self).field_map().insert(key@, value),
            final(self).methods == old(self).methods,
            final(self).class == old(self).class,
            final(self).this_name == old(self).this_name,
    {
        self.fields.define(key, Some(value));
        assert(self.fields.frames() =~= seq![old(self).field_map().insert(key@, value)]);
    }

    /// Adds a method under the name `key`.
    pub fn add_method(&mut self, key: &str, method: Method)
        requires
            old(self).wf(),
        ensures
            final(self).wf(),
            final(self).method_map() == old(self).method_map().insert(key@, Value::Method(method)),
            final(self).fields == old(self).fields,
            final(self).class == old(self).class,
            final(self).this_name == old(self).this_name,
    {
        self.methods.define(key, Some(Value::Method(method)));
        assert(self.methods.frames() =~= seq![
            old(self).method_map().insert(key@, Value::Method(method)),
        ]);
    }
}

/// A method value with the instance it belongs to stored under `name`; any
/// other value as it is.
pub open spec fn bound_to(value: Value, name: String) -> Value {
    match value {
        Value::Method(m) => Value::Method(
            Method { func: m.func, this_depth: m.this_depth, this_name: name },
        ),
        _ => value,
    }
}

fn bind(value: Value, name: &String) -> (r: Value)
    ensures
        r == bound_to(value, *name),
{
    match value {
        Value::Method(m) => Value::Method(
            Method { func: m.func, this_depth: m.this_depth, this_name: name.clone() },
        ),
        other => other,
    }
}

} // verus!
