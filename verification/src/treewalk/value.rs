//! The values of the tree walker.

use vstd::prelude::*;
use crate::number::{Arithmetic, Number};
use crate::treewalk::env::Env;
use crate::treewalk::expr::Literal;
use crate::treewalk::stmt::Function;
use std::rc::Rc;

verus! {

/// The clock, a built-in function without parameters.
#[derive(Debug, Clone, Copy, PartialEq, Eq, Structural)]
pub struct Clock;

/// The remainder, a built-in function of two numbers.
#[derive(Debug, Clone, Copy, PartialEq, Eq, Structural)]
pub struct Mod;

/// The functions that the embedding program provides.
#[derive(Debug, Clone, Copy, PartialEq, Eq, Structural)]
pub enum NativeFunc {
    Clock(Clock),
    Mod(Mod),
}

/// A function with the frames it was declared in.
#[derive(Debug)]
pub struct Func {
    /// The name under which the function is stored.
    pub name: String,
    /// Parameters and body.
    pub decl: Rc<Function>,
    /// The frames above the two outermost ones, as they were when the
    /// function was declared or last returned.
    pub env: Env,
    pub env_idx: usize,
}

/// A class: what is called to make an instance.
#[derive(Debug)]
pub struct Class {
    pub name: String,
    pub methods: Rc<Vec<Function>>,
    pub env_idx: usize,
}

/// An instance of a class. Its fields and its methods are each the one
/// frame of an environment; `this_name` is the name under which the instance
/// is stored where it was last read from.
#[derive(Debug)]
pub struct ClassInstance {
    pub class: Class,
    pub fields: Env,
    pub methods: Env,
    pub this_name: String,
}

/// A method of an instance, with the name under which the instance is
/// stored and the depth of the frame that binds `this`.
#[derive(Debug)]
pub struct Method {
    pub func: Func,
    pub this_depth: usize,
    pub this_name: String,
}

#[derive(Debug)]
pub enum Value {
    String(String),
    Number(Number),
    Bool(bool),
    Nil,
    Func(Func),
    Init(Class),
    NativeFunc(NativeFunc),
    Class(ClassInstance),
    Method(Method),
}

/// `Rc::clone`: one more pointer to the same value, which is not copied.
#[verifier::external_body]
pub(crate) fn share<T>(shared: &Rc<T>) -> (r: Rc<T>)
    ensures
        r == *shared,
{
    Rc::clone(shared)
}

impl Clone for Func {
    fn clone(&self) -> (r: Func)
        ensures
            r == *self,
    {
        Func {
            name: self.name.clone(),
            decl: share(&self.decl),
            env: self.env.clone(),
            env_idx: self.env_idx,
        }
    }
}

impl Clone for Class {
    fn clone(&self) -> (r: Class)
        ensures
            r == *self,
    {
        Class {
            name: self.name.clone(),
            methods: share(&self.methods),
            env_idx: self.env_idx,
        }
    }
}

impl Clone for ClassInstance {
    fn clone(&self) -> (r: ClassInstance)
        ensures
            r == *self,
    {
        ClassInstance {
            class: self.class.clone(),
            fields: self.fields.clone(),
            methods: self.methods.clone(),
            this_name: self.this_name.clone(),
        }
    }
}

impl Clone for Method {
    fn clone(&self) -> (r: Method)
        ensures
            r == *self,
    {
        Method {
            func: self.func.clone(),
            this_depth: self.this_depth,
            this_name: self.this_name.clone(),
        }
    }
}

impl Clone for Value {
    fn clone(&self) -> (r: Value)
        ensures
            r == *self,
    {
        match self {
            Value::String(s) => Value::String(s.clone()),
            Value::Number(n) => Value::Number(*n),
            Value::Bool(b) => Value::Bool(*b),
            Value::Nil => Value::Nil,
            Value::Func(f) => Value::Func(f.clone()),
            Value::Init(c) => Value::Init(c.clone()),
            Value::NativeFunc(n) => Value::NativeFunc(*n),
            Value::Class(c) => Value::Class(c.clone()),
            Value::Method(m) => Value::Method(m.clone()),
        }
    }
}

impl Value {
    pub open spec fn clock_value() -> Value {
        Value::NativeFunc(NativeFunc::Clock(Clock))
    }

    pub open spec fn modulo_value() -> Value {
        Value::NativeFunc(NativeFunc::Mod(Mod))
    }

    pub fn clock() -> (r: Value)
        ensures
            r == Value::clock_value(),
    {
        Value::NativeFunc(NativeFunc::Clock(Clock))
    }

    pub fn modulo() -> (r: Value)
        ensures
            r == Value::modulo_value(),
    {
        Value::NativeFunc(NativeFunc::Mod(Mod))
    }

    /// `nil` and `false` are falsy; everything else is truthy.
    pub open spec fn truthy(self) -> bool {
        match self {
            Value::Nil => false,
            Value::Bool(b) => b,
            _ => true,
        }
    }

    /// Equality as `==` in a program has it: within one kind, for strings,
    /// numbers, booleans and `nil`; never across kinds, and never for the
    /// other kinds.
    pub open spec fn equal(self, other: Value) -> bool {
        match (self, other) {
            (Value::Nil, Value::Nil) => true,
            (Value::String(l), Value::String(r)) => l@ == r@,
            (Value::Number(l), Value::Number(r)) => l.same(r),
            (Value::Bool(l), Value::Bool(r)) => l == r,
            _ => false,
        }
    }

    /// Equality as `equal`, and two functions are the same if they are
    /// stored under one name.
    pub open spec fn same(self, other: Value) -> bool {
        match (self, other) {
            (Value::Func(l), Value::Func(r)) => l.name@ == r.name@,
            _ => self.equal(other),
        }
    }

    pub fn is_truthy(&self) -> (r: bool)
        ensures
            r == self.truthy(),
    {
        match self {
            Value::Nil => false,
            Value::Bool(b) => *b,
            _ => true,
        }
    }

    pub fn is_equal(&self, rhs: &Value) -> (r: bool)
        ensures
            r == self.equal(*rhs),
    {
        match (self, rhs) {
            (Value::Nil, Value::Nil) => true,
            (Value::String(l), Value::String(r)) => *l == *r,
            (Value::Number(l), Value::Number(r)) => l.equals(*r),
            (Value::Bool(l), Value::Bool(r)) => *l == *r,
            _ => false,
        }
    }

    /// The value of a literal that is no number.
    pub fn from_literal(lit: &Literal) -> (r: Option<Value>)
        ensures
            r == (match *lit {
                Literal::String(s) => Some(Value::String(s)),
                Literal::Number(_) => None,
                Literal::Bool(b) => Some(Value::Bool(b)),
                Literal::Nil => Some(Value::Nil),
            }),
    {
        match lit {
            Literal::String(s) => Some(Value::String(s.clone())),
            Literal::Number(_) => None,
            Literal::Bool(b) => Some(Value::Bool(*b)),
            Literal::Nil => Some(Value::Nil),
        }
    }
}

impl Literal {
    /// The value of this literal: a number as the embedding program reads
    /// it, any other literal as it stands.
    pub fn clone_into<A: Arithmetic>(&self, numbers: &A) -> (r: Value)
        ensures
            match *self {
                Literal::String(s) => r == Value::String(s),
                Literal::Number(text) => r == Value::Number(numbers.parsed(text@)),
                Literal::Bool(b) => r == Value::Bool(b),
                Literal::Nil => r == Value::Nil,
            },
    {
        match self {
            Literal::Number(n) => Value::Number(numbers.parse(n.as_str())),
            other => match Value::from_literal(other) {
                Some(v) => v,
                None => Value::Nil,
            },
        }
    }
}

impl PartialEq for Value {
    fn eq(&self, other: &Value) -> (r: bool) {
        match (self, other) {
            (Value::Func(l), Value::Func(r)) => l.name == r.name,
            _ => self.is_equal(other),
        }
    }
}

impl vstd::std_specs::cmp::PartialEqSpecImpl for Value {
    open spec fn obeys_eq_spec() -> bool {
        true
    }

    open spec fn eq_spec(&self, other: &Value) -> bool {
        self.same(*other)
    }
}

} // verus!
