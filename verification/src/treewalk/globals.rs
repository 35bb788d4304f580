//! The built-in functions.

use vstd::prelude::*;
use crate::number::ArithOp;
use crate::number::Arithmetic;
use crate::treewalk::error::Error;
use crate::treewalk::value::Clock;
use crate::treewalk::value::Mod;
use crate::treewalk::value::NativeFunc;
use crate::treewalk::value::Value;

verus! {

impl Clock {
    pub fn name(&self) -> (r: &'static str)
        ensures
            r@ == "clock"@,
    {
        "clock"
    }

    pub fn arity(&self) -> (r: usize)
        ensures
            r == 0,
    {
        0
    }

    /// The time as the embedding program tells it, in milliseconds since
    /// the Unix epoch.
    pub fn call<A: Arithmetic>(&self, numbers: &A, args: &Vec<Value>) -> (r: Result<Value, Error>)
        ensures
            r is Ok,
            r->Ok_0 is Number,
    {
        Ok(Value::Number(numbers.clock()))
    }

    pub fn to_string(&self) -> (r: String)
        ensures
            r@ == "[native fn clock]"@,
    {
        String::from_str("[native fn clock]")
    }
}

impl Mod {
    pub fn name(&self) -> (r: &'static str)
        ensures
            r@ == "[native func mod]"@,
    {
        "[native func mod]"
    }

    pub fn arity(&self) -> (r: usize)
        ensures
            r == 2,
    {
        2
    }

    /// The remainder of the first argument by the second; fails unless both
    /// are numbers.
    pub fn call<A: Arithmetic>(&self, numbers: &A, args: &Vec<Value>) -> (r: Result<Value, Error>)
        ensures
            r is Ok <==> args@.len() >= 2 && args@[0] is Number && args@[1] is Number,
            r is Ok ==> r->Ok_0 == Value::Number(
                numbers.applied(ArithOp::Rem, args@[0]->Number_0, args@[1]->Number_0),
            ),
            r is Err ==> r->Err_0 is Runtime,
    {
        if args.len() >= 2 {
            if let Value::Number(lhs) = &args[0] {
                if let Value::Number(rhs) = &args[1] {
                    return Ok(Value::Number(numbers.apply(ArithOp::Rem, *lhs, *rhs)));
                }
            }
        }
        Err(Error::Runtime(String::from_str("invalid arguments provided to mod")))
    }

    pub fn to_string(&self) -> (r: String)
        ensures
            r@ == "[native fn mod]"@,
    {
        String::from_str("[native fn mod]")
    }
}

impl NativeFunc {
    pub open spec fn params(self) -> nat {
        match self {
            NativeFunc::Clock(_) => 0,
            NativeFunc::Mod(_) => 2,
        }
    }

    pub fn name(&self) -> (r: &'static str)
        ensures
            r@ == (match *self {
                NativeFunc::Clock(_) => "clock"@,
                NativeFunc::Mod(_) => "[native func mod]"@,
            }),
    {
        match self {
            NativeFunc::Clock(c) => c.name(),
            NativeFunc::Mod(m) => m.name(),
        }
    }

    pub fn arity(&self) -> (r: usize)
        ensures
            r == self.params(),
    {
        match self {
            NativeFunc::Clock(c) => c.arity(),
            NativeFunc::Mod(m) => m.arity(),
        }
    }

    pub fn call<A: Arithmetic>(&self, numbers: &A, args: &Vec<Value>) -> (r: Result<Value, Error>)
        ensures
            r is Ok <==> (*self is Clock || (args@.len() >= 2 && args@[0] is Number && args@[1]
                is Number)),
            r is Ok ==> r->Ok_0 is Number,
            r is Ok && *self is Mod ==> r->Ok_0 == Value::Number(
                numbers.applied(ArithOp::Rem, args@[0]->Number_0, args@[1]->Number_0),
            ),
            r is Err ==> r->Err_0 is Runtime,
    {
        match self {
            NativeFunc::Clock(c) => c.call(numbers, args),
            NativeFunc::Mod(m) => m.call(numbers, args),
        }
    }

    pub fn to_string(&self) -> (r: String)
        ensures
            r@ == (match *self {
                NativeFunc::Clock(_) => "[native fn clock]"@,
                NativeFunc::Mod(_) => "[native fn mod]"@,
            }),
    {
        match self {
            NativeFunc::Clock(c) => c.to_string(),
            NativeFunc::Mod(m) => m.to_string(),
        }
    }
}

} // verus!
