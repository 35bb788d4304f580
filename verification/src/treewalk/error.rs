//! What can go wrong on the tree-walking path.

use vstd::prelude::*;
use crate::treewalk::value::Value;

verus! {

/// An error of one of the four stages, or `Return`: no error, but the way a
/// `return` statement leaves the body of a function with its value.
#[derive(Debug)]
pub enum Error {
    Scanner(String),
    Parser(String),
    Resolution(String),
    Runtime(String),
    Return(Value),
}

impl Clone for Error {
    fn clone(&self) -> (r: Error)
        ensures
            r == *self,
    {
        match self {
            Error::Scanner(s) => Error::Scanner(s.clone()),
            Error::Parser(s) => Error::Parser(s.clone()),
            Error::Resolution(s) => Error::Resolution(s.clone()),
            Error::Runtime(s) => Error::Runtime(s.clone()),
            Error::Return(v) => Error::Return(v.clone()),
        }
    }
}

impl Error {
    /// The message with the stage in front. A `Return` that nothing caught
    /// reads as a runtime error.
    pub open spec fn text(self) -> Seq<char> {
        match self {
            Error::Scanner(s) => "Scanning error: "@ + s@,
            Error::Parser(s) => "Parser error: "@ + s@,
            Error::Resolution(s) => "Resolution error: "@ + s@,
            Error::Runtime(s) => "Runtime error: "@ + s@,
            Error::Return(_) => "Runtime error: return outside function"@,
        }
    }

    pub fn to_string(&self) -> (r: String)
        ensures
            r@ == self.text(),
    {
        match self {
            Error::Scanner(s) => String::from_str("Scanning error: ").concat(s.as_str()),
            Error::Parser(s) => String::from_str("Parser error: ").concat(s.as_str()),
            Error::Resolution(s) => String::from_str("Resolution error: ").concat(s.as_str()),
            Error::Runtime(s) => String::from_str("Runtime error: ").concat(s.as_str()),
            Error::Return(_) => String::from_str("Runtime error: return outside function"),
        }
    }
}

} // verus!
