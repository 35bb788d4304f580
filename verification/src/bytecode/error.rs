//! What can go wrong on the bytecode path.

use vstd::prelude::*;

verus! {

#[derive(Debug)]
pub enum Error {
    Runtime(String),
    Compiler(String),
}

/// The exit code for a source that does not compile.
pub const EXIT_COMPILE: u8 = 65;

/// The exit code for a chunk that fails while it runs.
pub const EXIT_RUNTIME: u8 = 70;

impl Error {
    /// The exit code of a program that ended with this error.
    pub fn exit_code(&self) -> (r: u8)
        ensures
            r == (match *self {
                Error::Compiler(_) => EXIT_COMPILE,
                Error::Runtime(_) => EXIT_RUNTIME,
            }),
    {
        match self {
            Error::Compiler(_) => EXIT_COMPILE,
            Error::Runtime(_) => EXIT_RUNTIME,
        }
    }

    /// The message with the kind of error in front.
    pub open spec fn text(self) -> Seq<char> {
        match self {
            Error::Runtime(msg) => "Runtime error: "@ + msg@,
            Error::Compiler(msg) => "Compiler error: "@ + msg@,
        }
    }

    pub fn to_string(&self) -> (r: String)
        ensures
            r@ == self.text(),
    {
        match self {
            Error::Runtime(msg) => String::from_str("Runtime error: ").concat(msg.as_str()),
            Error::Compiler(msg) => String::from_str("Compiler error: ").concat(msg.as_str()),
        }
    }
}

} // verus!
