//! The instruction set.

use vstd::prelude::*;

verus! {

/// One instruction. The three non-strict comparisons have no instruction of
/// their own: each is its dual followed by `Not`.
#[derive(Clone, Copy, Debug, PartialEq, Eq, Structural)]
pub enum OpCode {
    Constant { idx: usize },
    Return,
    Negate,
    Add,
    Sub,
    Mul,
    Div,
    True,
    False,
    Nil,
    Not,
    Eq,
    Gtr,
    Less,
}

impl OpCode {
    /// The name of the instruction as a disassembly shows it.
    pub open spec fn name(self) -> Seq<char> {
        match self {
            OpCode::Constant { .. } => "Constant"@,
            OpCode::Return => "Return"@,
            OpCode::Negate => "Negate"@,
            OpCode::Add => "Add"@,
            OpCode::Sub => "Sub"@,
            OpCode::Mul => "Mul"@,
            OpCode::Div => "Div"@,
            OpCode::True => "true"@,
            OpCode::False => "false"@,
            OpCode::Nil => "nil"@,
            OpCode::Not => "Not"@,
            OpCode::Eq => "Eq"@,
            OpCode::Gtr => "Gtr"@,
            OpCode::Less => "Less"@,
        }
    }

    pub fn to_string(&self) -> (r: String)
        ensures
            r@ == self.name(),
    {
        let s = match self {
            OpCode::Constant { .. } => "Constant",
            OpCode::Return => "Return",
            OpCode::Negate => "Negate",
            OpCode::Add => "Add",
            OpCode::Sub => "Sub",
            OpCode::Mul => "Mul",
            OpCode::Div => "Div",
            OpCode::True => "true",
            OpCode::False => "false",
            OpCode::Nil => "nil",
            OpCode::Not => "Not",
            OpCode::Eq => "Eq",
            OpCode::Gtr => "Gtr",
            OpCode::Less => "Less",
        };
        String::from_str(s)
    }
}

} // verus!
