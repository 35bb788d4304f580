//! Listings of a chunk: one line of text for each instruction.

use vstd::prelude::*;
use crate::bytecode::chunk::Chunk;
use crate::bytecode::op::OpCode;
use crate::bytecode::value::Value;
use crate::bytecode::vm::{format_in, heap_view, written};
use crate::number::Arithmetic;
use crate::text::{decimal, decimal_text};

verus! {

/// `n` zeros.
pub open spec fn zeros(n: nat) -> Seq<char> {
    Seq::new(n, |i: int| '0')
}

/// `n` in decimal, with zeros in front of fewer than four digits.
pub open spec fn padded(n: nat) -> Seq<char> {
    let digits = decimal(n);
    if digits.len() < 4 {
        zeros((4 - digits.len()) as nat) + digits
    } else {
        digits
    }
}

/// The column that tells the line of the instruction at `idx`: the line of
/// the first instruction and of every instruction that stems from another
/// line than the one before it, a bar for any other.
pub open spec fn line_column(lines: Seq<usize>, idx: int) -> Seq<char> {
    if idx == 0 {
        padded(lines[0] as nat) + " "@
    } else if lines[idx - 1] == lines[idx] {
        "   | "@
    } else {
        padded(lines[idx] as nat)
    }
}

/// A constant as a listing shows it, a number as the embedding program
/// writes it.
pub open spec fn constant_text<A: Arithmetic>(numbers: &A, value: Value) -> Seq<char> {
    match value {
        Value::Number(n) => "Number("@ + numbers.rendered(n) + ")"@,
        Value::Boolean(true) => "Boolean(true)"@,
        Value::Boolean(false) => "Boolean(false)"@,
        Value::Nil => "Nil"@,
        Value::Obj { idx } => "Obj { idx: "@ + decimal(idx as nat) + " }"@,
    }
}

/// The line of a listing for the instruction `code` at index `i`: the
/// index, the line column and the name of the instruction; behind
/// `Constant`, which is filled up to sixteen characters, the constant.
pub open spec fn listed<A: Arithmetic>(numbers: &A, chunk: Chunk, i: int, code: OpCode) -> Seq<char> {
    let head = padded(i as nat) + " "@ + line_column(chunk.lines.lines(), i);
    match code {
        OpCode::Constant { idx } => head + "Constant         "@ + constant_text(
            numbers,
            chunk.values@[idx as int],
        ),
        _ => head + code.name(),
    }
}

/// The heading of a listing.
pub open spec fn heading(name: Seq<char>) -> Seq<char> {
    "== "@ + name + " =="@
}

fn padded_text(n: usize) -> (r: String)
    ensures
        r@ == padded(n as nat),
{
    let digits = decimal_text(n);
    let len = digits.as_str().unicode_len();
    let mut out = String::new();
    let mut k: usize = len;
    assert(out@ =~= zeros(0));
    while k < 4
        invariant
            len <= k,
            len < 4 ==> k <= 4,
            len >= 4 ==> k == len,
            len == digits@.len(),
            digits@ == decimal(n as nat),
            out@ == zeros((k - len) as nat),
        decreases 4 - k,
    {
        out.push('0');
        k += 1;
        assert(out@ =~= zeros((k - len) as nat));
    }
    out.append(digits.as_str());
    assert(out@ =~= padded(n as nat));
    out
}

fn constant<A: Arithmetic>(value: Value, numbers: &A) -> (r: String)
    ensures
        r@ == constant_text(numbers, value),
{
    match value {
        Value::Number(n) => {
            let text = numbers.render(n);
            let mut out = String::from_str("Number(");
            out.append(text.as_str());
            out.append(")");

            out
        },
        Value::Boolean(true) => {
            let out = String::from_str("Boolean(true)");

            out
        },
        Value::Boolean(false) => {
            let out = String::from_str("Boolean(false)");

            out
        },
        Value::Nil => {
            let out = String::from_str("Nil");

            out
        },
        Value::Obj { idx } => {
            let mut out = String::from_str("Obj { idx: ");
            out.append(decimal_text(idx).as_str());
            out.append(" }");

            out
        },
    }
}

impl Chunk {
    /// The text of the object at `idx` of the heap.
    pub fn print_obj<A: Arithmetic>(&self, idx: usize, numbers: &A) -> (r: String)
        requires
            idx < self.heap@.len(),
        ensures
            written(
                numbers,
                Some(Value::Obj { idx }),
                heap_view(self.heap@),
                0,
                self.heap@.len(),
                r@,
            ),
    {
        format_in(&self.heap, Some(Value::Obj { idx }), 0, self.heap.len(), numbers)
    }

    /// The listing of the whole chunk under the heading `name`.
    pub fn dissassemble_all<A: Arithmetic>(&self, name: &str, numbers: &A) -> (r: Vec<String>)
        requires
            self.wf(),
            self.sound(),
        ensures
            r@.len() == self.code@.len() + 1,
            r@[0]@ == heading(name@),
            forall|j: int|
                1 <= j < r@.len() ==> (#[trigger] r@[j])@ == listed(numbers, *self, j - 1, self.code@[j - 1]),
    {
        let mut out: Vec<String> = Vec::new();
        let mut first = String::from_str("== ");
        first.append(name);
        first.append(" ==");
        out.push(first);
        let mut i: usize = 0;
        while i < self.code.len()
            invariant
                self.wf(),
                self.sound(),
                i <= self.code@.len(),
                out@.len() == i + 1,
                out@[0]@ == heading(name@),
                forall|j: int|
                    1 <= j < out@.len() ==> (#[trigger] out@[j])@ == listed(numbers, *self, j - 1, self.code@[j - 1]),
            decreases self.code@.len() - i,
        {
            let ghost before = out@;
            let line = self.dissassemble_inst_idx(i, numbers);
            out.push(line);
            proof {
                assert forall|j: int| 1 <= j < out@.len() implies (#[trigger] out@[j])@ == listed(numbers, *self, j - 1, self.code@[j - 1]) by {
                    if j <= i {
                        assert(out@[j] == before[j]);
                    }
                }
            }
            i += 1;
        }
        out
    }

    /// The line of the listing for the instruction at index `i`.
    pub fn dissassemble_inst_idx<A: Arithmetic>(&self, i: usize, numbers: &A) -> (r: String)
        requires
            self.wf(),
            self.sound(),
            i < self.code@.len(),
        ensures
            r@ == listed(numbers, *self, i as int, self.code@[i as int]),
    {
        let code = self.code[i];
        self.dissassemble_inst(i, &code, numbers)
    }

    /// The line of the listing for the instruction `code`, taken to stand
    /// at index `i`.
    pub fn dissassemble_inst<A: Arithmetic>(&self, i: usize, code: &OpCode, numbers: &A) -> (r:
        String)
        requires
            i < self.lines.lines().len(),
            *code matches OpCode::Constant { idx } ==> idx < self.values@.len(),
        ensures
            r@ == listed(numbers, *self, i as int, *code),
    {
        let mut out = padded_text(i);
        out.append(" ");
        out.append(self.dissassemblly_line(i).as_str());
        match code {
            OpCode::Constant { idx } => {
                out.append("Constant         ");
                let shown = constant(self.values[*idx], numbers);
                out.append(shown.as_str());
            },
            _ => {
                out.append(code.to_string().as_str());
            },
        }
        out
    }

    /// The line column of the instruction at `idx`.
    fn dissassemblly_line(&self, idx: usize) -> (r: String)
        requires
            idx < self.lines.lines().len(),
        ensures
            r@ == line_column(self.lines.lines(), idx as int),
    {
        if idx == 0 {
            let mut out = padded_text(self.lines.get_unchecked(0));
            out.append(" ");
            out
        } else {
            let prev = self.lines.get_unchecked(idx - 1);
            let curr = self.lines.get_unchecked(idx);
            if prev == curr {
                String::from_str("   | ")
            } else {
                padded_text(curr)
            }
        }
    }
}

} // verus!
