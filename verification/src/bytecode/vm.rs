//! The stack machine that runs a chunk.

use vstd::prelude::*;
use crate::bytecode::chunk::Chunk;
use crate::bytecode::compiler::Compiler;
use crate::bytecode::compiler::Emitted;
use crate::bytecode::compiler::compiled;
use crate::bytecode::compiler::emitted_of;
use crate::bytecode::compiler::pooled;
use crate::bytecode::error::Error;
use crate::bytecode::op::OpCode;
use crate::bytecode::value::Obj;
use crate::bytecode::value::ObjView;
use crate::bytecode::value::Value;
use crate::bytecode::value::objects_agree;
use crate::number::ArithOp;
use crate::number::Arithmetic;
use crate::number::Number;
use std::collections::VecDeque;

verus! {

/// Why an instruction cannot be executed.
#[derive(Clone, Copy, Debug, PartialEq, Eq, Structural)]
pub enum Fault {
    /// `Negate` without a number on top of the stack.
    NegateOperand,
    /// `Not` on an empty stack.
    NotOperand,
    /// An arithmetic instruction without two operands of one kind.
    Unmatched(ArithOp),
    /// A comparison without two numbers as operands.
    Compare,
    /// Two operands of one kind for which the instruction is not defined.
    Unsupported,
    /// `Eq` without two operands.
    MissingOperand,
    /// A constant or a handle that the chunk does not hold.
    Dangling,
}

/// What executing one instruction comes to.
#[derive(Clone, Copy, Debug)]
#[allow(inconsistent_fields)]
pub enum Step {
    /// The top `pops` values leave the stack and `value` is pushed.
    Push { pops: usize, value: Value },
    /// The two operands leave the stack, and `lhs op rhs` is pushed once the
    /// embedding program has computed it.
    Arith { op: ArithOp, lhs: Number, rhs: Number },
    /// The two handles leave the stack; the text of `left` followed by that
    /// of `right` is put on the heap and its handle is pushed.
    Concat { left: usize, right: usize },
    /// The top value, if there is one, leaves the stack and is printed, and
    /// the machine halts.
    Halt { value: Option<Value> },
    Fault { fault: Fault },
}

pub open spec fn is_text(heap: Seq<ObjView>, idx: usize) -> bool {
    idx < heap.len() && heap[idx as int] is Text
}

/// The step that `op` comes to on `stack`, whose last value is the top: the
/// right operand of a binary instruction lies on top of the left one.
pub open spec fn step_of(op: OpCode, stack: Seq<Value>, values: Seq<Value>, heap: Seq<ObjView>) -> Step {
    let n = stack.len() as int;
    match op {
        OpCode::Constant { idx } => if idx < values.len() {
            Step::Push { pops: 0, value: values[idx as int] }
        } else {
            Step::Fault { fault: Fault::Dangling }
        },
        OpCode::True => Step::Push { pops: 0, value: Value::Boolean(true) },
        OpCode::False => Step::Push { pops: 0, value: Value::Boolean(false) },
        OpCode::Nil => Step::Push { pops: 0, value: Value::Nil },
        OpCode::Return => Step::Halt {
            value: if n >= 1 {
                Some(stack[n - 1])
            } else {
                None
            },
        },
        OpCode::Negate => if n >= 1 && stack[n - 1] is Number {
            Step::Push {
                pops: 1,
                value: Value::Number(
                    Number { bits: stack[n - 1]->Number_0.bits ^ crate::number::SIGN_BIT },
                ),
            }
        } else {
            Step::Fault { fault: Fault::NegateOperand }
        },
        OpCode::Not => if n >= 1 {
            Step::Push { pops: 1, value: Value::Boolean(!stack[n - 1].truthy()) }
        } else {
            Step::Fault { fault: Fault::NotOperand }
        },
        OpCode::Add => if n < 2 || !stack[n - 2].same_kind(stack[n - 1]) {
            Step::Fault { fault: Fault::Unmatched(ArithOp::Add) }
        } else {
            match (stack[n - 2], stack[n - 1]) {
                (Value::Number(l), Value::Number(r)) => Step::Arith { op: ArithOp::Add, lhs: l, rhs: r },
                (Value::Obj { idx: l }, Value::Obj { idx: r }) => if is_text(heap, l) && is_text(
                    heap,
                    r,
                ) {
                    Step::Concat { left: l, right: r }
                } else {
                    Step::Fault { fault: Fault::Unsupported }
                },
                _ => Step::Fault { fault: Fault::Unsupported },
            }
        },
        OpCode::Sub => arith_step(ArithOp::Sub, stack),
        OpCode::Mul => arith_step(ArithOp::Mul, stack),
        OpCode::Div => arith_step(ArithOp::Div, stack),
        OpCode::Eq => if n < 2 {
            Step::Fault { fault: Fault::MissingOperand }
        } else {
            match (stack[n - 2], stack[n - 1]) {
                (Value::Obj { idx: l }, Value::Obj { idx: r }) => if l < heap.len() && r
                    < heap.len() {
                    Step::Push {
                        pops: 2,
                        value: Value::Boolean(objects_agree(heap[l as int], heap[r as int])),
                    }
                } else {
                    Step::Fault { fault: Fault::Dangling }
                },
                (l, r) => Step::Push { pops: 2, value: Value::Boolean(l.same(r)) },
            }
        },
        OpCode::Less => if n >= 2 && stack[n - 2] is Number && stack[n - 1] is Number {
            Step::Push { pops: 2, value: Value::Boolean(stack[n - 2].below(stack[n - 1])) }
        } else {
            Step::Fault { fault: Fault::Compare }
        },
        OpCode::Gtr => if n >= 2 && stack[n - 2] is Number && stack[n - 1] is Number {
            Step::Push { pops: 2, value: Value::Boolean(stack[n - 1].below(stack[n - 2])) }
        } else {
            Step::Fault { fault: Fault::Compare }
        },
    }
}

/// The step of `Sub`, `Mul` or `Div`, which are defined on two numbers only.
pub open spec fn arith_step(op: ArithOp, stack: Seq<Value>) -> Step {
    let n = stack.len() as int;
    if n < 2 || !stack[n - 2].same_kind(stack[n - 1]) {
        Step::Fault { fault: Fault::Unmatched(op) }
    } else {
        match (stack[n - 2], stack[n - 1]) {
            (Value::Number(l), Value::Number(r)) => Step::Arith { op, lhs: l, rhs: r },
            _ => Step::Fault { fault: Fault::Unsupported },
        }
    }
}

/// How one step relates the machine before it, the machine after it and
/// what the step returns. Every step but one that finds no instruction moves
/// on to the next instruction.
pub open spec fn stepped<A: Arithmetic>(numbers: &A, before: VM, after: VM, r: Result<bool, Error>) -> bool {
    let n = before.stack().len() as int;
    &&& after.code() == before.code()
    &&& after.constants() == before.constants()
    &&& after.lines() == before.lines()
    &&& match before.next_step() {
        None => r == Ok::<bool, Error>(false) && after.ip() == before.ip() && after.stack()
            == before.stack() && after.heap() == before.heap() && after.printed()
            == before.printed(),
        Some(step) => after.ip() == before.ip() + 1 && match step {
            Step::Push { pops, value } => {
                &&& r == Ok::<bool, Error>(true)
                &&& after.stack() == before.stack().take(n - pops).push(value)
                &&& after.heap() == before.heap()
                &&& after.printed() == before.printed()
            },
            Step::Arith { op, lhs, rhs } => {
                &&& r == Ok::<bool, Error>(true)
                &&& after.stack() == before.stack().take(n - 2).push(
                    Value::Number(numbers.applied(op, lhs, rhs)),
                )
                &&& after.heap() == before.heap()
                &&& after.printed() == before.printed()
            },
            Step::Concat { left, right } => {
                &&& r == Ok::<bool, Error>(true)
                &&& after.heap() == before.heap().push(
                    ObjView::Text(
                        before.heap()[left as int]->Text_0 + before.heap()[right as int]->Text_0,
                    ),
                )
                &&& after.stack() == before.stack().take(n - 2).push(
                    Value::Obj { idx: before.heap().len() as usize },
                )
                &&& after.printed() == before.printed()
            },
            Step::Halt { value } => {
                &&& r == Ok::<bool, Error>(false)
                &&& after.stack() == (if value is Some {
                    before.stack().take(n - 1)
                } else {
                    before.stack()
                })
                &&& after.heap() == before.heap()
                &&& after.printed().len() == before.printed().len() + 1
                &&& after.printed().drop_last() == before.printed()
                &&& written(
                    numbers,
                    value,
                    before.heap(),
                    0,
                    before.heap().len(),
                    after.printed().last(),
                )
            },
            Step::Fault { fault } => {
                &&& r is Err
                &&& r->Err_0 is Runtime
                &&& r->Err_0->Runtime_0@ == fault.text()
                &&& after.stack() == before.stack()
                &&& after.heap() == before.heap()
                &&& after.printed() == before.printed()
            },
        },
    }
}

/// Whether `vm` is about to run what a compilation has written, from the
/// first instruction and with an empty stack, and has printed `printed`.
pub open spec fn loaded(vm: VM, e: Emitted, printed: Seq<Seq<char>>) -> bool {
    &&& vm.code() == e.code
    &&& vm.lines() == e.lines
    &&& vm.constants().len() == e.pool.len()
    &&& forall|i: int| 0 <= i < e.pool.len() ==> pooled(#[trigger] vm.constants()[i]) == e.pool[i]
    &&& vm.heap() == e.heap
    &&& vm.stack().len() == 0
    &&& vm.ip() == 0
    &&& vm.printed() == printed
}

/// Whether every machine of `trace` but the last gets to the next one by
/// one step after which it goes on.
pub open spec fn goes_on<A: Arithmetic>(numbers: &A, trace: Seq<VM>) -> bool {
    &&& trace.len() >= 1
    &&& forall|i: int|
        0 <= i < trace.len() - 1 ==> stepped(numbers, #[trigger] trace[i], trace[i + 1], Ok(true))
}

/// Whether the step from `last` to `after` returns `step`, does not let the
/// machine go on, and makes the run end with `r`.
pub open spec fn ended<A: Arithmetic>(numbers: &A, last: VM, after: VM, step: Result<bool, Error>, r: Result<(), Error>) -> bool {
    &&& stepped(numbers, last, after, step)
    &&& match step {
        Ok(more) => !more && r == Ok::<(), Error>(()),
        Err(e) => r == Err::<(), Error>(e),
    }
}

/// How a run relates the machine before it, the machine after it and what
/// it returns: the machine takes steps as long as they let it go on, and
/// the first step that does not, because it prints the result, fails or
/// finds no instruction, ends the run.
pub open spec fn ran<A: Arithmetic>(numbers: &A, before: VM, after: VM, r: Result<(), Error>) -> bool {
    exists|trace: Seq<VM>, step: Result<bool, Error>|
        #![trigger goes_on(numbers, trace), ended(numbers, trace.last(), after, step, r)]
        goes_on(numbers, trace) && trace[0] == before && ended(numbers, trace.last(), after, step, r)
}

/// What `Eq` pushes is a boolean, and `Not` after `Not` gives that boolean
/// back: as `!=` is compiled to `Eq` and `Not`, `!(a != b)` leaves on the
/// stack what `a == b` leaves.
pub proof fn equal_is_not_unequal(stack: Seq<Value>, values: Seq<Value>, heap: Seq<ObjView>)
    ensures
        crate::bytecode::compiler::binary_code(crate::bytecode::scanner::TokenType::BangEq)
            == Some((OpCode::Eq, Some(OpCode::Not))),
        crate::bytecode::compiler::binary_code(crate::bytecode::scanner::TokenType::EqEq) == Some(
            (OpCode::Eq, None::<OpCode>),
        ),
        step_of(OpCode::Eq, stack, values, heap) matches Step::Push { value, .. } ==> {
            &&& value is Boolean
            &&& step_of(OpCode::Not, seq![value], values, heap) matches Step::Push {
                value: negated,
                ..
            }
            &&& step_of(
                OpCode::Not,
                seq![Value::Boolean(!value->Boolean_0)],
                values,
                heap,
            ) matches Step::Push { value: twice, .. } && twice == value
        },
{
}

/// What the objects of a heap hold.
pub open spec fn heap_view(heap: Seq<Obj>) -> Seq<ObjView> {
    Seq::new(heap.len(), |i: int| heap[i]@)
}

impl Fault {
    pub open spec fn text(self) -> Seq<char> {
        match self {
            Fault::NegateOperand => "Operand must be a number."@,
            Fault::NotOperand => "Cannot negate a non boolean"@,
            Fault::Unmatched(ArithOp::Add) => "Cannot add unmatched operands"@,
            Fault::Unmatched(ArithOp::Sub) => "Cannot subtract unmatched operands"@,
            Fault::Unmatched(ArithOp::Mul) => "Cannot multiply unmatched operands"@,
            Fault::Unmatched(_) => "Cannot divide unmatched operands"@,
            Fault::Compare => "Cannot compare unmatched operands"@,
            Fault::Unsupported => "Operands must be two numbers or two strings"@,
            Fault::MissingOperand => "Invalid operation, not enough operands"@,
            Fault::Dangling => "Invalid operation, no such constant or object"@,
        }
    }

    pub fn message(self) -> (r: &'static str)
        ensures
            r@ == self.text(),
    {
        match self {
            Fault::NegateOperand => "Operand must be a number.",
            Fault::NotOperand => "Cannot negate a non boolean",
            Fault::Unmatched(ArithOp::Add) => "Cannot add unmatched operands",
            Fault::Unmatched(ArithOp::Sub) => "Cannot subtract unmatched operands",
            Fault::Unmatched(ArithOp::Mul) => "Cannot multiply unmatched operands",
            Fault::Unmatched(_) => "Cannot divide unmatched operands",
            Fault::Compare => "Cannot compare unmatched operands",
            Fault::Unsupported => "Operands must be two numbers or two strings",
            Fault::MissingOperand => "Invalid operation, not enough operands",
            Fault::Dangling => "Invalid operation, no such constant or object",
        }
    }
}

/// A chunk, the index of the instruction to execute next, the value stack,
/// and the lines printed so far.
pub struct VM {
    pub chunk: Chunk,
    ip: usize,
    stack: VecDeque<Value>,
    printed: Vec<String>,
}

/// The text that a value is printed as, a number as the embedding program
/// writes it; nothing for a table, whose text depends on the order in which
/// it hands out its entries: see `written`.
pub open spec fn shown<A: Arithmetic>(numbers: &A, value: Option<Value>, heap: Seq<ObjView>) -> Option<Seq<char>> {
    match value {
        None => Some("nil"@),
        Some(Value::Nil) => Some("nil"@),
        Some(Value::Boolean(b)) => Some(
            if b {
                "true"@
            } else {
                "false"@
            },
        ),
        Some(Value::Number(n)) => Some(numbers.rendered(n)),
        Some(Value::Obj { idx }) => if idx < heap.len() {
            match heap[idx as int] {
                ObjView::Text(t) => Some(t),
                ObjView::Table(_) => None,
            }
        } else {
            Some("nil"@)
        },
    }
}

/// `n` levels of indentation, two blanks each.
pub open spec fn indented(n: nat) -> Seq<char>
    decreases n,
{
    if n == 0 {
        Seq::empty()
    } else {
        indented((n - 1) as nat) + "  "@
    }
}

/// The indentation of what stands inside a table that stands `indent`
/// levels in.
pub open spec fn deeper(indent: usize) -> usize {
    if indent <= usize::MAX - 2 {
        (indent + 2) as usize
    } else {
        indent
    }
}

/// Whether `pairs` holds every entry of `table` once, in some order.
pub open spec fn walks(table: Map<Seq<char>, Value>, pairs: Seq<(Seq<char>, Value)>) -> bool {
    &&& pairs.len() == table.dom().len()
    &&& forall|i: int|
        0 <= i < pairs.len() ==> table.dom().contains(#[trigger] pairs[i].0) && table[pairs[i].0]
            == pairs[i].1
    &&& forall|i: int, j: int| 0 <= i < j < pairs.len() ==> pairs[i].0 != pairs[j].0
}

/// The first `upto` entries of a table as they are written: each name, a
/// colon and the text of the value, one behind the other.
pub open spec fn entries_text(pairs: Seq<(Seq<char>, Value)>, texts: Seq<Seq<char>>, upto: int) -> Seq<
    char,
>
    decreases upto,
{
    if upto <= 0 {
        Seq::empty()
    } else {
        entries_text(pairs, texts, upto - 1) + pairs[upto - 1].0 + ": "@ + texts[upto - 1]
    }
}

/// Marks `pairs` and `texts` as the entries of a table and the texts of
/// their values.
pub open spec fn laid_out(pairs: Seq<(Seq<char>, Value)>, texts: Seq<Seq<char>>) -> bool {
    true
}

/// Whether `text` is what `value` is printed as, `indent` levels in and
/// with tables written out `depth` deep: the text that `shown` gives, and
/// for a table an opening brace, the indentation, the entries in some
/// order, each once, and a closing brace. A table that lies deeper than
/// `depth` is cut short to three dots.
pub open spec fn written<A: Arithmetic>(
    numbers: &A,
    value: Option<Value>,
    heap: Seq<ObjView>,
    indent: usize,
    depth: nat,
    text: Seq<char>,
) -> bool
    decreases depth,
{
    match shown(numbers, value, heap) {
        Some(t) => text == t,
        None => {
            let table = heap[value->Some_0->Obj_idx as int]->Table_0;
            let head = "{\n"@ + indented(indent as nat) + "  "@;
            if depth == 0 {
                text == head + "..."@ + "}"@
            } else {
                exists|pairs: Seq<(Seq<char>, Value)>, texts: Seq<Seq<char>>|
                    #![trigger laid_out(pairs, texts)]
                    {
                        &&& laid_out(pairs, texts)
                        &&& walks(table, pairs)
                        &&& texts.len() == pairs.len()
                        &&& forall|i: int|
                            0 <= i < pairs.len() ==> written(
                                numbers,
                                Some(pairs[i].1),
                                heap,
                                deeper(indent),
                                (depth - 1) as nat,
                                #[trigger] texts[i],
                            )
                        &&& text == head + entries_text(pairs, texts, pairs.len() as int) + "}"@
                    }
            }
        },
    }
}

/// What is written of the first entries does not depend on the texts of
/// the later ones.
proof fn entries_text_of_prefix(
    pairs: Seq<(Seq<char>, Value)>,
    a: Seq<Seq<char>>,
    b: Seq<Seq<char>>,
    upto: int,
)
    requires
        upto <= a.len(),
        upto <= b.len(),
        forall|k: int| 0 <= k < upto ==> a[k] == b[k],
    ensures
        entries_text(pairs, a, upto) == entries_text(pairs, b, upto),
    decreases upto,
{
    if upto > 0 {
        entries_text_of_prefix(pairs, a, b, upto - 1);
    }
}

/// The text that `value` is printed as, with the objects of `heap`, for a
/// value that lies at most `depth` tables deep; what lies deeper is cut
/// short. A table is written over several lines, `indent` levels in.
pub fn format_in<A: Arithmetic>(
    heap: &Vec<Obj>,
    value: Option<Value>,
    indent: usize,
    depth: usize,
    numbers: &A,
) -> (r: String)
    ensures
        shown(numbers, value, heap_view(heap@)) matches Some(text) ==> r@ == text,
        written(numbers, value, heap_view(heap@), indent, depth as nat, r@),
    decreases depth,
{
    match value {
        None => String::from_str("nil"),
        Some(Value::Nil) => String::from_str("nil"),
        Some(Value::Boolean(true)) => String::from_str("true"),
        Some(Value::Boolean(false)) => String::from_str("false"),
        Some(Value::Number(n)) => numbers.render(n),
        Some(Value::Obj { idx }) => {
            if idx >= heap.len() {
                return String::from_str("nil");
            }
            match &heap[idx] {
                Obj::String(s) => s.clone(),
                Obj::HashTable { entries } => {
                    let ghost table = entries.entries();
                    assert(heap_view(heap@)[idx as int] == ObjView::Table(table));
                    let mut ret = String::from_str("{\n");
                    let mut k: usize = 0;
                    assert(ret@ =~= "{\n"@ + indented(0));
                    while k < indent
                        invariant
                            k <= indent,
                            ret@ == "{\n"@ + indented(k as nat),
                        decreases indent - k,
                    {
                        ret.append("  ");
                        k += 1;
                        assert(ret@ =~= "{\n"@ + indented(k as nat));
                    }
                    ret.append("  ");
                    let ghost head = "{\n"@ + indented(indent as nat) + "  "@;
                    if depth == 0 {
                        ret.append("...");
                    } else {
                        let pairs = entries.pairs();
                        let ghost walked = Seq::new(
                            pairs@.len(),
                            |i: int| (pairs@[i].0@, pairs@[i].1),
                        );
                        let ghost mut texts: Seq<Seq<char>> = Seq::empty();
                        let inner = if indent <= usize::MAX - 2 {
                            indent + 2
                        } else {
                            indent
                        };
                        let mut i: usize = 0;
                        assert(ret@ =~= head + entries_text(walked, texts, 0));
                        while i < pairs.len()
                            invariant
                                i <= pairs@.len(),
                                depth > 0,
                                inner == deeper(indent),
                                walked.len() == pairs@.len(),
                                forall|j: int|
                                    0 <= j < pairs@.len() ==> #[trigger] walked[j] == (
                                        pairs@[j].0@,
                                        pairs@[j].1,
                                    ),
                                texts.len() == i,
                                forall|j: int|
                                    0 <= j < i ==> written(
                                        numbers,
                                        Some(walked[j].1),
                                        heap_view(heap@),
                                        inner,
                                        (depth - 1) as nat,
                                        #[trigger] texts[j],
                                    ),
                                ret@ == head + entries_text(walked, texts, i as int),
                            decreases pairs@.len() - i,
                        {
                            ret.append(pairs[i].0.as_str());
                            ret.append(": ");
                            let nested = format_in(
                                heap,
                                Some(pairs[i].1),
                                inner,
                                depth - 1,
                                numbers,
                            );
                            ret.append(nested.as_str());
                            proof {
                                let before = texts;
                                texts = texts.push(nested@);
                                entries_text_of_prefix(walked, before, texts, i as int);
                                assert(ret@ =~= head + entries_text(walked, texts, i + 1));
                                assert forall|j: int| 0 <= j < i + 1 implies written(
                                    numbers,
                                    Some(walked[j].1),
                                    heap_view(heap@),
                                    inner,
                                    (depth - 1) as nat,
                                    #[trigger] texts[j],
                                ) by {
                                    if j < i {
                                        assert(texts[j] == before[j]);
                                    }
                                }
                            }
                            i += 1;
                        }
                        proof {
                            assert(walks(table, walked));
                            assert(laid_out(walked, texts));
                        }
                    }
                    ret.append("}");
                    ret
                },
            }
        },
    }
}

impl VM {
    pub closed spec fn code(&self) -> Seq<OpCode> {
        self.chunk.code@
    }

    pub closed spec fn constants(&self) -> Seq<Value> {
        self.chunk.values@
    }

    pub closed spec fn heap(&self) -> Seq<ObjView> {
        heap_view(self.chunk.heap@)
    }

    /// The source line of every instruction.
    pub closed spec fn lines(&self) -> Seq<usize> {
        self.chunk.lines.lines()
    }

    /// The index of the instruction that is executed next.
    pub closed spec fn ip(&self) -> int {
        self.ip as int
    }

    /// The value stack, the top last.
    pub closed spec fn stack(&self) -> Seq<Value> {
        self.stack@
    }

    /// The lines printed so far.
    pub closed spec fn printed(&self) -> Seq<Seq<char>> {
        Seq::new(self.printed@.len(), |i: int| self.printed@[i]@)
    }

    /// The step that the next instruction comes to, if there is one.
    pub open spec fn next_step(&self) -> Option<Step> {
        if 0 <= self.ip() < self.code().len() {
            Some(step_of(self.code()[self.ip()], self.stack(), self.constants(), self.heap()))
        } else {
            None
        }
    }

    pub fn new() -> (r: VM)
        ensures
            r.code().len() == 0,
            r.stack().len() == 0,
            r.printed().len() == 0,
            r.ip() == 0,
    {
        let r = VM { chunk: Chunk::new(), ip: 0, stack: VecDeque::new(), printed: Vec::new() };
        assert(r.printed() =~= Seq::empty());
        r
    }

    /// The machine that is about to run `chunk` from its first instruction.
    pub fn load(chunk: Chunk) -> (r: VM)
        ensures
            r.code() == chunk.code@,
            r.constants() == chunk.values@,
            r.heap() == heap_view(chunk.heap@),
            r.stack().len() == 0,
            r.printed().len() == 0,
            r.ip() == 0,
    {
        let r = VM { chunk, ip: 0, stack: VecDeque::new(), printed: Vec::new() };
        assert(r.printed() =~= Seq::empty());
        r
    }

    /// Compiles `source` and runs it from the first instruction.
    pub fn interpret<A: Arithmetic>(&mut self, source: &str, numbers: &A) -> (r: Result<
        (),
        Error,
    >)
        ensures
            old(self).printed().is_prefix_of(final(self).printed()),
            final(self).printed().len() <= old(self).printed().len() + 1,
            compiled(numbers, source@) is None ==> r is Err && r->Err_0 is Compiler && final(self).printed()
                == old(self).printed(),
            compiled(numbers, source@) matches Some(e) ==> !(r is Err && r->Err_0 is Compiler)
                && exists|start: VM| #[trigger]
                    loaded(start, e, old(self).printed()) && ran(numbers, start, *final(self), r),
    {
        match self.compile(source, numbers) {
            Ok(chunk) => {
                self.chunk = chunk;
            },
            Err(e) => {
                return Err(e);
            },
        }
        self.ip = 0;
        self.stack = VecDeque::new();
        let ghost start = *self;
        assert(loaded(start, compiled(numbers, source@)->Some_0, old(self).printed()));
        self.run(numbers)
    }

    fn compile<A: Arithmetic>(&self, source: &str, numbers: &A) -> (r: Result<Chunk, Error>)
        ensures
            r is Ok <==> compiled(numbers, source@) is Some,
            r is Ok ==> emitted_of(r->Ok_0) == compiled(numbers, source@)->Some_0,
            r is Ok ==> r->Ok_0.wf() && r->Ok_0.sound(),
            r is Err ==> r->Err_0 is Compiler,
    {
        let compiler = Compiler::new(source);
        compiler.compile(numbers)
    }

    /// The lines printed so far; the machine keeps none of them.
    pub fn take_output(&mut self) -> (r: Vec<String>)
        ensures
            r@.len() == old(self).printed().len(),
            forall|i: int| 0 <= i < r@.len() ==> #[trigger] r@[i]@ == old(self).printed()[i],
            final(self).printed().len() == 0,
            final(self).code() == old(self).code(),
            final(self).constants() == old(self).constants(),
            final(self).heap() == old(self).heap(),
            final(self).stack() == old(self).stack(),
            final(self).ip() == old(self).ip(),
    {
        let mut out: Vec<String> = Vec::new();
        std::mem::swap(&mut self.printed, &mut out);
        out
    }

    /// The source line of the instruction that was executed last.
    pub fn line(&self) -> (r: Option<usize>)
        ensures
            self.ip() == 0 ==> r is None,
            0 < self.ip() <= self.lines().len() ==> r == Some(self.lines()[self.ip() - 1]),
    {
        if self.ip == 0 {
            None
        } else {
            self.chunk.line_of(self.ip - 1)
        }
    }

    /// Whether the two values on top of the stack are of one kind.
    fn operands_match(&self) -> (r: bool)
        ensures
            r == (self.stack().len() >= 2 && self.stack()[self.stack().len() - 2].same_kind(
                self.stack()[self.stack().len() - 1],
            )),
    {
        let n = self.stack.len();
        n >= 2 && self.stack[n - 2].matches_kind(&self.stack[n - 1])
    }

    fn is_string(&self, idx: usize) -> (r: bool)
        ensures
            r == is_text(self.heap(), idx),
    {
        if idx < self.chunk.heap.len() {
            match &self.chunk.heap[idx] {
                Obj::String(_) => true,
                _ => false,
            }
        } else {
            false
        }
    }

    /// The step of an arithmetic instruction with the operands on the stack.
    fn arithmetic(&self, op: ArithOp) -> (r: Step)
        ensures
            op != ArithOp::Add ==> r == arith_step(op, self.stack()),
            op == ArithOp::Add ==> r == step_of(
                OpCode::Add,
                self.stack(),
                self.constants(),
                self.heap(),
            ),
    {
        if !self.operands_match() {
            return Step::Fault { fault: Fault::Unmatched(op) };
        }
        let n = self.stack.len();
        match (self.stack[n - 2], self.stack[n - 1]) {
            (Value::Number(l), Value::Number(r)) => Step::Arith { op, lhs: l, rhs: r },
            (Value::Obj { idx: l }, Value::Obj { idx: r }) => {
                if op == ArithOp::Add && self.is_string(l) && self.is_string(r) {
                    Step::Concat { left: l, right: r }
                } else {
                    Step::Fault { fault: Fault::Unsupported }
                }
            },
            _ => Step::Fault { fault: Fault::Unsupported },
        }
    }

    /// Whether the two values on top of the stack are numbers.
    fn numbers_on_top(&self) -> (r: bool)
        ensures
            r == (self.stack().len() >= 2 && self.stack()[self.stack().len() - 2] is Number
                && self.stack()[self.stack().len() - 1] is Number),
    {
        let n = self.stack.len();
        if n < 2 {
            return false;
        }
        match (self.stack[n - 2], self.stack[n - 1]) {
            (Value::Number(_), Value::Number(_)) => true,
            _ => false,
        }
    }

    /// The step that the next instruction comes to.
    pub fn plan(&self) -> (r: Option<Step>)
        ensures
            r == self.next_step(),
    {
        if self.ip >= self.chunk.code.len() {
            return None;
        }
        let n = self.stack.len();
        let step = match self.chunk.code[self.ip] {
            OpCode::Constant { idx } => {
                if idx < self.chunk.values.len() {
                    Step::Push { pops: 0, value: self.chunk.values[idx] }
                } else {
                    Step::Fault { fault: Fault::Dangling }
                }
            },
            OpCode::True => Step::Push { pops: 0, value: Value::Boolean(true) },
            OpCode::False => Step::Push { pops: 0, value: Value::Boolean(false) },
            OpCode::Nil => Step::Push { pops: 0, value: Value::Nil },
            OpCode::Return => Step::Halt {
                value: if n >= 1 {
                    Some(self.stack[n - 1])
                } else {
                    None
                },
            },
            OpCode::Negate => {
                if n >= 1 {
                    match self.stack[n - 1] {
                        Value::Number(_) => Step::Push { pops: 1, value: self.stack[n - 1].neg() },
                        _ => Step::Fault { fault: Fault::NegateOperand },
                    }
                } else {
                    Step::Fault { fault: Fault::NegateOperand }
                }
            },
            OpCode::Not => {
                if n >= 1 {
                    Step::Push { pops: 1, value: self.stack[n - 1].not() }
                } else {
                    Step::Fault { fault: Fault::NotOperand }
                }
            },
            OpCode::Add => self.arithmetic(ArithOp::Add),
            OpCode::Sub => self.arithmetic(ArithOp::Sub),
            OpCode::Mul => self.arithmetic(ArithOp::Mul),
            OpCode::Div => self.arithmetic(ArithOp::Div),
            OpCode::Eq => {
                if n < 2 {
                    Step::Fault { fault: Fault::MissingOperand }
                } else {
                    match (self.stack[n - 2], self.stack[n - 1]) {
                        (Value::Obj { idx: l }, Value::Obj { idx: r }) => {
                            if l < self.chunk.heap.len() && r < self.chunk.heap.len() {
                                Step::Push {
                                    pops: 2,
                                    value: Value::Boolean(
                                        self.chunk.heap[l].equals(&self.chunk.heap[r]),
                                    ),
                                }
                            } else {
                                Step::Fault { fault: Fault::Dangling }
                            }
                        },
                        (l, r) => Step::Push { pops: 2, value: Value::Boolean(l == r) },
                    }
                }
            },
            OpCode::Less => {
                if self.numbers_on_top() {
                    Step::Push {
                        pops: 2,
                        value: Value::Boolean(self.stack[n - 2].less(&self.stack[n - 1])),
                    }
                } else {
                    Step::Fault { fault: Fault::Compare }
                }
            },
            OpCode::Gtr => {
                if self.numbers_on_top() {
                    Step::Push {
                        pops: 2,
                        value: Value::Boolean(self.stack[n - 2].greater(&self.stack[n - 1])),
                    }
                } else {
                    Step::Fault { fault: Fault::Compare }
                }
            },
        };
        Some(step)
    }

    /// Takes the top `count` values off the stack.
    fn pop_operands(&mut self, count: usize)
        requires
            count <= old(self).stack().len(),
        ensures
            final(self).stack() == old(self).stack().take(old(self).stack().len() - count),
            final(self).chunk == old(self).chunk,
            final(self).ip() == old(self).ip(),
            final(self).printed() == old(self).printed(),
    {
        let mut k: usize = 0;
        while k < count
            invariant
                k <= count <= old(self).stack().len(),
                self.stack() == old(self).stack().take(old(self).stack().len() - k),
                self.chunk == old(self).chunk,
                self.ip() == old(self).ip(),
                self.printed() == old(self).printed(),
            decreases count - k,
        {
            let _ = self.stack.pop_back();
            k += 1;
            assert(self.stack() =~= old(self).stack().take(old(self).stack().len() - k));
        }
        assert(old(self).stack().take(old(self).stack().len() as int) =~= old(self).stack());
    }

    /// Executes the next instruction. Returns whether the machine goes on:
    /// it does not once it has printed its result, or where no instruction
    /// is left.
    pub fn step<A: Arithmetic>(&mut self, numbers: &A) -> (r: Result<bool, Error>)
        ensures
            final(self).code() == old(self).code(),
            final(self).constants() == old(self).constants(),
            old(self).heap().is_prefix_of(final(self).heap()),
            old(self).printed().is_prefix_of(final(self).printed()),
            stepped(numbers, *old(self), *final(self), r),
    {
        let n = self.stack.len();
        let ghost before = *self;
        let planned = self.plan();
        if self.ip < self.chunk.code.len() {
            self.ip += 1;
        }
        match planned {
            None => Ok(false),
            Some(Step::Push { pops, value }) => {
                self.pop_operands(pops);
                self.stack.push_back(value);
                Ok(true)
            },
            Some(Step::Arith { op, lhs, rhs }) => {
                let answer = numbers.apply(op, lhs, rhs);
                self.pop_operands(2);
                self.stack.push_back(Value::Number(answer));
                assert(self.stack().take(n - 2) =~= before.stack().take(n - 2));
                Ok(true)
            },
            Some(Step::Concat { left, right }) => {
                let text = match (&self.chunk.heap[left], &self.chunk.heap[right]) {
                    (Obj::String(l), Obj::String(r)) => l.clone().concat(r.as_str()),
                    _ => String::new(),
                };
                let idx = self.chunk.add_obj(Obj::String(text));
                self.pop_operands(2);
                self.stack.push_back(Value::Obj { idx });
                assert(self.heap() =~= before.heap().push(
                    ObjView::Text(
                        before.heap()[left as int]->Text_0 + before.heap()[right as int]->Text_0,
                    ),
                ));
                Ok(true)
            },
            Some(Step::Halt { value }) => {
                if value.is_some() {
                    self.pop_operands(1);
                }
                let line = self.format_value(value, 0, numbers);
                self.printed.push(line);
                assert(self.printed().drop_last() =~= before.printed());
                assert(before.printed() =~= self.printed().take(before.printed().len() as int));
                Ok(false)
            },
            Some(Step::Fault { fault }) => {
                Err(self.runtime_error(fault))
            },
        }
    }

    /// Executes instructions until one prints the result, one fails, or none
    /// is left.
    pub fn run<A: Arithmetic>(&mut self, numbers: &A) -> (r: Result<(), Error>)
        ensures
            final(self).code() == old(self).code(),
            final(self).constants() == old(self).constants(),
            old(self).heap().is_prefix_of(final(self).heap()),
            old(self).printed().is_prefix_of(final(self).printed()),
            final(self).printed().len() <= old(self).printed().len() + 1,
            r is Err ==> r->Err_0 is Runtime && final(self).printed() == old(self).printed(),
            ran(numbers, *old(self), *final(self), r),
    {
        let ghost mut trace: Seq<VM> = seq![*self];
        loop
            invariant
                self.code() == old(self).code(),
                self.constants() == old(self).constants(),
                old(self).heap().is_prefix_of(self.heap()),
                self.printed() == old(self).printed(),
                goes_on(numbers, trace),
                trace[0] == *old(self),
                trace.last() == *self,
            decreases self.code().len() - self.ip(),
        {
            let ghost before = *self;
            if self.ip >= self.chunk.code.len() {
                assert(ended(numbers, before, *self, Ok(false), Ok(())));
                return Ok(());
            }
            match self.step(numbers) {
                Ok(true) => {
                    proof {
                        trace = trace.push(*self);
                    }
                },
                Ok(false) => {
                    assert(ended(numbers, before, *self, Ok(false), Ok(())));
                    return Ok(());
                },
                Err(e) => {
                    assert(ended(numbers, before, *self, Err(e), Err(e)));
                    return Err(e);
                },
            }
        }
    }

    /// The text that `value` is printed as; no value prints as `nil`.
    pub fn format_value<A: Arithmetic>(&self, value: Option<Value>, indent: usize, numbers: &A) -> (r:
        String)
        ensures
            shown(numbers, value, self.heap()) matches Some(text) ==> r@ == text,
            written(numbers, value, self.heap(), indent, self.heap().len(), r@),
    {
        format_in(&self.chunk.heap, value, indent, self.chunk.heap.len(), numbers)
    }

    fn runtime_error(&self, fault: Fault) -> (r: Error)
        ensures
            r is Runtime,
            r->Runtime_0@ == fault.text(),
    {
        Error::Runtime(String::from_str(fault.message()))
    }
}

impl Default for VM {
    fn default() -> (r: VM)
        ensures
            r.code().len() == 0,
            r.stack().len() == 0,
            r.printed().len() == 0,
            r.ip() == 0,
    {
        VM::new()
    }
}

/// The lines of `out` as sequences of characters.
pub open spec fn lines_of(out: Vec<String>) -> Seq<Seq<char>> {
    Seq::new(out@.len(), |i: int| out@[i]@)
}

/// What is left of `r` once the printed lines are taken away.
pub open spec fn without_lines(r: Result<Vec<String>, Error>) -> Result<(), Error> {
    match r {
        Ok(_) => Ok(()),
        Err(e) => Err(e),
    }
}

/// What running the source text `source` on a fresh machine comes to: a
/// source that does not compile gives a compiler error; any other is
/// compiled and loaded into a machine that has printed nothing, the
/// machine runs, and where the run succeeds the lines that it has printed
/// are returned.
pub open spec fn outcome_of<A: Arithmetic>(numbers: &A, source: Seq<char>, r: Result<Vec<String>, Error>) -> bool {
    match compiled(numbers, source) {
        None => r is Err && r->Err_0 is Compiler,
        Some(e) => exists|start: VM, end: VM|
            #![trigger ran(numbers, start, end, without_lines(r))]
            loaded(start, e, Seq::empty()) && ran(numbers, start, end, without_lines(r)) && (r is Ok
                ==> lines_of(r->Ok_0) == end.printed()),
    }
}

/// Compiles `source` and runs it on a fresh machine; returns what was
/// printed.
pub fn interpret<A: Arithmetic>(source: &str, numbers: &A) -> (r: Result<Vec<String>, Error>)
    ensures
        outcome_of(numbers, source@, r),
        r is Ok ==> r->Ok_0@.len() <= 1,
{
    let mut vm = VM::new();
    assert(vm.printed() =~= Seq::empty());
    match vm.interpret(source, numbers) {
        Ok(_) => {
            let ghost end = vm;
            let out = vm.take_output();
            proof {
                assert(lines_of(out) =~= end.printed());
                if compiled(numbers, source@) is Some {
                    let e = compiled(numbers, source@)->Some_0;
                    let start = choose|start: VM| #[trigger]
                        loaded(start, e, Seq::empty()) && ran(numbers, start, end, Ok(()));
                    assert(ran(numbers, start, end, without_lines(Ok(out))));
                }
            }
            Ok(out)
        },
        Err(e) => {
            proof {
                let end = vm;
                if compiled(numbers, source@) is Some {
                    let em = compiled(numbers, source@)->Some_0;
                    let start = choose|start: VM| #[trigger]
                        loaded(start, em, Seq::empty()) && ran(numbers, start, end, Err(e));
                    assert(ran(numbers, start, end, without_lines(Err(e))));
                }
            }
            Err(e)
        },
    }
}

/// What a session without a script runs: the expression `"yes" + "no"`.
pub fn repl<A: Arithmetic>(numbers: &A) -> (r: Result<Vec<String>, Error>)
    ensures
        outcome_of(numbers, "\"yes\" + \"no\""@, r),
        r is Ok ==> r->Ok_0@.len() <= 1,
{
    interpret("\"yes\" + \"no\"", numbers)
}

} // verus!
