//! Where the two interpreters meet: the operators of the stack machine and
//! those of the tree walker, held against each other on values that stand
//! for one another.

use vstd::prelude::*;
use crate::bytecode::compiler::{apply_prefix, binary_code, pooled, prefix_rule, Emitted, Rule};
use crate::bytecode::scanner::Tok;
use crate::treewalk::expr::Literal;
use crate::treewalk::grammar::literal_of;
use crate::treewalk::scanner::lexeme_of;
use crate::treewalk::semantics::literal_value;
use crate::bytecode::op::OpCode;
use crate::bytecode::scanner::TokenType;
use crate::bytecode::value::ObjView;
use crate::bytecode::vm::{is_text, step_of, Step};
use crate::number::Arithmetic;
use crate::treewalk::interpreter::{binary_outcome, unary_outcome, Outcome};
use crate::treewalk::scanner::lifted_kind;

verus! {

/// Whether the machine's value `b`, with the heap `heap`, stands for the
/// tree walker's value `t`: a number, a boolean or `nil` for itself, and a
/// handle for the string whose text the heap holds under it.
pub open spec fn stands_for(
    b: crate::bytecode::value::Value,
    heap: Seq<ObjView>,
    t: crate::treewalk::value::Value,
) -> bool {
    match (b, t) {
        (crate::bytecode::value::Value::Number(x), crate::treewalk::value::Value::Number(y)) => x
            == y,
        (crate::bytecode::value::Value::Boolean(x), crate::treewalk::value::Value::Bool(y)) => x
            == y,
        (crate::bytecode::value::Value::Nil, crate::treewalk::value::Value::Nil) => true,
        (crate::bytecode::value::Value::Obj { idx }, crate::treewalk::value::Value::String(s)) => idx
            < heap.len() && heap[idx as int] == ObjView::Text(s@),
        _ => false,
    }
}

/// Whether the machine's step `step`, followed by the instruction `second`
/// where there is one, answers to the tree walker's outcome `outcome`: both
/// give values that stand for one another, both join the same two texts,
/// both ask the embedding program for the same arithmetic, or both fail.
pub open spec fn answers(
    step: Step,
    second: Option<OpCode>,
    values: Seq<crate::bytecode::value::Value>,
    heap: Seq<ObjView>,
    outcome: Outcome,
) -> bool {
    match outcome {
        Outcome::Is(v) => step is Push && match second {
            None => stands_for(step->Push_value, heap, v),
            Some(op) => step_of(op, seq![step->Push_value], values, heap) is Push && stands_for(
                step_of(op, seq![step->Push_value], values, heap)->Push_value,
                heap,
                v,
            ),
        },
        Outcome::Text(t) => second is None && step is Concat && is_text(heap, step->Concat_left)
            && is_text(heap, step->Concat_right) && heap[step->Concat_left as int]->Text_0
            + heap[step->Concat_right as int]->Text_0 == t,
        Outcome::Arith { op, lhs, rhs } => second is None && step == (Step::Arith { op, lhs, rhs }),
        Outcome::Invalid => step is Fault,
    }
}

/// Every binary operator comes to the same on both paths: where the
/// operands of the machine stand for those of the tree walker, the
/// instructions that the operator is compiled to answer to what the tree
/// walker makes of it.
pub proof fn binary_operators_agree(
    kind: TokenType,
    bl: crate::bytecode::value::Value,
    br: crate::bytecode::value::Value,
    tl: crate::treewalk::value::Value,
    tr: crate::treewalk::value::Value,
    values: Seq<crate::bytecode::value::Value>,
    heap: Seq<ObjView>,
)
    requires
        binary_code(kind) is Some,
        stands_for(bl, heap, tl),
        stands_for(br, heap, tr),
    ensures
        answers(
            step_of(binary_code(kind)->Some_0.0, seq![bl, br], values, heap),
            binary_code(kind)->Some_0.1,
            values,
            heap,
            binary_outcome(lifted_kind(kind), tl, tr),
        ),
{
}

/// Every literal comes to the same on both paths: the instruction that
/// a number, a string, `true`, `false` or `nil` is compiled to pushes a
/// value that stands for what the tree walker makes of the same token. A
/// number is read from the same text on both paths, and a string is the
/// text between the same quotes.
pub proof fn literals_agree<A: Arithmetic>(
    numbers: &A,
    prev: Tok,
    s: Seq<Tok>,
    e: Emitted,
    values: Seq<crate::bytecode::value::Value>,
    stack: Seq<crate::bytecode::value::Value>,
    lit: Literal,
    rv: Result<crate::treewalk::value::Value, crate::treewalk::error::Error>,
)
    requires
        s.len() > 0,
        e.pool.len() < usize::MAX,
        e.heap.len() < usize::MAX,
        prefix_rule(prev.kind) is Some,
        prefix_rule(prev.kind) != Some(Rule::Grouping),
        prefix_rule(prev.kind) != Some(Rule::Unary),
        literal_of(lexeme_of(prev)) == Some(lit.model()),
        literal_value(numbers, lit, rv),
        values.len() == written_for(numbers, prev, s, e).pool.len(),
        forall|i: int|
            0 <= i < values.len() ==> pooled(#[trigger] values[i]) == written_for(
                numbers,
                prev,
                s,
                e,
            ).pool[i],
    ensures
        rv is Ok,
        written_for(numbers, prev, s, e).code.len() == e.code.len() + 1,
        step_of(
            written_for(numbers, prev, s, e).code.last(),
            stack,
            values,
            written_for(numbers, prev, s, e).heap,
        ) is Push,
        stands_for(
            step_of(
                written_for(numbers, prev, s, e).code.last(),
                stack,
                values,
                written_for(numbers, prev, s, e).heap,
            )->Push_value,
            written_for(numbers, prev, s, e).heap,
            rv->Ok_0,
        ),
{
    let e1 = written_for(numbers, prev, s, e);
    if prefix_rule(prev.kind) != Some(Rule::Literal) {
        let at = e.pool.len() as int;
        assert(e1.pool.len() == at + 1);
        assert(pooled(values[at]) == e1.pool[at]);
    }
}

/// What the compiler has written once it has compiled the literal `prev`.
pub open spec fn written_for<A: Arithmetic>(numbers: &A, prev: Tok, s: Seq<Tok>, e: Emitted) -> Emitted {
    apply_prefix(numbers, prefix_rule(prev.kind)->Some_0, prev, s, e)->Some_0.0
}

/// `-` and `!` come to the same on both paths: where the operand of the
/// machine stands for that of the tree walker, `Negate` answers to what the
/// tree walker makes of `-`, and `Not` to what it makes of `!`.
pub proof fn unary_operators_agree(
    b: crate::bytecode::value::Value,
    t: crate::treewalk::value::Value,
    values: Seq<crate::bytecode::value::Value>,
    heap: Seq<ObjView>,
)
    requires
        stands_for(b, heap, t),
    ensures
        answers(
            step_of(OpCode::Negate, seq![b], values, heap),
            None,
            values,
            heap,
            unary_outcome(crate::treewalk::token::Kind::Minus, t),
        ),
        answers(
            step_of(OpCode::Not, seq![b], values, heap),
            None,
            values,
            heap,
            unary_outcome(crate::treewalk::token::Kind::Bang, t),
        ),
{
}

/// Values that stand for one another are printed alike.
pub proof fn printed_alike<A: Arithmetic>(
    numbers: &A,
    b: crate::bytecode::value::Value,
    t: crate::treewalk::value::Value,
    heap: Seq<ObjView>,
)
    requires
        stands_for(b, heap, t),
    ensures
        crate::bytecode::vm::shown(numbers, Some(b), heap) == crate::treewalk::interpreter::shown(numbers, t),
{
}

} // verus!
