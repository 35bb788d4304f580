//! A unit of bytecode and the run-length table of its source lines.

use vstd::prelude::*;
use crate::bytecode::op::OpCode;
use crate::bytecode::value::Obj;
use crate::bytecode::value::Value;

verus! {

/// `len` consecutive instructions that stem from line `value`.
#[derive(Debug)]
pub struct RunLength {
    value: usize,
    len: usize,
}

/// The source line of every instruction, stored as runs of equal lines.
#[derive(Debug)]
pub struct RunList {
    values: Vec<RunLength>,
}

/// The lines that a sequence of runs stands for.
pub open spec fn expand(runs: Seq<(usize, usize)>) -> Seq<usize>
    decreases runs.len(),
{
    if runs.len() == 0 {
        Seq::empty()
    } else {
        expand(runs.drop_last()) + Seq::new(runs.last().1 as nat, |i: int| runs.last().0)
    }
}

/// The line at `idx`, found by walking the runs from the first and counting
/// the instructions passed; `None` where `idx` lies behind the last run.
pub open spec fn decode(runs: Seq<(usize, usize)>, idx: int) -> Option<usize>
    decreases runs.len(),
{
    if runs.len() == 0 {
        None
    } else if idx < runs[0].1 {
        Some(runs[0].0)
    } else {
        decode(runs.drop_first(), idx - runs[0].1)
    }
}

/// The runs after one more instruction from line `line`: the last run grows
/// where it is of that line and can still count, else a new run starts.
pub open spec fn append_line(runs: Seq<(usize, usize)>, line: usize) -> Seq<(usize, usize)> {
    if runs.len() > 0 && runs.last().0 == line && runs.last().1 < usize::MAX {
        runs.drop_last().push((line, (runs.last().1 + 1) as usize))
    } else {
        runs.push((line, 1usize))
    }
}

proof fn expand_append(runs: Seq<(usize, usize)>, line: usize)
    ensures
        expand(append_line(runs, line)) == expand(runs).push(line),
{
    let next = append_line(runs, line);
    if runs.len() > 0 && runs.last().0 == line && runs.last().1 < usize::MAX {
        assert(next.drop_last() =~= runs.drop_last());
        assert(expand(next) =~= expand(runs).push(line));
    } else {
        assert(next.drop_last() =~= runs);
        assert(expand(next) =~= expand(runs).push(line));
    }
}

proof fn expand_first(runs: Seq<(usize, usize)>)
    requires
        runs.len() > 0,
    ensures
        expand(runs) == Seq::new(runs[0].1 as nat, |i: int| runs[0].0) + expand(runs.drop_first()),
    decreases runs.len(),
{
    let head = Seq::new(runs[0].1 as nat, |i: int| runs[0].0);
    if runs.len() == 1 {
        assert(runs.drop_last() =~= Seq::empty());
        assert(runs.drop_first() =~= Seq::empty());
        assert(expand(runs) =~= head + expand(runs.drop_first()));
    } else {
        expand_first(runs.drop_last());
        assert(runs.drop_last().drop_first() =~= runs.drop_first().drop_last());
        assert(runs.drop_last()[0] == runs[0]);
        assert(runs.drop_first().last() == runs.last());
        assert(expand(runs) =~= head + expand(runs.drop_first()));
    }
}

/// Walking the runs finds, at every index, the line that was recorded there,
/// and finds nothing behind the last one.
pub proof fn decode_finds_recorded_line(runs: Seq<(usize, usize)>, idx: int)
    requires
        0 <= idx,
    ensures
        idx < expand(runs).len() ==> decode(runs, idx) == Some(expand(runs)[idx]),
        idx >= expand(runs).len() ==> decode(runs, idx) is None,
    decreases runs.len(),
{
    if runs.len() > 0 {
        expand_first(runs);
        if idx >= runs[0].1 {
            decode_finds_recorded_line(runs.drop_first(), idx - runs[0].1);
        }
    }
}

/// Recording the lines of `lines` one after another, from an empty table,
/// and decoding any index gives the line recorded at that index.
pub proof fn decode_after_pushes(lines: Seq<usize>, idx: int)
    requires
        0 <= idx < lines.len(),
    ensures
        expand(encode(lines)) == lines,
        decode(encode(lines), idx) == Some(lines[idx]),
{
    encode_expands(lines);
    decode_finds_recorded_line(encode(lines), idx);
}

/// The runs that recording `lines` one by one builds.
pub open spec fn encode(lines: Seq<usize>) -> Seq<(usize, usize)>
    decreases lines.len(),
{
    if lines.len() == 0 {
        Seq::empty()
    } else {
        append_line(encode(lines.drop_last()), lines.last())
    }
}

proof fn encode_expands(lines: Seq<usize>)
    ensures
        expand(encode(lines)) == lines,
    decreases lines.len(),
{
    if lines.len() == 0 {
        assert(expand(encode(lines)) =~= lines);
    } else {
        encode_expands(lines.drop_last());
        expand_append(encode(lines.drop_last()), lines.last());
        assert(lines.drop_last().push(lines.last()) =~= lines);
    }
}

impl RunList {
    /// The runs as pairs of line and length.
    pub closed spec fn runs(&self) -> Seq<(usize, usize)> {
        Seq::new(self.values@.len(), |i: int| (self.values@[i].value, self.values@[i].len))
    }

    /// The line of every instruction, in the order of recording.
    pub open spec fn lines(&self) -> Seq<usize> {
        expand(self.runs())
    }

    pub fn new() -> (r: RunList)
        ensures
            r.runs() == Seq::<(usize, usize)>::empty(),
            r.lines() == Seq::<usize>::empty(),
    {
        let r = RunList { values: Vec::new() };
        assert(r.runs() =~= Seq::empty());
        r
    }

    /// Records the line of one more instruction.
    pub fn push(&mut self, i: usize)
        ensures
            final(self).runs() == append_line(old(self).runs(), i),
            final(self).lines() == old(self).lines().push(i),
    {
        let n = self.values.len();
        proof {
            expand_append(self.runs(), i);
        }
        if n > 0 && self.values[n - 1].value == i && self.values[n - 1].len < usize::MAX {
            let grown = RunLength { value: i, len: self.values[n - 1].len + 1 };
            self.values.set(n - 1, grown);
            assert(self.runs() =~= append_line(old(self).runs(), i));
        } else {
            self.values.push(RunLength { value: i, len: 1 });
            assert(self.runs() =~= append_line(old(self).runs(), i));
        }
    }

    /// The line of the instruction at `idx`, or `None` where no instruction
    /// was recorded there.
    pub fn get(&self, idx: usize) -> (r: Option<usize>)
        ensures
            r == decode(self.runs(), idx as int),
            idx < self.lines().len() ==> r == Some(self.lines()[idx as int]),
            idx >= self.lines().len() ==> r is None,
    {
        proof {
            decode_finds_recorded_line(self.runs(), idx as int);
        }
        let mut rest: usize = idx;
        let mut k: usize = 0;
        assert(self.runs().subrange(0, self.runs().len() as int) =~= self.runs());
        while k < self.values.len()
            invariant
                k <= self.values.len(),
                rest <= idx,
                idx < self.lines().len() ==> decode(self.runs(), idx as int) == Some(
                    self.lines()[idx as int],
                ),
                idx >= self.lines().len() ==> decode(self.runs(), idx as int) is None,
                decode(self.runs(), idx as int) == decode(
                    self.runs().subrange(k as int, self.runs().len() as int),
                    rest as int,
                ),
            decreases self.values.len() - k,
        {
            let ghost tail = self.runs().subrange(k as int, self.runs().len() as int);
            assert(tail[0] == (self.values@[k as int].value, self.values@[k as int].len));
            assert(tail.drop_first() =~= self.runs().subrange(
                k + 1,
                self.runs().len() as int,
            ));
            if rest < self.values[k].len {
                return Some(self.values[k].value);
            }
            rest -= self.values[k].len;
            k += 1;
        }
        assert(self.runs().subrange(k as int, self.runs().len() as int) =~= Seq::empty());
        None
    }

    /// The line of the instruction at `idx`, which must have been recorded.
    pub fn get_unchecked(&self, idx: usize) -> (r: usize)
        requires
            idx < self.lines().len(),
        ensures
            r == self.lines()[idx as int],
    {
        match self.get(idx) {
            Some(line) => line,
            None => 0,
        }
    }
}

impl Default for RunList {
    fn default() -> (r: RunList)
        ensures
            r.runs() == Seq::<(usize, usize)>::empty(),
            r.lines() == Seq::<usize>::empty(),
    {
        RunList::new()
    }
}

/// Instructions, constant pool, object heap and line table of one
/// compilation.
#[derive(Debug)]
pub struct Chunk {
    pub code: Vec<OpCode>,
    pub values: Vec<Value>,
    pub heap: Vec<Obj>,
    pub lines: RunList,
}

impl Chunk {
    /// Every instruction has its line on record.
    pub open spec fn wf(&self) -> bool {
        self.lines.lines().len() == self.code@.len()
    }

    /// Every instruction that loads a constant names one of the pool, and
    /// every handle in the pool names an object of the heap.
    pub open spec fn sound(&self) -> bool {
        &&& forall|i: int|
            0 <= i < self.code@.len() ==> (#[trigger] self.code@[i] matches OpCode::Constant {
                idx,
            } ==> idx < self.values@.len())
        &&& forall|i: int|
            0 <= i < self.values@.len() ==> (#[trigger] self.values@[i] matches Value::Obj {
                idx,
            } ==> idx < self.heap@.len())
    }

    pub fn new() -> (r: Chunk)
        ensures
            r.wf(),
            r.sound(),
            r.lines.runs() == Seq::<(usize, usize)>::empty(),
            r.code@.len() == 0,
            r.values@.len() == 0,
            r.heap@.len() == 0,
    {
        Chunk { code: Vec::new(), values: Vec::new(), heap: Vec::new(), lines: RunList::new() }
    }

    /// Appends one instruction that stems from line `line`.
    pub fn write(&mut self, byte: OpCode, line: usize)
        ensures
            final(self).code@ == old(self).code@.push(byte),
            final(self).lines.lines() == old(self).lines.lines().push(line),
            final(self).values == old(self).values,
            final(self).heap == old(self).heap,
            old(self).wf() ==> final(self).wf(),
    {
        self.code.push(byte);
        self.lines.push(line);
    }

    /// Adds a constant to the pool and returns its index.
    pub fn add_constant(&mut self, value: Value) -> (idx: usize)
        ensures
            idx == old(self).values@.len(),
            final(self).values@ == old(self).values@.push(value),
            final(self).code == old(self).code,
            final(self).heap == old(self).heap,
            final(self).lines == old(self).lines,
    {
        self.values.push(value);
        self.values.len() - 1
    }

    /// Puts an object on the heap and returns its index. The objects already
    /// there keep theirs.
    pub fn add_obj(&mut self, obj: Obj) -> (idx: usize)
        ensures
            idx == old(self).heap@.len(),
            final(self).heap@ == old(self).heap@.push(obj),
            final(self).code == old(self).code,
            final(self).values == old(self).values,
            final(self).lines == old(self).lines,
    {
        self.heap.push(obj);
        self.heap.len() - 1
    }

    /// Whether the chunk is in order: every instruction has its line on
    /// record, every instruction that loads a constant names one of the
    /// pool, and every handle in the pool names an object of the heap.
    pub fn is_sound(&self) -> (r: bool)
        ensures
            r == (self.wf() && self.sound()),
    {
        let n = self.code.len();
        if self.lines.get(n).is_some() {
            return false;
        }
        if n > 0 && self.lines.get(n - 1).is_none() {
            return false;
        }
        let mut i: usize = 0;
        while i < n
            invariant
                n == self.code@.len(),
                i <= n,
                forall|k: int|
                    0 <= k < i ==> (#[trigger] self.code@[k] matches OpCode::Constant { idx }
                        ==> idx < self.values@.len()),
            decreases n - i,
        {
            if let OpCode::Constant { idx } = self.code[i] {
                if idx >= self.values.len() {
                    return false;
                }
            }
            i += 1;
        }
        let m = self.values.len();
        let mut j: usize = 0;
        while j < m
            invariant
                m == self.values@.len(),
                j <= m,
                forall|k: int|
                    0 <= k < j ==> (#[trigger] self.values@[k] matches Value::Obj { idx } ==> idx
                        < self.heap@.len()),
            decreases m - j,
        {
            if let Value::Obj { idx } = self.values[j] {
                if idx >= self.heap.len() {
                    return false;
                }
            }
            j += 1;
        }
        true
    }

    /// The source line of the instruction at `idx`.
    pub fn line_of(&self, idx: usize) -> (r: Option<usize>)
        ensures
            idx < self.lines.lines().len() ==> r == Some(self.lines.lines()[idx as int]),
            idx >= self.lines.lines().len() ==> r is None,
    {
        self.lines.get(idx)
    }
}

impl Default for Chunk {
    fn default() -> (r: Chunk)
        ensures
            r.wf(),
            r.sound(),
            r.lines.runs() == Seq::<(usize, usize)>::empty(),
            r.code@.len() == 0,
            r.values@.len() == 0,
            r.heap@.len() == 0,
    {
        Chunk::new()
    }
}

} // verus!
