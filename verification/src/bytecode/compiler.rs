//! The single-pass compiler: a Pratt parser that writes instructions while
//! it reads tokens.

use vstd::prelude::*;
use crate::bytecode::chunk::Chunk;
use crate::bytecode::error::Error;
use crate::bytecode::op::OpCode;
use crate::bytecode::scanner::Scanner;
use crate::bytecode::scanner::ScannerError;
use crate::bytecode::scanner::Tok;
use crate::bytecode::scanner::Token;
use crate::bytecode::scanner::TokenType;
use crate::bytecode::scanner::scanned_heads_stream;
use crate::bytecode::scanner::terminated;
use crate::bytecode::scanner::token_stream;
use crate::bytecode::value::Obj;
use crate::bytecode::value::ObjView;
use crate::bytecode::value::Value;
use crate::bytecode::vm::heap_view;
use crate::number::Arithmetic;
use crate::number::Number;
use crate::text::decimal_text;

verus! {

/// Binding strength, from the loosest to the tightest.
#[derive(Clone, Copy, Debug, PartialEq, Eq, Structural)]
pub enum Prec {
    Lowest,
    Assignment,
    Or,
    And,
    Equality,
    Comparison,
    Term,
    Factor,
    Unary,
    Call,
    Primary,
}

impl Prec {
    /// The rank of the level, `Lowest` being 0 and `Primary` 10.
    pub open spec fn level(self) -> nat {
        match self {
            Prec::Lowest => 0,
            Prec::Assignment => 1,
            Prec::Or => 2,
            Prec::And => 3,
            Prec::Equality => 4,
            Prec::Comparison => 5,
            Prec::Term => 6,
            Prec::Factor => 7,
            Prec::Unary => 8,
            Prec::Call => 9,
            Prec::Primary => 10,
        }
    }

    /// The level of rank `n`.
    pub fn from(n: usize) -> (r: Prec)
        requires
            n <= 10,
        ensures
            r.level() == n,
    {
        if n == 0 {
            Prec::Lowest
        } else if n == 1 {
            Prec::Assignment
        } else if n == 2 {
            Prec::Or
        } else if n == 3 {
            Prec::And
        } else if n == 4 {
            Prec::Equality
        } else if n == 5 {
            Prec::Comparison
        } else if n == 6 {
            Prec::Term
        } else if n == 7 {
            Prec::Factor
        } else if n == 8 {
            Prec::Unary
        } else if n == 9 {
            Prec::Call
        } else {
            Prec::Primary
        }
    }

    pub fn into(self) -> (r: usize)
        ensures
            r == self.level(),
    {
        match self {
            Prec::Lowest => 0,
            Prec::Assignment => 1,
            Prec::Or => 2,
            Prec::And => 3,
            Prec::Equality => 4,
            Prec::Comparison => 5,
            Prec::Term => 6,
            Prec::Factor => 7,
            Prec::Unary => 8,
            Prec::Call => 9,
            Prec::Primary => 10,
        }
    }

    /// The level `other` ranks above this one.
    pub fn plus(self, other: usize) -> (r: Prec)
        requires
            self.level() + other <= 10,
        ensures
            r.level() == self.level() + other,
    {
        Prec::from(self.into() + other)
    }
}

/// How an expression that starts with a token, or goes on with one, is read.
#[derive(Clone, Copy, Debug, PartialEq, Eq, Structural)]
pub enum Rule {
    Grouping,
    Unary,
    Number,
    String,
    Literal,
    Binary,
}

/// The binding strength of `kind` as an infix operator.
pub open spec fn infix_strength(kind: TokenType) -> Prec {
    match kind {
        TokenType::Minus | TokenType::Plus => Prec::Term,
        TokenType::Slash | TokenType::Star => Prec::Factor,
        TokenType::EqEq | TokenType::BangEq => Prec::Equality,
        TokenType::LessEq | TokenType::GreaterEq | TokenType::Greater | TokenType::Less =>
            Prec::Comparison,
        _ => Prec::Lowest,
    }
}

/// The rule for an expression that starts with `kind`.
pub open spec fn prefix_rule(kind: TokenType) -> Option<Rule> {
    match kind {
        TokenType::LeftParen => Some(Rule::Grouping),
        TokenType::Minus | TokenType::Bang => Some(Rule::Unary),
        TokenType::Number => Some(Rule::Number),
        TokenType::String => Some(Rule::String),
        TokenType::True | TokenType::False | TokenType::Nil => Some(Rule::Literal),
        _ => None,
    }
}

/// The rule for an expression that goes on with `kind`.
pub open spec fn infix_rule(kind: TokenType) -> Option<Rule> {
    if infix_strength(kind) != Prec::Lowest {
        Some(Rule::Binary)
    } else {
        None
    }
}

/// The instructions of a binary operator: its own, or for `!=`, `>=` and
/// `<=` the dual one followed by `Not`.
pub open spec fn binary_code(kind: TokenType) -> Option<(OpCode, Option<OpCode>)> {
    match kind {
        TokenType::Plus => Some((OpCode::Add, None)),
        TokenType::Minus => Some((OpCode::Sub, None)),
        TokenType::Star => Some((OpCode::Mul, None)),
        TokenType::Slash => Some((OpCode::Div, None)),
        TokenType::BangEq => Some((OpCode::Eq, Some(OpCode::Not))),
        TokenType::EqEq => Some((OpCode::Eq, None)),
        TokenType::Greater => Some((OpCode::Gtr, None)),
        TokenType::GreaterEq => Some((OpCode::Less, Some(OpCode::Not))),
        TokenType::Less => Some((OpCode::Less, None)),
        TokenType::LessEq => Some((OpCode::Gtr, Some(OpCode::Not))),
        _ => None,
    }
}

/// The code `code` followed by one instruction, or by two.
pub open spec fn emitted(code: Seq<OpCode>, first: OpCode, second: Option<OpCode>) -> Seq<OpCode> {
    match second {
        Some(s) => code.push(first).push(s),
        None => code.push(first),
    }
}

/// What the pool holds at one index.
pub enum Pooled {
    /// A number: what the embedding program reads from a literal.
    Number(Number),
    /// A handle to the object at this index of the heap.
    Handle(usize),
    /// A boolean or `nil`, which no compilation puts into the pool.
    Other,
}

/// What a compilation has written: the instructions, the line of each, the
/// pool and the heap.
pub struct Emitted {
    pub code: Seq<OpCode>,
    pub lines: Seq<usize>,
    pub pool: Seq<Pooled>,
    pub heap: Seq<ObjView>,
}

pub open spec fn pooled(v: Value) -> Pooled {
    match v {
        Value::Number(n) => Pooled::Number(n),
        Value::Obj { idx } => Pooled::Handle(idx),
        _ => Pooled::Other,
    }
}

/// What `chunk` holds.
pub open spec fn emitted_of(chunk: Chunk) -> Emitted {
    Emitted {
        code: chunk.code@,
        lines: chunk.lines.lines(),
        pool: Seq::new(chunk.values@.len(), |i: int| pooled(chunk.values@[i])),
        heap: heap_view(chunk.heap@),
    }
}

impl Emitted {
    pub open spec fn nothing() -> Emitted {
        Emitted { code: Seq::empty(), lines: Seq::empty(), pool: Seq::empty(), heap: Seq::empty() }
    }

    /// One more instruction, from line `line`.
    pub open spec fn op(self, code: OpCode, line: usize) -> Emitted {
        Emitted {
            code: self.code.push(code),
            lines: self.lines.push(line),
            pool: self.pool,
            heap: self.heap,
        }
    }

    /// One more instruction and, where there is a second one, that too.
    pub open spec fn ops(self, first: OpCode, second: Option<OpCode>, line: usize) -> Emitted {
        match second {
            Some(s) => self.op(first, line).op(s, line),
            None => self.op(first, line),
        }
    }

    /// One more constant in the pool and the instruction that loads it.
    pub open spec fn constant(self, value: Pooled, line: usize) -> Emitted {
        Emitted {
            code: self.code.push(OpCode::Constant { idx: self.pool.len() as usize }),
            lines: self.lines.push(line),
            pool: self.pool.push(value),
            heap: self.heap,
        }
    }

    /// One more string on the heap, a handle to it in the pool, and the
    /// instruction that loads the handle.
    pub open spec fn string(self, text: Seq<char>, line: usize) -> Emitted {
        Emitted {
            code: self.code,
            lines: self.lines,
            pool: self.pool,
            heap: self.heap.push(ObjView::Text(text)),
        }.constant(Pooled::Handle(self.heap.len() as usize), line)
    }
}

/// The tokens that lie ahead once the first of `s` has been read. The
/// closing `Eof` stays ahead for good.
pub open spec fn rest_after(s: Seq<Tok>) -> Seq<Tok> {
    if s.len() > 1 {
        s.drop_first()
    } else {
        s
    }
}

/// The instruction of the literal `kind`.
pub open spec fn literal_code(kind: TokenType) -> Option<OpCode> {
    match kind {
        TokenType::False => Some(OpCode::False),
        TokenType::True => Some(OpCode::True),
        TokenType::Nil => Some(OpCode::Nil),
        _ => None,
    }
}

/// The instruction of the unary operator `kind`.
pub open spec fn unary_code(kind: TokenType) -> Option<OpCode> {
    match kind {
        TokenType::Minus => Some(OpCode::Negate),
        TokenType::Bang => Some(OpCode::Not),
        _ => None,
    }
}

/// `e` and one more instruction, if there is one.
pub open spec fn with_op(e: Emitted, code: Option<OpCode>, line: usize) -> Emitted {
    match code {
        Some(c) => e.op(c, line),
        None => e,
    }
}

/// `e` and the instructions of the binary operator `kind`.
pub open spec fn with_binary(e: Emitted, kind: TokenType, line: usize) -> Emitted {
    match binary_code(kind) {
        Some((first, second)) => e.ops(first, second, line),
        None => e,
    }
}

/// Compiles, from the tokens `s`, an expression whose operators all bind at
/// least as tightly as level `min`: what the first token starts, and then
/// every operator of that strength with its right operand. Returns what has
/// then been written and the tokens that are left, or `None` where the
/// tokens start no such expression. Every instruction is written for the
/// line of the token that lies ahead when it is written.
pub open spec fn parse_prec<A: Arithmetic>(numbers: &A, s: Seq<Tok>, min: nat, e: Emitted) -> Option<(Emitted, Seq<Tok>)>
    decreases s.len(), 1nat,
{
    if s.len() <= 1 {
        None
    } else {
        match prefix_rule(s[0].kind) {
            None => None,
            Some(rule) => match apply_prefix(numbers, rule, s[0], s.drop_first(), e) {
                None => None,
                Some((e1, s1)) => if s1.len() < s.len() {
                    infix_loop(numbers, s1, min, e1)
                } else {
                    None
                },
            },
        }
    }
}

/// Compiles what the token `prev`, which has been read, starts by the rule
/// `rule`; `s` are the tokens behind `prev`.
pub open spec fn apply_prefix<A: Arithmetic>(numbers: &A, rule: Rule, prev: Tok, s: Seq<Tok>, e: Emitted) -> Option<
    (Emitted, Seq<Tok>),
>
    decreases s.len(), 2nat,
{
    match rule {
        Rule::Number => Some((e.constant(Pooled::Number(numbers.parsed(prev.text)), s[0].line), s)),
        Rule::String => Some((e.string(unquoted(prev.text), s[0].line), s)),
        Rule::Literal => Some((with_op(e, literal_code(prev.kind), s[0].line), s)),
        Rule::Grouping => match parse_prec(numbers, s, 1, e) {
            Some((e1, s1)) => if s1.len() >= 1 && s1[0].kind == TokenType::RightParen {
                Some((e1, rest_after(s1)))
            } else {
                None
            },
            None => None,
        },
        Rule::Unary => match parse_prec(numbers, s, 8, e) {
            Some((e1, s1)) => Some((with_op(e1, unary_code(prev.kind), s1[0].line), s1)),
            None => None,
        },
        Rule::Binary => None,
    }
}

/// Compiles every binary operator of strength `min` or more that follows,
/// each with its right operand, which binds tighter than the operator.
pub open spec fn infix_loop<A: Arithmetic>(numbers: &A, s: Seq<Tok>, min: nat, e: Emitted) -> Option<(Emitted, Seq<Tok>)>
    decreases s.len(), 0nat,
{
    if s.len() > 1 && min <= infix_strength(s[0].kind).level() && 1 <= min {
        match binary_step(numbers, s[0], s.drop_first(), e) {
            Some((e1, s1)) => if s1.len() < s.len() {
                infix_loop(numbers, s1, min, e1)
            } else {
                None
            },
            None => None,
        }
    } else {
        Some((e, s))
    }
}

/// Compiles the right operand of the binary operator `op`, which has been
/// read, and then the operator.
pub open spec fn binary_step<A: Arithmetic>(numbers: &A, op: Tok, s: Seq<Tok>, e: Emitted) -> Option<(Emitted, Seq<Tok>)>
    decreases s.len(), 3nat,
{
    match parse_prec(numbers, s, infix_strength(op.kind).level() + 1, e) {
        Some((e1, s1)) => Some((with_binary(e1, op.kind, s1[0].line), s1)),
        None => None,
    }
}

/// What compiling the source `src` writes: one expression, which must be
/// all that the source holds, and `Return` behind it. `None` where the
/// source holds something that is no token or is no such expression.
pub open spec fn compiled<A: Arithmetic>(numbers: &A, src: Seq<char>) -> Option<Emitted> {
    let s = token_stream(src, 0);
    if !terminated(s) {
        None
    } else {
        match parse_prec(numbers, s, 1, Emitted::nothing()) {
            Some((e, rest)) => if rest.len() >= 1 && rest[0].kind == TokenType::Eof {
                Some(e.op(OpCode::Return, rest_after(rest)[0].line))
            } else {
                None
            },
            None => None,
        }
    }
}

/// Compiling leaves tokens that are closed by `Eof` closed by `Eof`, and
/// reads at least one of them.
pub proof fn parse_prec_shrinks<A: Arithmetic>(numbers: &A, s: Seq<Tok>, min: nat, e: Emitted)
    requires
        terminated(s),
    ensures
        parse_prec(numbers, s, min, e) matches Some((e1, s1)) ==> terminated(s1) && s1.len() < s.len()
            && s1.len() >= 1,
    decreases s.len(), 1nat,
{
    if s.len() > 1 {
        match prefix_rule(s[0].kind) {
            None => {},
            Some(rule) => {
                apply_prefix_shrinks(numbers, rule, s[0], s.drop_first(), e);
                match apply_prefix(numbers, rule, s[0], s.drop_first(), e) {
                    None => {},
                    Some((e1, s1)) => {
                        infix_loop_shrinks(numbers, s1, min, e1);
                    },
                }
            },
        }
    }
}

pub proof fn apply_prefix_shrinks<A: Arithmetic>(numbers: &A, rule: Rule, prev: Tok, s: Seq<Tok>, e: Emitted)
    requires
        terminated(s),
    ensures
        apply_prefix(numbers, rule, prev, s, e) matches Some((e1, s1)) ==> terminated(s1) && s1.len()
            <= s.len(),
    decreases s.len(), 2nat,
{
    match rule {
        Rule::Grouping => {
            parse_prec_shrinks(numbers, s, 1, e);
        },
        Rule::Unary => {
            parse_prec_shrinks(numbers, s, 8, e);
        },
        _ => {},
    }
}

pub proof fn infix_loop_shrinks<A: Arithmetic>(numbers: &A, s: Seq<Tok>, min: nat, e: Emitted)
    requires
        terminated(s),
    ensures
        infix_loop(numbers, s, min, e) matches Some((e1, s1)) ==> terminated(s1) && s1.len() <= s.len(),
    decreases s.len(), 0nat,
{
    if s.len() > 1 && min <= infix_strength(s[0].kind).level() && 1 <= min {
        parse_prec_shrinks(numbers, s.drop_first(), infix_strength(s[0].kind).level() + 1, e);
        match binary_step(numbers, s[0], s.drop_first(), e) {
            Some((e1, s1)) => {
                infix_loop_shrinks(numbers, s1, min, e1);
            },
            None => {},
        }
    }
}

/// The state of one compilation.
pub struct Compiler {
    scanner: Scanner,
    chunk: Chunk,
    current: Token,
    prev: Token,
    error: Option<ScannerError>,
    panic_mode: bool,
    diagnostics: Vec<String>,
}

/// How compiling a part of the expression relates the compiler before it
/// and the compiler after it to what that part is to come to, where nothing
/// had gone wrong before: what has been written and the tokens that lie
/// ahead are as expected, or, where nothing is expected, a diagnostic is on
/// record.
pub open spec fn parsed(before: Compiler, after: Compiler, expected: Option<(Emitted, Seq<Tok>)>) -> bool {
    &&& !before.ok() ==> !after.ok()
    &&& before.set() && before.ok() ==> match expected {
        Some((e, s)) => after.set() && after.ok() && after.emitted() == e && after.stream() == s,
        None => !after.ok(),
    }
}

impl Compiler {
    /// The scanner is in order and an exhausted scanner has left `Eof` as
    /// the current token.
    pub closed spec fn base(&self) -> bool {
        &&& self.scanner.wf()
        &&& self.scanner.finished() ==> self.current.kind == TokenType::Eof
        &&& self.chunk.wf()
        &&& self.chunk.sound()
    }

    /// As `base`; and as long as the scanner has found nothing that is no
    /// token, `Eof` is the current token only once the scanner is
    /// exhausted, and the tokens that lie ahead are closed by `Eof` exactly
    /// if those of the whole source are.
    pub closed spec fn inv(&self) -> bool {
        &&& self.base()
        &&& self.error is None ==> {
            &&& self.current.kind == TokenType::Eof ==> self.scanner.finished()
            &&& terminated(self.stream()) <==> terminated(token_stream(self.scanner.source(), 0))
        }
    }

    /// An upper bound on the tokens that are still to be read.
    pub closed spec fn remaining(&self) -> nat {
        self.scanner.remaining()
    }

    /// The text that is compiled.
    pub closed spec fn source(&self) -> Seq<char> {
        self.scanner.source()
    }

    /// The tokens that lie ahead, the current one first.
    pub closed spec fn stream(&self) -> Seq<Tok> {
        if self.scanner.finished() {
            seq![self.current@]
        } else {
            seq![self.current@] + token_stream(self.scanner.source(), self.scanner.position())
        }
    }

    /// The token that was read last.
    pub closed spec fn previous(&self) -> Tok {
        self.prev@
    }

    /// What has been written so far.
    pub closed spec fn emitted(&self) -> Emitted {
        emitted_of(self.chunk)
    }

    /// Whether nothing has gone wrong so far.
    pub closed spec fn ok(&self) -> bool {
        self.error is None && self.diagnostics@.len() == 0
    }

    /// Whether the scanner has found only tokens so far and the tokens that
    /// lie ahead are closed by `Eof`.
    pub closed spec fn set(&self) -> bool {
        self.error is None && terminated(self.stream())
    }

    /// Whether nothing has been compiled yet: nothing is written, and the
    /// tokens of the whole source lie ahead if they are closed by `Eof`.
    pub closed spec fn fresh(&self) -> bool {
        &&& self.emitted() == Emitted::nothing()
        &&& self.diagnostics@.len() == 0
        &&& terminated(token_stream(self.scanner.source(), 0)) ==> self.error is None
            && self.stream() == token_stream(self.scanner.source(), 0)
    }

    /// A compiler for `source` with the first token read.
    pub fn new(source: &str) -> (r: Compiler)
        ensures
            r.inv(),
            r.fresh(),
            r.source() == source@,
    {
        let mut c = Compiler {
            scanner: Scanner::new(source),
            prev: Token::eof(0),
            current: Token::eof(0),
            chunk: Chunk::new(),
            error: None,
            panic_mode: false,
            diagnostics: Vec::new(),
        };
        assert(emitted_of(c.chunk).pool =~= Seq::empty());
        assert(emitted_of(c.chunk).heap =~= Seq::empty());
        assert(emitted_of(c.chunk).code =~= Seq::empty());
        assert(emitted_of(c.chunk).lines =~= Seq::empty());
        assert(emitted_of(c.chunk) == Emitted::nothing());
        let ghost before = c;
        c.fetch();
        proof {
            let all = token_stream(source@, 0);
            assert(before.stream() == seq![before.current@] + all);
            if c.error is None {
                assert((seq![before.current@] + all).drop_first() =~= all);
                assert((seq![before.current@] + c.stream()).drop_first() =~= c.stream());
            }
        }
        c
    }

    /// Compiles one expression, which must be all that the source holds, and
    /// closes the code with `Return`. Fails with the first diagnostic where
    /// the source is no such expression.
    pub fn compile<A: Arithmetic>(self, numbers: &A) -> (r: Result<Chunk, Error>)
        requires
            self.inv(),
            self.fresh(),
        ensures
            r is Ok <==> compiled(numbers, self.source()) is Some,
            r is Ok ==> emitted_of(r->Ok_0) == compiled(numbers, self.source())->Some_0,
            r is Ok ==> r->Ok_0.wf() && r->Ok_0.sound() && r->Ok_0.code@.len() > 0
                && r->Ok_0.code@.last() == OpCode::Return,
            r is Err ==> r->Err_0 is Compiler,
    {
        let mut this = self;
        this.expression(numbers);
        if !this.eat(TokenType::Eof) {
            this.error("Expected end of expression", true);
        }
        this.emit_return();
        match this.error {
            Some(e) => {
                return Err(Error::Compiler(e.to_string()));
            },
            None => {},
        }
        if this.diagnostics.len() > 0 {
            Err(Error::Compiler(this.diagnostics[0].clone()))
        } else {
            Ok(this.chunk)
        }
    }

    fn expression<A: Arithmetic>(&mut self, numbers: &A)
        requires
            old(self).inv(),
        ensures
            final(self).inv(),
            final(self).remaining() <= old(self).remaining(),
            final(self).source() == old(self).source(),
            parsed(*old(self), *final(self), parse_prec(numbers, old(self).stream(), 1, old(self).emitted())),
        decreases old(self).remaining(), 1nat,
    {
        self.precedence(Prec::Assignment, numbers);
    }

    /// Writes the instruction of `true`, `false` or `nil`.
    fn literal(&mut self)
        requires
            old(self).inv(),
        ensures
            final(self).inv(),
            final(self).remaining() == old(self).remaining(),
            final(self).source() == old(self).source(),
            final(self).stream() == old(self).stream(),
            final(self).ok() == old(self).ok(),
            final(self).set() == old(self).set(),
            final(self).emitted() == with_op(
                old(self).emitted(),
                literal_code(old(self).previous().kind),
                old(self).stream()[0].line,
            ),
    {
        match self.prev.kind {
            TokenType::False => self.emit_simple_op(OpCode::False, None),
            TokenType::True => self.emit_simple_op(OpCode::True, None),
            TokenType::Nil => self.emit_simple_op(OpCode::Nil, None),
            _ => {},
        }
    }

    /// Puts the number that the previous token spells into the pool and
    /// writes the instruction that loads it.
    fn number<A: Arithmetic>(&mut self, numbers: &A)
        requires
            old(self).inv(),
        ensures
            final(self).inv(),
            final(self).remaining() == old(self).remaining(),
            final(self).source() == old(self).source(),
            final(self).stream() == old(self).stream(),
            final(self).ok() == old(self).ok(),
            final(self).set() == old(self).set(),
            final(self).emitted() == old(self).emitted().constant(
                Pooled::Number(numbers.parsed(old(self).previous().text)),
                old(self).stream()[0].line,
            ),
    {
        let n = numbers.parse(self.prev.slice.as_str());
        self.emit_constant(Value::Number(n));
    }

    /// Puts the text between the quotes of the previous token on the heap,
    /// a handle to it into the pool, and writes the instruction that loads
    /// the handle.
    fn string(&mut self)
        requires
            old(self).inv(),
        ensures
            final(self).inv(),
            final(self).remaining() == old(self).remaining(),
            final(self).source() == old(self).source(),
            final(self).stream() == old(self).stream(),
            final(self).ok() == old(self).ok(),
            final(self).set() == old(self).set(),
            final(self).emitted() == old(self).emitted().string(
                unquoted(old(self).previous().text),
                old(self).stream()[0].line,
            ),
    {
        let n = self.prev.slice.as_str().unicode_len();
        let obj = if n >= 2 {
            Obj::string(self.prev.slice.as_str().substring_char(1, n - 1))
        } else {
            Obj::string("")
        };
        proof {
            reveal_strlit("");
            assert(""@ =~= Seq::<char>::empty());
        }
        let idx = self.chunk.add_obj(obj);
        proof {
            assert(heap_view(self.chunk.heap@) =~= heap_view(old(self).chunk.heap@).push(
                ObjView::Text(unquoted(old(self).prev.slice@)),
            ));
            assert(emitted_of(self.chunk).pool =~= emitted_of(old(self).chunk).pool);
        }
        self.emit_constant(Value::Obj { idx });
    }

    /// An expression in parentheses, whose opening one has been read.
    fn grouping<A: Arithmetic>(&mut self, numbers: &A)
        requires
            old(self).inv(),
        ensures
            final(self).inv(),
            final(self).remaining() <= old(self).remaining(),
            final(self).source() == old(self).source(),
            parsed(
                *old(self),
                *final(self),
                apply_prefix(numbers, 
                    Rule::Grouping,
                    old(self).previous(),
                    old(self).stream(),
                    old(self).emitted(),
                ),
            ),
        decreases old(self).remaining(), 2nat,
    {
        self.expression(numbers);
        if !self.eat(TokenType::RightParen) {
            self.error("Expected closing paren", true);
        }
    }

    /// `-` or `!`, which has been read, in front of its operand: the operand
    /// first, then the instruction of the operator.
    fn unary<A: Arithmetic>(&mut self, numbers: &A)
        requires
            old(self).inv(),
        ensures
            final(self).inv(),
            final(self).remaining() <= old(self).remaining(),
            final(self).source() == old(self).source(),
            parsed(
                *old(self),
                *final(self),
                apply_prefix(numbers, 
                    Rule::Unary,
                    old(self).previous(),
                    old(self).stream(),
                    old(self).emitted(),
                ),
            ),
        decreases old(self).remaining(), 2nat,
    {
        let op = self.prev.kind;
        self.precedence(Prec::Unary, numbers);
        match op {
            TokenType::Minus => self.emit_simple_op(OpCode::Negate, None),
            TokenType::Bang => self.emit_simple_op(OpCode::Not, None),
            _ => {},
        }
    }

    /// A binary operator, which has been read, between its operands: the
    /// right operand, which binds tighter than the operator, then the
    /// instructions of the operator.
    fn binary<A: Arithmetic>(&mut self, numbers: &A)
        requires
            old(self).inv(),
        ensures
            final(self).inv(),
            final(self).remaining() <= old(self).remaining(),
            final(self).source() == old(self).source(),
            parsed(
                *old(self),
                *final(self),
                binary_step(numbers, old(self).previous(), old(self).stream(), old(self).emitted()),
            ),
        decreases old(self).remaining(), 2nat,
    {
        let op = self.prev.kind;
        let prec = Self::determine_precedence(op);
        self.precedence(prec.plus(1), numbers);
        match Self::binary_ops(op) {
            Some((first, second)) => self.emit_simple_op(first, second),
            None => {},
        }
    }

    pub fn binary_ops(op: TokenType) -> (r: Option<(OpCode, Option<OpCode>)>)
        ensures
            r == binary_code(op),
            r matches Some((first, second)) ==> !(first is Constant) && (second matches Some(s)
                ==> !(s is Constant)),
    {
        match op {
            TokenType::Plus => Some((OpCode::Add, None)),
            TokenType::Minus => Some((OpCode::Sub, None)),
            TokenType::Star => Some((OpCode::Mul, None)),
            TokenType::Slash => Some((OpCode::Div, None)),
            TokenType::BangEq => Some((OpCode::Eq, Some(OpCode::Not))),
            TokenType::EqEq => Some((OpCode::Eq, None)),
            TokenType::Greater => Some((OpCode::Gtr, None)),
            TokenType::GreaterEq => Some((OpCode::Less, Some(OpCode::Not))),
            TokenType::Less => Some((OpCode::Less, None)),
            TokenType::LessEq => Some((OpCode::Gtr, Some(OpCode::Not))),
            _ => None,
        }
    }

    /// Reads an expression whose operators all bind at least as tightly as
    /// `precedence`: a prefix expression, then every infix operator of that
    /// strength with its right operand.
    fn precedence<A: Arithmetic>(&mut self, precedence: Prec, numbers: &A)
        requires
            old(self).inv(),
            precedence != Prec::Lowest,
        ensures
            final(self).inv(),
            final(self).remaining() <= old(self).remaining(),
            final(self).source() == old(self).source(),
            parsed(
                *old(self),
                *final(self),
                parse_prec(numbers, old(self).stream(), precedence.level(), old(self).emitted()),
            ),
        decreases old(self).remaining(), 0nat,
    {
        let ghost active = self.set() && self.ok();
        let ghost s0 = self.stream();
        let ghost e0 = self.emitted();
        let ghost total = parse_prec(numbers, s0, precedence.level(), e0);
        self.advance();
        match Self::prefix(self.prev.kind) {
            Some(rule) => {
                self.apply(rule, numbers);
                proof {
                    if active {
                        apply_prefix_shrinks(numbers, rule, s0[0], s0.drop_first(), e0);
                    }
                }
                while precedence.into() <= Self::determine_precedence(self.current.kind).into()
                    invariant
                        self.inv(),
                        self.remaining() < old(self).remaining(),
                        self.source() == old(self).source(),
                        precedence != Prec::Lowest,
                        !old(self).ok() ==> !self.ok(),
                        active == (old(self).set() && old(self).ok()),
                        active && self.ok() ==> self.set() && total == infix_loop(numbers, 
                            self.stream(),
                            precedence.level(),
                            self.emitted(),
                        ),
                        active && !self.ok() ==> total is None,
                        total == parse_prec(numbers, 
                            old(self).stream(),
                            precedence.level(),
                            old(self).emitted(),
                        ),
                    decreases self.remaining(),
                {
                    let ghost s = self.stream();
                    let ghost e = self.emitted();
                    let ghost live = active && self.ok();
                    proof {
                        if live {
                            self.one_token_is_eof();
                            parse_prec_shrinks(numbers, 
                                s.drop_first(),
                                infix_strength(s[0].kind).level() + 1,
                                e,
                            );
                        }
                    }
                    self.advance();
                    match Self::infix(self.prev.kind) {
                        Some(_) => {
                            self.binary(numbers);
                        },
                        None => {
                            self.error("Expect infix expression", false);
                            return ;
                        },
                    }
                }
            },
            None => {
                proof {
                    if active {
                        old(self).one_token_is_eof();
                    }
                }
                self.error("Expect prefix expression", false);
            },
        }
    }

    /// Where one token lies ahead and the tokens are closed by `Eof`, that
    /// token is `Eof`, and it is the current one.
    proof fn one_token_is_eof(&self)
        requires
            self.inv(),
        ensures
            self.stream().len() >= 1,
            self.stream()[0] == self.current@,
            self.set() && self.stream().len() == 1 ==> self.current.kind == TokenType::Eof,
    {
    }

    /// Reads on by `rule`, the rule of the token read last, which starts an
    /// expression.
    fn apply<A: Arithmetic>(&mut self, rule: Rule, numbers: &A)
        requires
            old(self).inv(),
        ensures
            final(self).inv(),
            final(self).remaining() <= old(self).remaining(),
            final(self).source() == old(self).source(),
            parsed(
                *old(self),
                *final(self),
                apply_prefix(numbers, rule, old(self).previous(), old(self).stream(), old(self).emitted()),
            ),
        decreases old(self).remaining(), 3nat,
    {
        match rule {
            Rule::Grouping => self.grouping(numbers),
            Rule::Unary => self.unary(numbers),
            Rule::Number => self.number(numbers),
            Rule::String => self.string(),
            Rule::Literal => self.literal(),
            Rule::Binary => self.error("Expect prefix expression", false),
        }
    }

    pub fn determine_precedence(kind: TokenType) -> (r: Prec)
        ensures
            r == infix_strength(kind),
            r.level() <= 7,
    {
        match kind {
            TokenType::Minus | TokenType::Plus => Prec::Term,
            TokenType::Slash | TokenType::Star => Prec::Factor,
            TokenType::EqEq | TokenType::BangEq => Prec::Equality,
            TokenType::LessEq | TokenType::GreaterEq | TokenType::Greater | TokenType::Less =>
                Prec::Comparison,
            _ => Prec::Lowest,
        }
    }

    pub fn prefix(kind: TokenType) -> (r: Option<Rule>)
        ensures
            r == prefix_rule(kind),
    {
        match kind {
            TokenType::LeftParen => Some(Rule::Grouping),
            TokenType::Minus | TokenType::Bang => Some(Rule::Unary),
            TokenType::Number => Some(Rule::Number),
            TokenType::String => Some(Rule::String),
            TokenType::True | TokenType::False | TokenType::Nil => Some(Rule::Literal),
            _ => None,
        }
    }

    pub fn infix(kind: TokenType) -> (r: Option<Rule>)
        ensures
            r == infix_rule(kind),
    {
        match Self::determine_precedence(kind) {
            Prec::Lowest => None,
            _ => Some(Rule::Binary),
        }
    }

    /// Reads the current token if it is of kind `kind`, and says whether it
    /// was.
    fn eat(&mut self, kind: TokenType) -> (r: bool)
        requires
            old(self).inv(),
        ensures
            final(self).inv(),
            final(self).remaining() <= old(self).remaining(),
            final(self).source() == old(self).source(),
            final(self).emitted() == old(self).emitted(),
            !old(self).ok() ==> !final(self).ok(),
            r == (old(self).stream()[0].kind == kind),
            r && old(self).set() ==> final(self).set() && final(self).ok() == old(self).ok()
                && final(self).stream() == rest_after(old(self).stream()),
            !r ==> final(self).stream() == old(self).stream() && final(self).set() == old(self).set()
                && final(self).ok() == old(self).ok(),
    {
        if self.current.kind == kind {
            self.advance();
            true
        } else {
            false
        }
    }

    fn emit_return(&mut self)
        requires
            old(self).inv(),
        ensures
            final(self).inv(),
            final(self).remaining() == old(self).remaining(),
            final(self).source() == old(self).source(),
            final(self).stream() == old(self).stream(),
            final(self).ok() == old(self).ok(),
            final(self).set() == old(self).set(),
            final(self).emitted() == old(self).emitted().op(
                OpCode::Return,
                old(self).stream()[0].line,
            ),
            final(self).error == old(self).error,
            final(self).diagnostics == old(self).diagnostics,
            final(self).chunk.code@ == old(self).chunk.code@.push(OpCode::Return),
    {
        self.emit_simple_op(OpCode::Return, None)
    }

    /// Writes one instruction, or two, for the line of the current token.
    fn emit_simple_op(&mut self, code: OpCode, second: Option<OpCode>)
        requires
            old(self).inv(),
            !(code is Constant),
            second is Some ==> !(second->Some_0 is Constant),
        ensures
            final(self).inv(),
            final(self).remaining() == old(self).remaining(),
            final(self).source() == old(self).source(),
            final(self).stream() == old(self).stream(),
            final(self).ok() == old(self).ok(),
            final(self).set() == old(self).set(),
            final(self).emitted() == old(self).emitted().ops(
                code,
                second,
                old(self).stream()[0].line,
            ),
            final(self).chunk.code@ == emitted(old(self).chunk.code@, code, second),
            final(self).error == old(self).error,
            final(self).diagnostics == old(self).diagnostics,
            final(self).prev == old(self).prev,
            final(self).current == old(self).current,
    {
        self.chunk.write(code, self.current.line);
        if let Some(s) = second {
            self.chunk.write(s, self.current.line);
        }
        proof {
            assert(emitted_of(self.chunk).pool =~= emitted_of(old(self).chunk).pool);
        }
    }

    /// Puts `value` into the pool and writes the instruction that loads it.
    fn emit_constant(&mut self, value: Value)
        requires
            old(self).inv(),
            value matches Value::Obj { idx } ==> idx < old(self).chunk.heap@.len(),
        ensures
            final(self).inv(),
            final(self).remaining() == old(self).remaining(),
            final(self).source() == old(self).source(),
            final(self).stream() == old(self).stream(),
            final(self).ok() == old(self).ok(),
            final(self).set() == old(self).set(),
            final(self).emitted() == old(self).emitted().constant(
                pooled(value),
                old(self).stream()[0].line,
            ),
            final(self).prev == old(self).prev,
    {
        let idx = self.chunk.add_constant(value);
        self.chunk.write(OpCode::Constant { idx }, self.current.line);
        proof {
            assert(emitted_of(self.chunk).pool =~= emitted_of(old(self).chunk).pool.push(
                pooled(value),
            ));
        }
    }

    /// Makes the current token the previous one and reads the next. A text
    /// that is no token is put on record and leaves both tokens as they are.
    fn fetch(&mut self)
        requires
            old(self).base(),
        ensures
            final(self).base(),
            final(self).source() == old(self).source(),
            final(self).chunk == old(self).chunk,
            final(self).diagnostics == old(self).diagnostics,
            final(self).panic_mode == old(self).panic_mode,
            final(self).remaining() <= old(self).remaining(),
            !old(self).scanner.finished() ==> final(self).remaining() < old(self).remaining(),
            old(self).scanner.finished() ==> final(self).prev == old(self).current
                && final(self).current == old(self).current && final(self).error == old(self).error && final(self).scanner.finished(),
            !old(self).scanner.finished() ==> {
                ||| {
                    &&& final(self).error == old(self).error
                    &&& final(self).prev == old(self).current
                    &&& final(self).scanner.finished() == (final(self).current.kind
                        == TokenType::Eof)
                    &&& old(self).stream() == seq![old(self).current@] + final(self).stream()
                }
                ||| {
                    &&& final(self).error is Some
                    &&& token_stream(old(self).source(), old(self).scanner.position())
                        == Seq::<Tok>::empty()
                }
            },
    {
        proof {
            crate::bytecode::scanner::position_in_source(&self.scanner);
        }
        match self.scanner.next() {
            Some(Ok(tok)) => {
                proof {
                    crate::bytecode::scanner::position_in_source(&self.scanner);
                    scanned_heads_stream(
                        self.scanner.source(),
                        old(self).scanner.position(),
                        self.scanner.position(),
                        Ok(tok),
                    );
                }
                let mut before = tok;
                std::mem::swap(&mut self.current, &mut before);
                self.prev = before;
            },
            Some(Err(e)) => {
                proof {
                    crate::bytecode::scanner::position_in_source(&self.scanner);
                    scanned_heads_stream(
                        self.scanner.source(),
                        old(self).scanner.position(),
                        self.scanner.position(),
                        Err(e),
                    );
                }
                if self.error.is_none() {
                    self.error = Some(e);
                }
            },
            None => {
                self.prev = self.current.clone();
            },
        }
    }

    /// As `fetch`, for a compiler that is in order.
    fn advance(&mut self)
        requires
            old(self).inv(),
        ensures
            final(self).inv(),
            final(self).source() == old(self).source(),
            final(self).emitted() == old(self).emitted(),
            final(self).chunk == old(self).chunk,
            final(self).ok() == old(self).ok() || (!final(self).ok() && !final(self).set()),
            !old(self).ok() ==> !final(self).ok(),
            final(self).remaining() <= old(self).remaining(),
            old(self).scanner.finished() ==> final(self).prev.kind == TokenType::Eof,
            !old(self).scanner.finished() ==> final(self).remaining() < old(self).remaining(),
            old(self).set() ==> final(self).set() && final(self).ok() == old(self).ok()
                && final(self).stream() == rest_after(old(self).stream()) && final(self).previous() == old(self).stream()[0],
    {
        self.fetch();
        proof {
            if old(self).error is None && !old(self).scanner.finished() && self.error is None {
                assert(old(self).stream().drop_first() =~= self.stream());
            }
        }
    }

    /// Puts a diagnostic on record, unless one is on record already and
    /// nothing has ended the confusion that it left.
    fn error(&mut self, msg: &str, current: bool)
        requires
            old(self).inv(),
        ensures
            final(self).inv(),
            final(self).remaining() == old(self).remaining(),
            final(self).source() == old(self).source(),
            final(self).emitted() == old(self).emitted(),
            final(self).stream() == old(self).stream(),
            final(self).diagnostics@.len() > 0,
            !final(self).ok(),
            final(self).panic_mode,
    {
        if self.panic_mode && self.diagnostics.len() > 0 {
            return ;
        }
        self.panic_mode = true;
        let token = if current {
            &self.current
        } else {
            &self.prev
        };
        let mut line = String::from_str("[line ").concat(decimal_text(token.line).as_str()).concat(
            "] Error",
        );
        if token.kind == TokenType::Eof {
            line = line.concat(" at end");
        } else {
            line = line.concat(" '").concat(token.slice.as_str()).concat("'");
        }
        line = line.concat(": ").concat(msg);
        self.diagnostics.push(line);
    }
}

/// A string literal without its first and last character, the quotes.
pub open spec fn unquoted(lexeme: Seq<char>) -> Seq<char> {
    if lexeme.len() >= 2 {
        lexeme.subrange(1, lexeme.len() - 1)
    } else {
        Seq::empty()
    }
}

} // verus!
