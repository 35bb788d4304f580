//! The evaluator: runs a syntax tree under an environment.

use vstd::prelude::*;
use crate::number::ArithOp;
use crate::number::Arithmetic;
use crate::number::Number;
use crate::treewalk::env::Env;
use crate::treewalk::error::Error;
use crate::treewalk::expr::Expr;
use crate::treewalk::expr::Literal;
use crate::treewalk::semantics::above;
use crate::treewalk::semantics::applied;
use crate::treewalk::semantics::bound;
use crate::treewalk::semantics::call_function_rel;
use crate::treewalk::semantics::call_method_rel;
use crate::treewalk::semantics::eval;
use crate::treewalk::semantics::eval_args;
use crate::treewalk::semantics::eval_assign;
use crate::treewalk::semantics::eval_binary;
use crate::treewalk::semantics::eval_call;
use crate::treewalk::semantics::eval_logical;
use crate::treewalk::semantics::exec;
use crate::treewalk::semantics::exec_block;
use crate::treewalk::semantics::exec_list;
use crate::treewalk::semantics::exec_print;
use crate::treewalk::semantics::exec_var;
use crate::treewalk::semantics::exec_while;
use crate::treewalk::semantics::field_set;
use crate::treewalk::semantics::fresh_instance;
use crate::treewalk::semantics::has_method;
use crate::treewalk::semantics::instantiate_rel;
use crate::treewalk::semantics::interpreted;
use crate::treewalk::semantics::kept;
use crate::treewalk::semantics::left;
use crate::treewalk::semantics::loaded;
use crate::treewalk::semantics::made;
use crate::treewalk::semantics::method_arity;
use crate::treewalk::semantics::noted;
use crate::treewalk::semantics::reached;
use crate::treewalk::semantics::reached_args;
use crate::treewalk::semantics::reached_stmt;
use crate::treewalk::semantics::renamed;
use crate::treewalk::semantics::returned;
use crate::treewalk::semantics::spent;
use crate::treewalk::semantics::stored;
use crate::treewalk::stmt::Function;
use crate::treewalk::stmt::Stmt;
use crate::treewalk::stmt::duplicate_functions;
use crate::treewalk::token::Kind;
use crate::treewalk::value::Class;
use crate::treewalk::value::ClassInstance;
use crate::treewalk::value::Func;
use crate::treewalk::value::Method;
use crate::treewalk::value::Value;
use std::rc::Rc;

verus! {

/// What a binary or unary operator comes to on given operands.
pub enum Outcome {
    /// This value.
    Is(Value),
    /// A string of this text.
    Text(Seq<char>),
    /// The number that the embedding program computes for `lhs op rhs`.
    Arith { op: ArithOp, lhs: Number, rhs: Number },
    /// A runtime error: the operator is not defined on the operands.
    Invalid,
}

/// What the binary operator `kind` comes to on `l` and `r`: arithmetic and
/// ordering on two numbers only, `+` on two strings too, and the two
/// equality operators on everything. `>=` is the negation of `<` and `<=`
/// that of `>`, as the bytecode has them.
pub open spec fn binary_outcome(kind: Kind, l: Value, r: Value) -> Outcome {
    match (kind, l, r) {
        (Kind::Minus, Value::Number(a), Value::Number(b)) => Outcome::Arith {
            op: ArithOp::Sub,
            lhs: a,
            rhs: b,
        },
        (Kind::Slash, Value::Number(a), Value::Number(b)) => Outcome::Arith {
            op: ArithOp::Div,
            lhs: a,
            rhs: b,
        },
        (Kind::Star, Value::Number(a), Value::Number(b)) => Outcome::Arith {
            op: ArithOp::Mul,
            lhs: a,
            rhs: b,
        },
        (Kind::Plus, Value::Number(a), Value::Number(b)) => Outcome::Arith {
            op: ArithOp::Add,
            lhs: a,
            rhs: b,
        },
        (Kind::Greater, Value::Number(a), Value::Number(b)) => Outcome::Is(
            Value::Bool(b.below(a)),
        ),
        (Kind::GreaterEqual, Value::Number(a), Value::Number(b)) => Outcome::Is(
            Value::Bool(!a.below(b)),
        ),
        (Kind::Less, Value::Number(a), Value::Number(b)) => Outcome::Is(Value::Bool(a.below(b))),
        (Kind::LessEqual, Value::Number(a), Value::Number(b)) => Outcome::Is(
            Value::Bool(!b.below(a)),
        ),
        (Kind::Plus, Value::String(a), Value::String(b)) => Outcome::Text(a@ + b@),
        (Kind::EqualEqual, a, b) => Outcome::Is(Value::Bool(a.equal(b))),
        (Kind::BangEqual, a, b) => Outcome::Is(Value::Bool(!a.equal(b))),
        _ => Outcome::Invalid,
    }
}

/// What the unary operator `kind` comes to on `v`: `-` on a number only,
/// `!` on everything, by truthiness.
pub open spec fn unary_outcome(kind: Kind, v: Value) -> Outcome {
    match (kind, v) {
        (Kind::Minus, Value::Number(n)) => Outcome::Is(
            Value::Number(Number { bits: n.bits ^ crate::number::SIGN_BIT }),
        ),
        (Kind::Plus, Value::Number(n)) => Outcome::Is(Value::Number(n)),
        (Kind::Bang, a) => Outcome::Is(Value::Bool(!a.truthy())),
        _ => Outcome::Invalid,
    }
}

/// How what an operator returns relates to what it comes to.
pub open spec fn yields<A: Arithmetic>(numbers: &A, outcome: Outcome, r: Result<Value, Error>) -> bool {
    match outcome {
        Outcome::Is(v) => r == Ok::<Value, Error>(v),
        Outcome::Text(t) => r is Ok && r->Ok_0 is String && r->Ok_0->String_0@ == t,
        Outcome::Arith { op, lhs, rhs } => r == Ok::<Value, Error>(
            Value::Number(numbers.applied(op, lhs, rhs)),
        ),
        Outcome::Invalid => r is Err && r->Err_0 is Runtime,
    }
}

/// `a == b` and `!(a != b)` come to the same value, whatever `a` and `b`
/// are.
pub proof fn equal_is_not_unequal(a: Value, b: Value)
    ensures
        binary_outcome(Kind::EqualEqual, a, b) == Outcome::Is(Value::Bool(a.equal(b))),
        binary_outcome(Kind::BangEqual, a, b) == Outcome::Is(Value::Bool(!a.equal(b))),
        unary_outcome(Kind::Bang, Value::Bool(!a.equal(b))) == binary_outcome(
            Kind::EqualEqual,
            a,
            b,
        ),
{
}

/// Applies a binary operator to its operands.
pub fn binary<A: Arithmetic>(kind: Kind, left: &Value, right: &Value, numbers: &A) -> (r: Result<
    Value,
    Error,
>)
    ensures
        yields(numbers, binary_outcome(kind, *left, *right), r),
{
    match (kind, left, right) {
        (Kind::Minus, Value::Number(lhs), Value::Number(rhs)) => Ok(
            Value::Number(numbers.apply(ArithOp::Sub, *lhs, *rhs)),
        ),
        (Kind::Slash, Value::Number(lhs), Value::Number(rhs)) => Ok(
            Value::Number(numbers.apply(ArithOp::Div, *lhs, *rhs)),
        ),
        (Kind::Star, Value::Number(lhs), Value::Number(rhs)) => Ok(
            Value::Number(numbers.apply(ArithOp::Mul, *lhs, *rhs)),
        ),
        (Kind::Plus, Value::Number(lhs), Value::Number(rhs)) => Ok(
            Value::Number(numbers.apply(ArithOp::Add, *lhs, *rhs)),
        ),
        (Kind::Greater, Value::Number(lhs), Value::Number(rhs)) => Ok(
            Value::Bool(lhs.greater(*rhs)),
        ),
        (Kind::GreaterEqual, Value::Number(lhs), Value::Number(rhs)) => Ok(
            Value::Bool(!lhs.less(*rhs)),
        ),
        (Kind::Less, Value::Number(lhs), Value::Number(rhs)) => Ok(Value::Bool(lhs.less(*rhs))),
        (Kind::LessEqual, Value::Number(lhs), Value::Number(rhs)) => Ok(
            Value::Bool(!lhs.greater(*rhs)),
        ),
        (Kind::Plus, Value::String(lhs), Value::String(rhs)) => Ok(
            Value::String(lhs.clone().concat(rhs.as_str())),
        ),
        (Kind::EqualEqual, l, r) => Ok(Value::Bool(l.is_equal(r))),
        (Kind::BangEqual, l, r) => Ok(Value::Bool(!l.is_equal(r))),
        _ => Err(Error::Runtime(String::from_str("Invalid binary operation"))),
    }
}

/// Applies a unary operator to its operand.
pub fn unary(kind: Kind, right: &Value) -> (r: Result<Value, Error>)
    ensures
        match unary_outcome(kind, *right) {
            Outcome::Is(v) => r == Ok::<Value, Error>(v),
            _ => r is Err && r->Err_0 is Runtime,
        },
{
    match (kind, right) {
        (Kind::Minus, Value::Number(n)) => Ok(Value::Number(n.negate())),
        (Kind::Plus, Value::Number(n)) => Ok(Value::Number(*n)),
        (Kind::Bang, a) => Ok(Value::Bool(!a.is_truthy())),
        _ => Err(Error::Runtime(String::from_str("Invalid unary operation"))),
    }
}

/// The text that a value is printed as, a number as the embedding program
/// writes it.
pub open spec fn shown<A: Arithmetic>(numbers: &A, v: Value) -> Option<Seq<char>> {
    match v {
        Value::String(s) => Some(s@),
        Value::Number(n) => Some(numbers.rendered(n)),
        Value::Bool(b) => Some(
            if b {
                "true"@
            } else {
                "false"@
            },
        ),
        Value::Nil => Some("nil"@),
        Value::Func(f) => Some("[fn "@ + f.name@ + "]"@),
        Value::Class(c) => Some("["@ + c.class.name@ + " instance]"@),
        Value::Init(c) => Some("[ctor "@ + c.name@ + "]"@),
        Value::NativeFunc(crate::treewalk::value::NativeFunc::Clock(_)) => Some(
            "[native fn clock]"@,
        ),
        Value::NativeFunc(crate::treewalk::value::NativeFunc::Mod(_)) => Some("[native fn mod]"@),
        Value::Method(m) => Some(m.this_name@ + "."@ + m.func.name@),
    }
}

/// The text that a value is printed as.
pub fn show<A: Arithmetic>(v: &Value, numbers: &A) -> (r: String)
    ensures
        shown(numbers, *v) matches Some(text) ==> r@ == text,
{
    match v {
        Value::String(s) => s.clone(),
        Value::Number(n) => numbers.render(*n),
        Value::Bool(true) => String::from_str("true"),
        Value::Bool(false) => String::from_str("false"),
        Value::Nil => String::from_str("nil"),
        Value::Func(f) => String::from_str("[fn ").concat(f.name.as_str()).concat("]"),
        Value::Class(c) => String::from_str("[").concat(c.class.name.as_str()).concat(" instance]"),
        Value::Init(c) => String::from_str("[ctor ").concat(c.name.as_str()).concat("]"),
        Value::NativeFunc(n) => n.to_string(),
        Value::Method(m) => m.this_name.clone().concat(".").concat(m.func.name.as_str()),
    }
}

/// The number of arguments that calling `callee` takes; `None` where it
/// cannot be called.
pub open spec fn arity_of(callee: Value) -> Option<nat> {
    match callee {
        Value::Func(f) => Some(f.decl.params@.len()),
        Value::Init(c) => Some(init_arity(c.methods@, c.methods@.len() as int)),
        Value::NativeFunc(n) => Some(n.params()),
        Value::Method(m) => Some(m.func.decl.params@.len()),
        _ => None,
    }
}

/// The number of parameters of the last method named `init` among the first
/// `upto` of `methods`; 0 where there is none.
pub open spec fn init_arity(methods: Seq<Function>, upto: int) -> nat
    decreases upto,
{
    if upto <= 0 || upto > methods.len() {
        0
    } else if methods[upto - 1].name@ == "init"@ {
        methods[upto - 1].params@.len()
    } else {
        init_arity(methods, upto - 1)
    }
}

/// The error of a step for which no budget is left, which leaves the
/// interpreter as it was.
pub open spec fn out_of_steps(before: Interpreter, after: Interpreter, e: Error) -> bool {
    e is Runtime && e->Runtime_0@ == "out of steps"@ && after == before
}

/// Whether `after` is `before` with `name` bound anew in the innermost
/// frame.
pub open spec fn declared(
    before: Seq<Map<Seq<char>, Value>>,
    after: Seq<Map<Seq<char>, Value>>,
    name: Seq<char>,
) -> bool {
    &&& after.len() == before.len()
    &&& after == crate::treewalk::env::bind_at(
        before,
        before.len() - 1,
        name,
        after[before.len() - 1][name],
    )
}

/// The environment, a budget of steps and the lines printed so far.
pub struct Interpreter {
    pub env: Env,
    /// How many expressions and statements can still be run; each one run
    /// takes one off.
    pub budget: u64,
    pub printed: Vec<String>,
}

impl Interpreter {
    /// The environment holds at least the frame of the built-in functions
    /// and the frame of the globals.
    pub open spec fn inv(&self) -> bool {
        self.env.frames().len() >= 2
    }

    /// Whether this state can follow `before`: the environment is as deep,
    /// the budget is no larger, and what was printed is still there.
    pub open spec fn follows(&self, before: Interpreter) -> bool {
        &&& self.env.frames().len() == before.env.frames().len()
        &&& self.budget <= before.budget
        &&& before.printed@.len() <= self.printed@.len()
        &&& forall|i: int|
            0 <= i < before.printed@.len() ==> #[trigger] self.printed@[i] == before.printed@[i]
    }

    pub fn new() -> (r: Interpreter)
        ensures
            r.inv(),
            r.env.frames() == seq![
                crate::treewalk::env::builtins(),
                crate::treewalk::env::empty_frame(),
            ],
            r.budget == u64::MAX,
            r.printed@.len() == 0,
    {
        Interpreter { env: Env::root(), budget: u64::MAX, printed: Vec::new() }
    }

    /// The lines printed so far; the interpreter keeps none of them.
    pub fn take_output(&mut self) -> (r: Vec<String>)
        ensures
            r == old(self).printed,
            final(self).printed@.len() == 0,
            final(self).env == old(self).env,
            final(self).budget == old(self).budget,
    {
        let mut out: Vec<String> = Vec::new();
        std::mem::swap(&mut self.printed, &mut out);
        out
    }

    /// Runs one statement of the top level. A `return` that leaves it is an
    /// error.
    pub fn interpret<A: Arithmetic>(&mut self, stmt: &Stmt, numbers: &A) -> (r: Result<(), Error>)
        requires
            old(self).inv(),
        ensures
            final(self).inv(),
            final(self).follows(*old(self)),
            r is Err ==> r->Err_0 is Runtime,
            interpreted(numbers, *stmt, *old(self), *final(self), r),
    {
        let rr = self.execute(stmt, numbers);
        assert(reached_stmt(*self, rr));
        match rr {
            Ok(()) => Ok(()),
            Err(Error::Return(_)) => Err(
                Error::Runtime(String::from_str("return outside function")),
            ),
            Err(e) => Err(e),
        }
    }

    /// Takes one step off the budget; fails where none is left.
    fn spend(&mut self) -> (r: Result<(), Error>)
        ensures
            final(self).env == old(self).env,
            final(self).printed == old(self).printed,
            r is Ok <==> old(self).budget > 0,
            r is Ok ==> final(self).budget == old(self).budget - 1,
            r is Err ==> out_of_steps(*old(self), *final(self), r->Err_0),
    {
        if self.budget == 0 {
            Err(Error::Runtime(String::from_str("out of steps")))
        } else {
            self.budget -= 1;
            Ok(())
        }
    }

    /// Runs one statement. A `return` leaves it as `Error::Return` with the
    /// value returned.
    pub fn execute<A: Arithmetic>(&mut self, stmt: &Stmt, numbers: &A) -> (r: Result<(), Error>)
        requires
            old(self).inv(),
        ensures
            final(self).inv(),
            final(self).follows(*old(self)),
            r is Ok ==> final(self).budget < old(self).budget,
            r is Err ==> r->Err_0 is Runtime || r->Err_0 is Return,
            exec(numbers, *stmt, *old(self), *final(self), r),
        decreases old(self).budget, 0nat,
    {
        match self.spend() {
            Ok(()) => {},
            Err(e) => {
                return Err(e);
            },
        }
        assert(*self == spent(*old(self)));
        match stmt {
            Stmt::Print(e) => self.visit_print_stmt(e, numbers),
            Stmt::Expr(e) => {
                let rv = self.evaluate(e, numbers);
                assert(reached(*self, rv));
                match rv {
                    Ok(_) => Ok(()),
                    Err(x) => Err(x),
                }
            },
            Stmt::Var { name, value } => self.visit_var_stmt(name.as_str(), value, numbers),
            Stmt::Block(list) => self.execute_block(list, numbers),
            Stmt::If { test, consequence, alternate } => {
                let rt = self.evaluate(test, numbers);
                assert(reached(*self, rt));
                match rt {
                    Err(x) => Err(x),
                    Ok(boolean) => {
                        if boolean.is_truthy() {
                            self.execute(consequence, numbers)
                        } else if let Some(alt) = alternate {
                            self.execute(alt, numbers)
                        } else {
                            Ok(())
                        }
                    },
                }
            },
            Stmt::While { test, body } => self.visit_while_stmt(test, body, numbers),
            Stmt::Func(f) => {
                self.visit_func_decl(f);
                Ok(())
            },
            Stmt::Return(value) => {
                match value {
                    Some(e) => {
                        let rv = self.evaluate(e, numbers);
                        assert(reached(*self, rv));
                        match rv {
                            Ok(v) => Err(Error::Return(v)),
                            Err(x) => Err(x),
                        }
                    },
                    None => Err(Error::Return(Value::Nil)),
                }
            },
            Stmt::Class { name, methods } => {
                self.visit_class(name.as_str(), methods);
                Ok(())
            },
        }
    }

    /// Evaluates an expression.
    pub fn evaluate<A: Arithmetic>(&mut self, expr: &Expr, numbers: &A) -> (r: Result<
        Value,
        Error,
    >)
        requires
            old(self).inv(),
        ensures
            final(self).inv(),
            final(self).follows(*old(self)),
            r is Ok ==> final(self).budget < old(self).budget,
            r is Err ==> r->Err_0 is Runtime,
            eval(numbers, *expr, *old(self), *final(self), r),
        decreases old(self).budget, 0nat,
    {
        match self.spend() {
            Ok(()) => {},
            Err(e) => {
                return Err(e);
            },
        }
        assert(*self == spent(*old(self)));
        proof {
            reveal_with_fuel(eval, 2);
        }
        match expr {
            Expr::Binary { left, operator, right } => self.visit_bin(
                left,
                operator.kind.tag(),
                right,
                numbers,
            ),
            Expr::Grouping(inner) => self.evaluate(inner, numbers),
            Expr::Literal(lit) => Ok(Self::visit_lit(lit, numbers)),
            Expr::Unary { operator, right } => {
                let rv = self.evaluate(right, numbers);
                assert(reached(*self, rv));
                match rv {
                    Ok(value) => unary(operator.kind.tag(), &value),
                    Err(e) => Err(e),
                }
            },
            Expr::Var { name, depth } => no_return(self.env.get_at(name.as_str(), *depth)),
            Expr::Assign { name, value, depth } => self.visit_assign(
                name.as_str(),
                value,
                *depth,
                numbers,
            ),
            Expr::Log { left, operator, right } => self.visit_log(
                left,
                operator.kind.tag(),
                right,
                numbers,
            ),
            Expr::Call { callee, arguments } => self.visit_call(callee, arguments, numbers),
            Expr::Get { object, name } => {
                let ro = self.evaluate(object, numbers);
                assert(reached(*self, ro));
                match ro {
                    Ok(holder) => Self::property(holder, name.as_str()),
                    Err(e) => Err(e),
                }
            },
            Expr::Put { object, name, value } => {
                let rv = self.evaluate(value, numbers);
                assert(reached(*self, rv));
                match rv {
                    Ok(value) => {
                        let rs = self.store(object, name.as_str(), value.clone());
                        assert(reached_stmt(*self, rs));
                        match rs {
                            Ok(_) => Ok(value),
                            Err(e) => Err(e),
                        }
                    },
                    Err(e) => Err(e),
                }
            },
            Expr::This => {
                match self.env.get("this") {
                    Ok(Value::Class(inst)) => {
                        let mut inst = inst;
                        inst.this_name = String::from_str("this");
                        Ok(Value::Class(inst))
                    },
                    Ok(v) => Ok(v),
                    Err(e) => no_return(Err(e)),
                }
            },
        }
    }

    /// The property `name` of `holder`.
    fn property(holder: Value, name: &str) -> (r: Result<Value, Error>)
        ensures
            crate::treewalk::semantics::property_value(holder, name@, r),
            r is Err ==> r->Err_0 is Runtime,
    {
        match holder {
            Value::Class(inst) => {
                if inst.fields.depth() == 1 && inst.methods.depth() == 1 {
                    no_return(inst.get(name))
                } else {
                    Err(Error::Runtime(String::from_str("cannot find property")))
                }
            },
            _ => Err(Error::Runtime(String::from_str("cannot find property"))),
        }
    }

    /// The value of a literal: a number as the embedding program reads it.
    fn visit_lit<A: Arithmetic>(lit: &Literal, numbers: &A) -> (r: Value)
        ensures
            match *lit {
                Literal::String(s) => r == Value::String(s),
                Literal::Number(text) => r == Value::Number(numbers.parsed(text@)),
                Literal::Bool(b) => r == Value::Bool(b),
                Literal::Nil => r == Value::Nil,
            },
    {
        lit.clone_into(numbers)
    }

    /// Both operands, the left one first, then the operator.
    fn visit_bin<A: Arithmetic>(&mut self, left: &Expr, op: Kind, right: &Expr, numbers: &A) -> (r:
        Result<Value, Error>)
        requires
            old(self).inv(),
        ensures
            final(self).inv(),
            final(self).follows(*old(self)),
            r is Err ==> r->Err_0 is Runtime,
            r is Ok ==> final(self).budget < old(self).budget,
            eval_binary(numbers, *left, op, *right, *old(self), *final(self), r),
        decreases old(self).budget, 5nat,
    {
        let l = self.evaluate(left, numbers);
        let ghost m = *self;
        assert(reached(m, l));
        match l {
            Err(e) => Err(e),
            Ok(lv) => {
                let rr = self.evaluate(right, numbers);
                assert(reached(*self, rr));
                match rr {
                    Err(e) => Err(e),
                    Ok(rv) => binary(op, &lv, &rv, numbers),
                }
            },
        }
    }

    /// `or` and `and`: the right operand is evaluated only where the left
    /// one does not settle the result, which is a boolean.
    fn visit_log<A: Arithmetic>(&mut self, left: &Expr, op: Kind, right: &Expr, numbers: &A) -> (r:
        Result<Value, Error>)
        requires
            old(self).inv(),
        ensures
            final(self).inv(),
            final(self).follows(*old(self)),
            r is Ok ==> r->Ok_0 is Bool,
            r is Ok ==> final(self).budget < old(self).budget,
            r is Err ==> r->Err_0 is Runtime,
            eval_logical(numbers, *left, op, *right, *old(self), *final(self), r),
        decreases old(self).budget, 5nat,
    {
        let l = self.evaluate(left, numbers);
        assert(reached(*self, l));
        match l {
            Err(e) => Err(e),
            Ok(lv) => {
                let truthy = lv.is_truthy();
                if (op == Kind::Or && !truthy) || (op == Kind::And && truthy) {
                    let rr = self.evaluate(right, numbers);
                    assert(reached(*self, rr));
                    match rr {
                        Err(e) => Err(e),
                        Ok(rv) => Ok(Value::Bool(rv.is_truthy())),
                    }
                } else {
                    Ok(Value::Bool(op == Kind::Or && truthy))
                }
            },
        }
    }

    /// Evaluates the right side and assigns it to the variable that the hop
    /// leads to. An instance that is assigned is from then on stored under
    /// the variable's name.
    fn visit_assign<A: Arithmetic>(
        &mut self,
        name: &str,
        expr: &Expr,
        depth: Option<usize>,
        numbers: &A,
    ) -> (r: Result<Value, Error>)
        requires
            old(self).inv(),
        ensures
            final(self).inv(),
            final(self).follows(*old(self)),
            r is Err ==> r->Err_0 is Runtime,
            r is Ok ==> final(self).budget < old(self).budget,
            eval_assign(numbers, name@, *expr, depth, *old(self), *final(self), r),
        decreases old(self).budget, 5nat,
    {
        let rv = self.evaluate(expr, numbers);
        assert(reached(*self, rv));
        match rv {
            Err(e) => Err(e),
            Ok(val) => {
                let stored = named(val, name);
                assert(kept(stored) && renamed(val, name@, stored));
                no_return(self.env.assign_at(name, depth, stored))
            },
        }
    }

    /// Gives the property `name` of the instance that `object` leads to the
    /// value `value`. `object` must be a variable, `this` or a property.
    fn store(&mut self, object: &Expr, name: &str, value: Value) -> (r: Result<(), Error>)
        requires
            old(self).inv(),
        ensures
            final(self).inv(),
            final(self).follows(*old(self)),
            final(self).budget == old(self).budget,
            r is Err ==> r->Err_0 is Runtime,
            stored(*object, name@, value, *old(self), *final(self), r),
        decreases object,
    {
        match object {
            Expr::Var { name: holder, depth } => self.store_in(
                holder.as_str(),
                *depth,
                name,
                value,
            ),
            Expr::This => self.store_in("this", None, name, value),
            Expr::Get { object: outer, name: field } => {
                let rc = self.load(object);
                assert(noted(rc));
                match rc {
                    Err(e) => Err(e),
                    Ok(current) => {
                        let updated = with_field(current, name, value);
                        assert(kept(updated));
                        self.store(outer, field.as_str(), updated)
                    },
                }
            },
            _ => Err(Error::Runtime(String::from_str("Invalid left hand side of assignment"))),
        }
    }

    /// Sets the field `name` of the instance that the variable `holder` is
    /// bound to.
    fn store_in(&mut self, holder: &str, depth: Option<usize>, name: &str, value: Value) -> (r:
        Result<(), Error>)
        requires
            old(self).inv(),
        ensures
            final(self).inv(),
            final(self).follows(*old(self)),
            final(self).budget == old(self).budget,
            final(self).printed == old(self).printed,
            r is Err ==> r->Err_0 is Runtime,
            crate::treewalk::semantics::stored_in(
                old(self).env.frames(),
                final(self).env.frames(),
                holder@,
                depth,
                name@,
                value,
                r,
            ),
    {
        match self.env.get_at(holder, depth) {
            Err(e) => no_return(Err(e)),
            Ok(current) => {
                let updated = with_field(current, name, value);
                assert(kept(updated));
                match self.env.assign_at(holder, depth, updated) {
                    Ok(_) => Ok(()),
                    Err(e) => no_return(Err(e)),
                }
            },
        }
    }

    /// The value that `object` leads to, where it is a variable, `this` or
    /// a field.
    fn load(&self, object: &Expr) -> (r: Result<Value, Error>)
        ensures
            r is Err ==> r->Err_0 is Runtime,
            loaded(*object, self.env.frames(), r),
        decreases object,
    {
        match object {
            Expr::Var { name, depth } => no_return(self.env.get_at(name.as_str(), *depth)),
            Expr::This => no_return(self.env.get("this")),
            Expr::Get { object: outer, name } => {
                let ro = self.load(outer);
                assert(noted(ro));
                match ro {
                    Err(e) => Err(e),
                    Ok(Value::Class(inst)) => no_return(inst.fields.get(name.as_str())),
                    Ok(_) => Err(
                        Error::Runtime(String::from_str("Invalid left hand side of assignment")),
                    ),
                }
            },
            _ => Err(Error::Runtime(String::from_str("Invalid left hand side of assignment"))),
        }
    }

    /// The callee, then the arguments from left to right, then the call.
    fn visit_call<A: Arithmetic>(&mut self, callee: &Expr, arguments: &Vec<Expr>, numbers: &A) -> (r:
        Result<Value, Error>)
        requires
            old(self).inv(),
        ensures
            final(self).inv(),
            final(self).follows(*old(self)),
            r is Err ==> r->Err_0 is Runtime,
            r is Ok ==> final(self).budget < old(self).budget,
            eval_call(numbers, *callee, arguments@, *old(self), *final(self), r),
        decreases old(self).budget, 9nat,
    {
        let rc = self.evaluate(callee, numbers);
        assert(reached(*self, rc));
        let f = match rc {
            Ok(f) => f,
            Err(e) => {
                return Err(e);
            },
        };
        let ghost m = *self;
        let mut args: Vec<Value> = Vec::new();
        let mut i: usize = 0;
        while i < arguments.len()
            invariant
                self.inv(),
                self.follows(*old(self)),
                self.budget < old(self).budget,
                m.budget < old(self).budget,
                eval(numbers, *callee, *old(self), m, Ok::<Value, Error>(f)),
                i <= arguments@.len(),
                args@.len() == i,
                forall|t: Interpreter, ra: Result<Seq<Value>, Error>|
                    #![trigger eval_args(numbers, arguments@, i as int, args@, *self, t, ra)]
                    eval_args(numbers, arguments@, i as int, args@, *self, t, ra) ==> eval_args(numbers, 
                        arguments@,
                        0,
                        Seq::empty(),
                        m,
                        t,
                        ra,
                    ),
            decreases arguments@.len() - i,
        {
            let ghost cur = *self;
            let ghost acc = args@;
            let rv = self.evaluate(&arguments[i], numbers);
            assert(reached(*self, rv));
            match rv {
                Err(e) => {
                    assert(eval_args(numbers, arguments@, i as int, acc, cur, *self, Err(e)));
                    assert(reached_args(*self, Err::<Seq<Value>, Error>(e)));
                    assert(reached(m, Ok::<Value, Error>(f)));
                    return Err(e);
                },
                Ok(v) => {
                    args.push(v);
                    proof {
                        let next = *self;
                        assert(reached(next, Ok::<Value, Error>(v)));
                        assert forall|t: Interpreter, ra: Result<Seq<Value>, Error>|
                            #![trigger eval_args(numbers, arguments@, i + 1, args@, next, t, ra)]
                            eval_args(numbers, arguments@, i + 1, args@, next, t, ra) implies eval_args(numbers, 
                            arguments@,
                            0,
                            Seq::empty(),
                            m,
                            t,
                            ra,
                        ) by {
                            assert(eval_args(numbers, arguments@, i as int, acc, cur, t, ra));
                        }
                    }
                },
            }
            i += 1;
        }
        assert(eval_args(numbers, arguments@, i as int, args@, *self, *self, Ok(args@)));
        assert(reached_args(*self, Ok::<Seq<Value>, Error>(args@)));
        self.handle_callable(f, args, numbers)
    }

    /// Calls `f` with `arguments`; fails where `f` cannot be called or takes
    /// another number of arguments.
    pub fn handle_callable<A: Arithmetic>(&mut self, f: Value, arguments: Vec<Value>, numbers: &A) -> (r:
        Result<Value, Error>)
        requires
            old(self).inv(),
        ensures
            final(self).inv(),
            final(self).follows(*old(self)),
            r is Err ==> r->Err_0 is Runtime,
            arity_of(f) != Some(arguments@.len()) ==> r is Err && r->Err_0 is Runtime && *final(self)
                == *old(self),
            applied(numbers, f, arguments@, *old(self), *final(self), r),
        decreases old(self).budget, 8nat,
    {
        match f {
            Value::Func(c) => {
                if c.decl.params.len() != arguments.len() {
                    return Err(wrong_arity(c.decl.params.len(), arguments.len()));
                }
                let mut c = c;
                let r = self.call_function(&mut c, &arguments, numbers);
                assert(left(c));
                r
            },
            Value::Init(c) => {
                if class_arity(&c) != arguments.len() {
                    return Err(wrong_arity(class_arity(&c), arguments.len()));
                }
                self.instantiate(&c, &arguments, numbers)
            },
            Value::NativeFunc(c) => {
                if c.arity() != arguments.len() {
                    return Err(wrong_arity(c.arity(), arguments.len()));
                }
                no_return(c.call(numbers, &arguments))
            },
            Value::Method(m) => {
                if m.func.decl.params.len() != arguments.len() {
                    return Err(wrong_arity(m.func.decl.params.len(), arguments.len()));
                }
                self.call_method(&m, &arguments, numbers)
            },
            _ => Err(
                Error::Runtime(
                    String::from_str("Attempt to call a something that is not a function"),
                ),
            ),
        }
    }

    /// Binds the parameters of `decl` to `args` in the innermost frame.
    fn bind_params(&mut self, decl: &Function, args: &Vec<Value>)
        requires
            old(self).inv(),
            decl.params@.len() == args@.len(),
        ensures
            final(self).inv(),
            final(self).follows(*old(self)),
            final(self).budget == old(self).budget,
            final(self).printed == old(self).printed,
            final(self).env.frames() == bound(
                old(self).env.frames(),
                decl.params@,
                args@,
                decl.params@.len() as int,
            ),
    {
        let mut i: usize = 0;
        while i < decl.params.len()
            invariant
                self.inv(),
                self.follows(*old(self)),
                self.budget == old(self).budget,
                self.printed == old(self).printed,
                decl.params@.len() == args@.len(),
                i <= decl.params@.len(),
                self.env.frames() == bound(old(self).env.frames(), decl.params@, args@, i as int),
            decreases decl.params@.len() - i,
        {
            self.env.define(decl.params[i].as_str(), Some(args[i].clone()));
            i += 1;
        }
    }

    /// Runs the statements of `stmts` in the innermost frame, up to the
    /// first that fails or returns.
    fn run_all<A: Arithmetic>(&mut self, stmts: &Vec<Stmt>, numbers: &A) -> (r: Result<(), Error>)
        requires
            old(self).inv(),
        ensures
            final(self).inv(),
            final(self).follows(*old(self)),
            r is Err ==> r->Err_0 is Runtime || r->Err_0 is Return,
            exec_list(numbers, stmts@, 0, *old(self), *final(self), r),
        decreases old(self).budget, 2nat,
    {
        let mut i: usize = 0;
        while i < stmts.len()
            invariant
                self.inv(),
                self.follows(*old(self)),
                i <= stmts@.len(),
                forall|t: Interpreter, rr: Result<(), Error>|
                    #![trigger exec_list(numbers, stmts@, i as int, *self, t, rr)]
                    exec_list(numbers, stmts@, i as int, *self, t, rr) ==> exec_list(numbers, 
                        stmts@,
                        0,
                        *old(self),
                        t,
                        rr,
                    ),
            decreases stmts@.len() - i,
        {
            let ghost cur = *self;
            let ri = self.execute(&stmts[i], numbers);
            assert(reached_stmt(*self, ri));
            match ri {
                Err(x) => {
                    assert(exec_list(numbers, stmts@, i as int, cur, *self, Err(x)));
                    return Err(x);
                },
                Ok(_) => {
                    proof {
                        let next = *self;
                        assert forall|t: Interpreter, rr: Result<(), Error>|
                            #![trigger exec_list(numbers, stmts@, i + 1, next, t, rr)]
                            exec_list(numbers, stmts@, i + 1, next, t, rr) implies exec_list(numbers, 
                            stmts@,
                            0,
                            *old(self),
                            t,
                            rr,
                        ) by {
                            assert(reached_stmt(next, ri));
                            assert(exec_list(numbers, stmts@, i as int, cur, t, rr));
                        }
                    }
                },
            }
            i += 1;
        }
        assert(exec_list(numbers, stmts@, i as int, *self, *self, Ok(())));
        Ok(())
    }

    /// Runs the statements of `stmts` in a frame of their own, which is left
    /// again however they end.
    pub fn execute_block<A: Arithmetic>(&mut self, stmts: &Vec<Stmt>, numbers: &A) -> (r: Result<
        (),
        Error,
    >)
        requires
            old(self).inv(),
        ensures
            final(self).inv(),
            final(self).follows(*old(self)),
            r is Err ==> r->Err_0 is Runtime || r->Err_0 is Return,
            exec_block(numbers, stmts@, *old(self), *final(self), r),
        decreases old(self).budget, 3nat,
    {
        self.env.descend();
        let ghost a = *self;
        let r = self.run_all(stmts, numbers);
        let ghost b = *self;
        self.env.ascend();
        assert(reached_stmt(a, r) && reached_stmt(b, r));
        r
    }

    /// Calls a function. The frames of the caller above the two outermost
    /// ones are set aside and the frames that the function has captured take
    /// their place; the parameters are bound in a new frame and the body
    /// runs there. Then the captured frames, as the body has left them, go
    /// back to the function, the frames of the caller return, and the
    /// function is stored again under its name, where that name is bound.
    pub fn call_function<A: Arithmetic>(&mut self, func: &mut Func, args: &Vec<Value>, numbers: &A) -> (r:
        Result<Value, Error>)
        requires
            old(self).inv(),
            old(func).decl.params@.len() == args@.len(),
        ensures
            final(self).inv(),
            final(self).follows(*old(self)),
            r is Err ==> r->Err_0 is Runtime,
            final(func).name == old(func).name,
            final(func).decl == old(func).decl,
            caller_frames_kept(
                old(self).env.frames(),
                final(self).env.frames(),
                old(func).name@,
            ),
            call_function_rel(numbers, *old(func), *final(func), args@, *old(self), *final(self), r),
        decreases old(self).budget, 7nat,
    {
        let decl = crate::treewalk::value::share(&func.decl);
        let tail = self.env.detach(2);
        self.env.append(func.env.clone());
        self.env.descend();
        assert(self.env.frames() =~= old(self).env.frames().subrange(0, 2) + old(func).env.frames() + seq![crate::treewalk::env::empty_frame()]);
        self.bind_params(&decl, args);
        let ghost a = *self;
        let rb = self.run_all(&decl.body, numbers);
        let ghost b = *self;
        let ghost rbg = rb;
        let ret = match rb {
            Ok(_) => Ok(Value::Nil),
            Err(Error::Return(v)) => Ok(v),
            Err(e) => Err(e),
        };
        self.env.ascend();
        func.env = self.env.detach(2);
        self.env.append(tail);
        proof {
            assert(self.env.frames().len() == old(self).env.frames().len());
            assert forall|i: int| 2 <= i < old(self).env.frames().len() implies self.env.frames()[i]
                == old(self).env.frames()[i] by {}
        }
        let ghost restored = self.env.frames();
        let _ = self.env.assign(func.name.as_str(), Value::Func(func.clone()));
        proof {
            crate::treewalk::env::holder_in_range(restored, func.name@);
            assert forall|i: int| 2 <= i < old(self).env.frames().len() implies (
            #[trigger] self.env.frames()[i]).remove(func.name@) == old(
                self,
            ).env.frames()[i].remove(func.name@) by {
                assert(self.env.frames()[i].remove(func.name@) =~= restored[i].remove(func.name@));
            }
            assert(reached_stmt(a, rbg) && reached_stmt(b, rbg));
        }
        ret
    }

    /// Calls a method: binds `this` to the instance, which is read from the
    /// name it is stored under, runs the body, and stores `this`, as the
    /// body has left it, under that name again.
    pub fn call_method<A: Arithmetic>(&mut self, method: &Method, args: &Vec<Value>, numbers: &A) -> (r:
        Result<Value, Error>)
        requires
            old(self).inv(),
            method.func.decl.params@.len() == args@.len(),
        ensures
            final(self).inv(),
            final(self).follows(*old(self)),
            r is Err ==> r->Err_0 is Runtime,
            call_method_rel(numbers, *method, args@, *old(self), *final(self), r),
        decreases old(self).budget, 6nat,
    {
        let this = match self.env.get(method.this_name.as_str()) {
            Ok(this) => this,
            Err(e) => {
                return no_return(Err(e));
            },
        };
        self.env.descend();
        self.env.define("this", Some(this));
        self.env.descend();
        self.bind_params(&method.func.decl, args);
        let ghost a = *self;
        let rb = self.run_all(&method.func.decl.body, numbers);
        let ghost b = *self;
        let ghost rbg = rb;
        let ret = match rb {
            Ok(_) => Ok(Value::Nil),
            Err(Error::Return(v)) => Ok(v),
            Err(e) => Err(e),
        };
        self.env.ascend();
        let updated_this = self.env.get("this");
        self.env.ascend();
        proof {
            assert(reached_stmt(a, rbg) && reached_stmt(b, rbg));
        }
        match updated_this {
            Ok(v) => {
                let stored = named(v, method.this_name.as_str());
                let ra = self.env.assign(method.this_name.as_str(), stored);
                assert(kept(stored) && noted(ra));
                match ra {
                    Ok(_) => ret,
                    Err(e) => no_return(Err(e)),
                }
            },
            Err(_) => ret,
        }
    }

    /// Makes an instance of `class`: its methods are those that the class
    /// declares, but for `init`, which is called on the new instance with
    /// `args` where the class declares it.
    pub fn instantiate<A: Arithmetic>(&mut self, class: &Class, args: &Vec<Value>, numbers: &A) -> (r:
        Result<Value, Error>)
        requires
            old(self).inv(),
            init_arity(class.methods@, class.methods@.len() as int) == args@.len(),
        ensures
            final(self).inv(),
            final(self).follows(*old(self)),
            r is Ok ==> r->Ok_0 is Class || !has_init(class.methods@, class.methods@.len() as int),
            !has_init(class.methods@, class.methods@.len() as int) ==> r is Ok && r->Ok_0 is Class
                && *final(self) == *old(self),
            r is Err ==> r->Err_0 is Runtime,
            instantiate_rel(numbers, *class, args@, *old(self), *final(self), r),
        decreases old(self).budget, 7nat,
    {
        let mut ret = ClassInstance::new(class.clone());
        let mut init: Option<Method> = None;
        let depth = self.env.depth();
        let mut i: usize = 0;
        while i < class.methods.len()
            invariant
                i <= class.methods@.len(),
                fresh_instance(*class, i as int, ret),
                init is Some == has_init(class.methods@, i as int),
                init is Some ==> init->Some_0.func.decl.params@.len() == init_arity(
                    class.methods@,
                    i as int,
                ) && init->Some_0.func.name@ == "init"@,
                init is Some ==> init->Some_0.func.decl.model()
                    == crate::treewalk::semantics::declared_as(
                    class.methods@,
                    i as int,
                    "init"@,
                ).model() && crate::treewalk::resolver::same_hops_func(
                    crate::treewalk::semantics::declared_as(class.methods@, i as int, "init"@),
                    *init->Some_0.func.decl,
                ),
            decreases class.methods@.len() - i,
        {
            let def = &class.methods[i];
            let func = Func {
                name: def.name.clone(),
                decl: Rc::new(def.duplicate()),
                env: Env::new(0),
                env_idx: class.env_idx,
            };
            let meth = Method { func, this_depth: depth, this_name: String::new() };
            let ghost before = ret;
            if crate::text::same_text(def.name.as_str(), "init") {
                init = Some(meth);
            } else {
                ret.add_method(def.name.as_str(), meth);
            }
            proof {
                let methods = class.methods@;
                assert forall|name: Seq<char>|
                    ret.method_map().dom().contains(name) <==> #[trigger] has_method(
                        methods,
                        i + 1,
                        name,
                    ) by {
                    assert(before.method_map().dom().contains(name) <==> has_method(
                        methods,
                        i as int,
                        name,
                    ));
                }
                assert forall|name: Seq<char>| #[trigger]
                    ret.method_map().dom().contains(name) implies {
                    &&& ret.method_map()[name] is Method
                    &&& ret.method_map()[name]->Method_0.func.name@ == name
                    &&& ret.method_map()[name]->Method_0.this_name@ == Seq::<char>::empty()
                    &&& ret.method_map()[name]->Method_0.func.decl.params@.len() == method_arity(
                        methods,
                        i + 1,
                        name,
                    )
                    &&& ret.method_map()[name]->Method_0.func.decl.model()
                        == crate::treewalk::semantics::declared_as(methods, i + 1, name).model()
                    &&& crate::treewalk::resolver::same_hops_func(
                        crate::treewalk::semantics::declared_as(methods, i + 1, name),
                        *ret.method_map()[name]->Method_0.func.decl,
                    )
                } by {
                    assert(has_method(methods, i + 1, name));
                    crate::treewalk::semantics::has_method_is_not_init(methods, i + 1, name);
                    if name != def.name@ {
                        assert(before.method_map().dom().contains(name));
                    }
                }
            }
            i += 1;
        }
        match init {
            Some(init) => {
                let mut init = init;
                let ghost inst = ret;
                self.env.descend();
                init.this_name = String::from_str("*");
                init.this_depth = self.env.depth();
                self.env.define("*", Some(Value::Class(ret)));
                let ghost a = *self;
                let called = self.call_method(&init, args, numbers);
                let ghost b = *self;
                let updated = self.env.get("*");
                self.env.ascend();
                proof {
                    assert(made(inst, init) && reached(a, called) && reached(b, called));
                }
                match called {
                    Err(e) => Err(e),
                    Ok(_) => match updated {
                        Ok(Value::Class(inst)) => Ok(Value::Class(inst)),
                        _ => Err(
                            Error::Runtime(String::from_str("the initializer lost its instance")),
                        ),
                    },
                }
            },
            None => Ok(Value::Class(ret)),
        }
    }

    /// Evaluates an expression and prints its value.
    fn visit_print_stmt<A: Arithmetic>(&mut self, expr: &Expr, numbers: &A) -> (r: Result<(), Error>)
        requires
            old(self).inv(),
        ensures
            final(self).inv(),
            final(self).follows(*old(self)),
            r is Ok ==> final(self).printed@.len() > old(self).printed@.len(),
            r is Ok ==> final(self).budget < old(self).budget,
            r is Err ==> r->Err_0 is Runtime,
            exec_print(numbers, *expr, *old(self), *final(self), r),
        decreases old(self).budget, 5nat,
    {
        let rv = self.evaluate(expr, numbers);
        let ghost m = *self;
        assert(reached(m, rv));
        match rv {
            Err(x) => Err(x),
            Ok(value) => {
                self.printed.push(show(&value, numbers));
                assert(self.printed@.drop_last() =~= m.printed@);
                Ok(())
            },
        }
    }

    /// Declares a variable: binds its name in the innermost frame to the
    /// value of the initializer, or to `nil` without one. An instance or a
    /// function is from then on stored under the variable's name.
    fn visit_var_stmt<A: Arithmetic>(&mut self, name: &str, expr: &Option<Expr>, numbers: &A) -> (r:
        Result<(), Error>)
        requires
            old(self).inv(),
        ensures
            final(self).inv(),
            final(self).follows(*old(self)),
            r is Err ==> r->Err_0 is Runtime,
            exec_var(numbers, name@, *expr, *old(self), *final(self), r),
        decreases old(self).budget, 5nat,
    {
        match expr {
            Some(e) => {
                let rv = self.evaluate(e, numbers);
                assert(reached(*self, rv));
                match rv {
                    Err(x) => Err(x),
                    Ok(v) => {
                        let stored = named(v, name);
                        assert(kept(stored) && renamed(v, name@, stored));
                        self.env.define(name, Some(stored));
                        Ok(())
                    },
                }
            },
            None => {
                self.env.define(name, None);
                Ok(())
            },
        }
    }

    /// Runs the body as long as the condition is truthy.
    fn visit_while_stmt<A: Arithmetic>(&mut self, test: &Expr, body: &Stmt, numbers: &A) -> (r:
        Result<(), Error>)
        requires
            old(self).inv(),
        ensures
            final(self).inv(),
            final(self).follows(*old(self)),
            r is Err ==> r->Err_0 is Runtime || r->Err_0 is Return,
            exec_while(numbers, *test, *body, *old(self), *final(self), r),
        decreases old(self).budget, 5nat,
    {
        loop
            invariant
                self.inv(),
                self.follows(*old(self)),
                forall|t: Interpreter, rr: Result<(), Error>|
                    #![trigger exec_while(numbers, *test, *body, *self, t, rr)]
                    exec_while(numbers, *test, *body, *self, t, rr) ==> exec_while(numbers, 
                        *test,
                        *body,
                        *old(self),
                        t,
                        rr,
                    ),
            decreases self.budget,
        {
            let ghost cur = *self;
            let rt = self.evaluate(test, numbers);
            let ghost m = *self;
            assert(reached(m, rt));
            let go = match rt {
                Err(x) => {
                    assert(exec_while(numbers, *test, *body, cur, m, Err(x)));
                    return Err(x);
                },
                Ok(go) => go,
            };
            if !go.is_truthy() {
                assert(exec_while(numbers, *test, *body, cur, m, Ok(())));
                return Ok(());
            }
            let rb = self.execute(body, numbers);
            let ghost n = *self;
            assert(reached_stmt(n, rb));
            match rb {
                Err(x) => {
                    assert(exec_while(numbers, *test, *body, cur, n, Err(x)));
                    return Err(x);
                },
                Ok(_) => {
                    proof {
                        assert forall|t: Interpreter, rr: Result<(), Error>|
                            #![trigger exec_while(numbers, *test, *body, n, t, rr)]
                            exec_while(numbers, *test, *body, n, t, rr) implies exec_while(numbers, 
                            *test,
                            *body,
                            *old(self),
                            t,
                            rr,
                        ) by {
                            assert(reached(m, rt));
                            assert(reached_stmt(n, rb));
                            assert(exec_while(numbers, *test, *body, cur, t, rr));
                        }
                    }
                },
            }
        }
    }

    /// Declares a function: it captures the frames above the two outermost
    /// ones as they are, and is bound to its name in the innermost frame.
    fn visit_func_decl(&mut self, decl: &Function)
        requires
            old(self).inv(),
        ensures
            final(self).inv(),
            final(self).follows(*old(self)),
            final(self).budget == old(self).budget,
            final(self).printed == old(self).printed,
            declared(old(self).env.frames(), final(self).env.frames(), decl.name@),
            final(self).env.frames().last()[decl.name@] is Func,
            final(self).env.frames().last()[decl.name@]->Func_0.name@ == decl.name@,
            final(self).env.frames().last()[decl.name@]->Func_0.env.frames()
                == crate::treewalk::env::detached(old(self).env.frames(), 2),
            final(self).env.frames().last()[decl.name@]->Func_0.decl.params@.len()
                == decl.params@.len(),
            final(self).env.frames().last()[decl.name@]->Func_0.decl.model() == decl.model(),
            crate::treewalk::resolver::same_hops_func(
                *decl,
                *final(self).env.frames().last()[decl.name@]->Func_0.decl,
            ),
    {
        let env = self.env.clone_to_base();
        let func = Func {
            name: decl.name.clone(),
            decl: Rc::new(decl.duplicate()),
            env,
            env_idx: self.env.depth() - 1,
        };
        self.env.define(decl.name.as_str(), Some(Value::Func(func)));
    }

    /// Declares a class: its name is bound, in the innermost frame, to what
    /// makes instances of it.
    fn visit_class(&mut self, name: &str, methods: &Vec<Function>)
        requires
            old(self).inv(),
        ensures
            final(self).inv(),
            final(self).follows(*old(self)),
            final(self).budget == old(self).budget,
            final(self).printed == old(self).printed,
            declared(old(self).env.frames(), final(self).env.frames(), name@),
            final(self).env.frames().last()[name@] is Init,
            final(self).env.frames().last()[name@]->Init_0.name@ == name@,
            final(self).env.frames().last()[name@]->Init_0.methods@.len() == methods@.len(),
            forall|i: int|
                0 <= i < methods@.len() ==> (#[trigger] final(self).env.frames().last()[name@]->Init_0.methods@[i]).model()
                    == methods@[i].model() && crate::treewalk::resolver::same_hops_func(
                    methods@[i],
                    final(self).env.frames().last()[name@]->Init_0.methods@[i],
                ),
    {
        let class = Class {
            name: String::from_str(name),
            methods: Rc::new(duplicate_functions(methods)),
            env_idx: self.env.depth(),
        };
        self.env.define(name, Some(Value::Init(class)));
    }
}

impl Func {
    /// Calls this function with `args` in the interpreter `interp`; see
    /// `Interpreter::call_function`.
    pub fn call<A: Arithmetic>(&mut self, interp: &mut Interpreter, args: &Vec<Value>, numbers: &A) -> (r:
        Result<Value, Error>)
        requires
            old(interp).inv(),
            old(self).decl.params@.len() == args@.len(),
        ensures
            final(interp).inv(),
            final(interp).follows(*old(interp)),
            r is Err ==> r->Err_0 is Runtime,
            final(self).name == old(self).name,
            final(self).decl == old(self).decl,
            caller_frames_kept(
                old(interp).env.frames(),
                final(interp).env.frames(),
                old(self).name@,
            ),
            call_function_rel(numbers, *old(self), *final(self), args@, *old(interp), *final(interp), r),
    {
        interp.call_function(self, args, numbers)
    }
}

impl Method {
    /// Calls this method with `args` in the interpreter `interp`; see
    /// `Interpreter::call_method`.
    pub fn call<A: Arithmetic>(&self, interp: &mut Interpreter, args: &Vec<Value>, numbers: &A) -> (r:
        Result<Value, Error>)
        requires
            old(interp).inv(),
            self.func.decl.params@.len() == args@.len(),
        ensures
            final(interp).inv(),
            final(interp).follows(*old(interp)),
            r is Err ==> r->Err_0 is Runtime,
            call_method_rel(numbers, *self, args@, *old(interp), *final(interp), r),
    {
        interp.call_method(self, args, numbers)
    }
}

impl Class {
    /// Makes an instance of this class with `args` in the interpreter
    /// `interp`; see `Interpreter::instantiate`.
    pub fn call<A: Arithmetic>(&self, interp: &mut Interpreter, args: &Vec<Value>, numbers: &A) -> (r:
        Result<Value, Error>)
        requires
            old(interp).inv(),
            init_arity(self.methods@, self.methods@.len() as int) == args@.len(),
        ensures
            final(interp).inv(),
            final(interp).follows(*old(interp)),
            r is Ok ==> r->Ok_0 is Class || !has_init(self.methods@, self.methods@.len() as int),
            !has_init(self.methods@, self.methods@.len() as int) ==> r is Ok && r->Ok_0 is Class
                && *final(interp) == *old(interp),
            r is Err ==> r->Err_0 is Runtime,
            instantiate_rel(numbers, *self, args@, *old(interp), *final(interp), r),
    {
        interp.instantiate(self, args, numbers)
    }
}

impl Default for Interpreter {
    fn default() -> (r: Interpreter)
        ensures
            r.inv(),
            r.env.frames() == seq![
                crate::treewalk::env::builtins(),
                crate::treewalk::env::empty_frame(),
            ],
            r.budget == u64::MAX,
            r.printed@.len() == 0,
    {
        Interpreter::new()
    }
}

/// Whether the frames of the caller are as they were before a call of the
/// function stored under `name`: as many, and above the two outermost ones
/// each binds what it bound, but for `name` itself.
pub open spec fn caller_frames_kept(
    before: Seq<Map<Seq<char>, Value>>,
    after: Seq<Map<Seq<char>, Value>>,
    name: Seq<char>,
) -> bool {
    &&& after.len() == before.len()
    &&& forall|i: int|
        2 <= i < before.len() ==> (#[trigger] after[i]).remove(name) == before[i].remove(name)
}

/// Whether one of the first `upto` of `methods` is named `init`.
pub open spec fn has_init(methods: Seq<Function>, upto: int) -> bool
    decreases upto,
{
    if upto <= 0 || upto > methods.len() {
        false
    } else {
        methods[upto - 1].name@ == "init"@ || has_init(methods, upto - 1)
    }
}

/// The number of arguments that making an instance of `class` takes.
fn class_arity(class: &Class) -> (r: usize)
    ensures
        r == init_arity(class.methods@, class.methods@.len() as int),
{
    let mut k: usize = class.methods.len();
    while k > 0
        invariant
            k <= class.methods@.len(),
            init_arity(class.methods@, class.methods@.len() as int) == init_arity(
                class.methods@,
                k as int,
            ),
        decreases k,
    {
        if crate::text::same_text(class.methods[k - 1].name.as_str(), "init") {
            return class.methods[k - 1].params.len();
        }
        k -= 1;
    }
    0
}

/// An error that is no `Return`: a `Return` that got this far counts as a
/// runtime error.
fn no_return<T>(r: Result<T, Error>) -> (out: Result<T, Error>)
    ensures
        r is Ok ==> out == r,
        r is Err && !(r->Err_0 is Return) ==> out == r,
        r is Err ==> out is Err && !(out->Err_0 is Return),
        r is Err && r->Err_0 is Runtime ==> out == r,
{
    match r {
        Ok(v) => Ok(v),
        Err(Error::Return(_)) => Err(Error::Runtime(String::from_str("return outside function"))),
        Err(e) => Err(e),
    }
}

fn wrong_arity(expected: usize, provided: usize) -> (r: Error)
    ensures
        r is Runtime,
{
    Error::Runtime(
        String::from_str("was expecting ").concat(
            crate::text::decimal_text(expected).as_str(),
        ).concat(" arguments but ").concat(crate::text::decimal_text(provided).as_str()).concat(
            " were provided",
        ),
    )
}

/// A value as it is stored under `name`: an instance and a function take
/// the name along, any other value is as it was.
fn named(v: Value, name: &str) -> (r: Value)
    ensures
        match v {
            Value::Class(inst) => r is Class && r->Class_0.this_name@ == name@
                && r->Class_0.fields == inst.fields && r->Class_0.methods == inst.methods
                && r->Class_0.class == inst.class,
            Value::Func(f) => r is Func && r->Func_0.name@ == name@ && r->Func_0.decl == f.decl
                && r->Func_0.env == f.env,
            _ => r == v,
        },
{
    match v {
        Value::Class(inst) => {
            let mut inst = inst;
            inst.this_name = String::from_str(name);
            Value::Class(inst)
        },
        Value::Func(f) => {
            let mut f = f;
            f.name = String::from_str(name);
            Value::Func(f)
        },
        other => other,
    }
}

/// `holder` with its field `name` set to `value`, where it is an instance;
/// any other value as it is.
fn with_field(holder: Value, name: &str, value: Value) -> (r: Value)
    ensures
        !(holder is Class) ==> r == holder,
        holder is Class ==> r is Class,
        field_set(holder, name@, value, r),
{
    match holder {
        Value::Class(inst) => {
            let mut inst = inst;
            if inst.fields.depth() == 1 && inst.methods.depth() == 1 {
                inst.set(name, value);
            }
            Value::Class(inst)
        },
        other => other,
    }
}

} // verus!
