//! What evaluation comes to: the relation between the interpreter before a
//! step, the interpreter after it and what the step returns. A number that
//! is read, computed or written is the one that the embedding program's
//! `parsed`, `applied` or `rendered` names; the clock is taken as it comes.

use vstd::prelude::*;
use crate::number::ArithOp;
use crate::number::Arithmetic;
use crate::treewalk::class::undefined_property;
use crate::treewalk::env::assigned;
use crate::treewalk::env::bind_at;
use crate::treewalk::env::detached;
use crate::treewalk::env::empty_frame;
use crate::treewalk::env::fetched;
use crate::treewalk::env::holder;
use crate::treewalk::env::undefined_text;
use crate::treewalk::error::Error;
use crate::treewalk::expr::Expr;
use crate::treewalk::expr::Literal;
use crate::treewalk::interpreter::Interpreter;
use crate::treewalk::interpreter::arity_of;
use crate::treewalk::interpreter::binary_outcome;
use crate::treewalk::interpreter::declared;
use crate::treewalk::interpreter::has_init;
use crate::treewalk::interpreter::init_arity;
use crate::treewalk::interpreter::out_of_steps;
use crate::treewalk::interpreter::shown;
use crate::treewalk::interpreter::unary_outcome;
use crate::treewalk::interpreter::yields;
use crate::treewalk::stmt::Function;
use crate::treewalk::stmt::Stmt;
use crate::treewalk::token::Kind;
use crate::treewalk::value::Class;
use crate::treewalk::value::ClassInstance;
use crate::treewalk::value::Func;
use crate::treewalk::value::Method;
use crate::treewalk::value::NativeFunc;
use crate::treewalk::value::Value;

verus! {

/// The interpreter with one step taken off its budget.
pub open spec fn spent(s: Interpreter) -> Interpreter {
    Interpreter { env: s.env, budget: (s.budget - 1) as u64, printed: s.printed }
}

/// Marks `m` and `r` as the interpreter after a part has been evaluated
/// and what that part returned.
pub open spec fn reached(m: Interpreter, r: Result<Value, Error>) -> bool {
    true
}

/// As `reached`, for the arguments of a call.
pub open spec fn reached_args(m: Interpreter, r: Result<Seq<Value>, Error>) -> bool {
    true
}

/// Marks `v` as a value as it is stored.
pub open spec fn kept(v: Value) -> bool {
    true
}

/// What a literal evaluates to: its value, and for a number what the
/// embedding program reads from its text.
pub open spec fn literal_value<A: Arithmetic>(numbers: &A, lit: Literal, r: Result<Value, Error>) -> bool {
    match lit {
        Literal::String(s) => r == Ok::<Value, Error>(Value::String(s)),
        Literal::Number(text) => r == Ok::<Value, Error>(Value::Number(numbers.parsed(text@))),
        Literal::Bool(b) => r == Ok::<Value, Error>(Value::Bool(b)),
        Literal::Nil => r == Ok::<Value, Error>(Value::Nil),
    }
}

/// Whether `stored` is `v` as it is stored under `name`: an instance and a
/// function take the name along, any other value is as it was.
pub open spec fn renamed(v: Value, name: Seq<char>, stored: Value) -> bool {
    match v {
        Value::Class(inst) => stored is Class && stored->Class_0.this_name@ == name
            && stored->Class_0.fields == inst.fields && stored->Class_0.methods == inst.methods
            && stored->Class_0.class == inst.class,
        Value::Func(f) => stored is Func && stored->Func_0.name@ == name && stored->Func_0.decl
            == f.decl && stored->Func_0.env == f.env,
        _ => stored == v,
    }
}

/// What `this` evaluates to: what the innermost frame that binds `this`
/// binds it to, an instance from then on being stored under `this`; an
/// error where no frame binds it.
pub open spec fn this_value(frames: Seq<Map<Seq<char>, Value>>, r: Result<Value, Error>) -> bool {
    match holder(frames, "this"@) {
        Some(i) => r is Ok && renamed_instance(frames[i]["this"@], "this"@, r->Ok_0),
        None => r is Err && r->Err_0 is Runtime && r->Err_0->Runtime_0@ == undefined_text("this"@),
    }
}

/// As `renamed`, but only an instance takes the name along.
pub open spec fn renamed_instance(v: Value, name: Seq<char>, stored: Value) -> bool {
    match v {
        Value::Class(inst) => stored is Class && stored->Class_0.this_name@ == name
            && stored->Class_0.fields == inst.fields && stored->Class_0.methods == inst.methods
            && stored->Class_0.class == inst.class,
        _ => stored == v,
    }
}

/// What a property of `holder` evaluates to: the field or method of that
/// name where `holder` is an instance that has one, else an error.
pub open spec fn property_value(holder: Value, name: Seq<char>, r: Result<Value, Error>) -> bool {
    match holder {
        Value::Class(inst) => if inst.wf() {
            match inst.property(name) {
                Some(p) => r == Ok::<Value, Error>(p),
                None => r is Err && r->Err_0 is Runtime && r->Err_0->Runtime_0@
                    == undefined_property(inst.class.name@, name),
            }
        } else {
            r is Err && r->Err_0 is Runtime
        },
        _ => r is Err && r->Err_0 is Runtime,
    }
}

/// Marks `r` as what a part of a path has led to.
pub open spec fn noted(r: Result<Value, Error>) -> bool {
    true
}

/// Whether `updated` is `holder` with its field `name` set to `value`,
/// where `holder` is an instance; any other value is as it was.
pub open spec fn field_set(holder: Value, name: Seq<char>, value: Value, updated: Value) -> bool {
    match holder {
        Value::Class(inst) => {
            &&& updated is Class
            &&& updated->Class_0.class == inst.class
            &&& updated->Class_0.methods == inst.methods
            &&& updated->Class_0.this_name == inst.this_name
            &&& if inst.wf() {
                updated->Class_0.wf() && updated->Class_0.field_map() == inst.field_map().insert(
                    name,
                    value,
                )
            } else {
                updated->Class_0.fields == inst.fields
            }
        },
        _ => updated == holder,
    }
}

/// What the path `object` leads to under `frames`: a variable and `this`
/// to what they are bound to, a property to the field of that name of the
/// instance that its holder leads to; anything else is no path.
pub open spec fn loaded(object: Expr, frames: Seq<Map<Seq<char>, Value>>, r: Result<Value, Error>) -> bool
    decreases object,
{
    match object {
        Expr::Var { name, depth } => fetched(frames, name@, depth, r),
        Expr::This => fetched(frames, "this"@, None, r),
        Expr::Get { object: outer, name } => exists|ro: Result<Value, Error>|
            #![trigger noted(ro)]
            noted(ro) && loaded(*outer, frames, ro) && match ro {
                Err(e) => r == Err::<Value, Error>(e),
                Ok(v) => match v {
                    Value::Class(inst) => fetched(inst.fields.frames(), name@, None, r),
                    _ => r is Err && r->Err_0 is Runtime,
                },
            },
        _ => r is Err && r->Err_0 is Runtime,
    }
}

/// Storing `v` in the field `name` of the instance that the variable
/// `holder` is bound to: the variable is bound to the instance with that
/// field set; it fails where no frame binds the variable.
pub open spec fn stored_in(
    before: Seq<Map<Seq<char>, Value>>,
    after: Seq<Map<Seq<char>, Value>>,
    holder: Seq<char>,
    depth: Option<usize>,
    name: Seq<char>,
    v: Value,
    r: Result<(), Error>,
) -> bool {
    match crate::treewalk::env::target(before, holder, depth) {
        Some(i) => r is Ok && exists|updated: Value|
            #![trigger kept(updated)]
            kept(updated) && field_set(before[i][holder], name, v, updated) && after
                == crate::treewalk::env::bind_at(before, i, holder, updated),
        None => after == before && r is Err && r->Err_0 is Runtime && r->Err_0->Runtime_0@
            == undefined_text(holder),
    }
}

/// Storing `v` in the property `name` of what the path `object` leads to
/// takes the interpreter from `s` to `t` and returns `r`: the instance
/// with the field set is written back along the path, down to the variable
/// that the path starts from. It takes no step and prints nothing.
pub open spec fn stored(
    object: Expr,
    name: Seq<char>,
    v: Value,
    s: Interpreter,
    t: Interpreter,
    r: Result<(), Error>,
) -> bool
    decreases object,
{
    &&& t.budget == s.budget
    &&& t.printed == s.printed
    &&& match object {
        Expr::Var { name: holder, depth } => stored_in(
            s.env.frames(),
            t.env.frames(),
            holder@,
            depth,
            name,
            v,
            r,
        ),
        Expr::This => stored_in(s.env.frames(), t.env.frames(), "this"@, None, name, v, r),
        Expr::Get { object: outer, name: field } => exists|rc: Result<Value, Error>|
            #![trigger noted(rc)]
            noted(rc) && loaded(object, s.env.frames(), rc) && match rc {
                Err(e) => t == s && r == Err::<(), Error>(e),
                Ok(current) => exists|updated: Value|
                    #![trigger kept(updated)]
                    kept(updated) && field_set(current, name, v, updated) && stored(
                        *outer,
                        field@,
                        updated,
                        s,
                        t,
                        r,
                    ),
            },
        _ => t == s && r is Err && r->Err_0 is Runtime,
    }
}

/// Evaluating `expr` takes the interpreter from `s` to `t` and returns `r`.
/// Without budget it fails and changes nothing; else it takes one step off
/// the budget and goes by the kind of expression. The parts of an
/// expression are evaluated from left to right, and the first that fails
/// ends the evaluation with its error.
pub open spec fn eval<A: Arithmetic>(numbers: &A, expr: Expr, s: Interpreter, t: Interpreter, r: Result<Value, Error>) -> bool
    decreases s.budget, 0nat, 0nat,
{
    if s.budget == 0 {
        r is Err && out_of_steps(s, t, r->Err_0)
    } else {
        match expr {
            Expr::Literal(lit) => t == spent(s) && literal_value(numbers, lit, r),
            Expr::Var { name, depth } => t == spent(s) && fetched(
                s.env.frames(),
                name@,
                depth,
                r,
            ),
            Expr::This => t == spent(s) && this_value(s.env.frames(), r),
            Expr::Grouping(inner) => eval(numbers, *inner, spent(s), t, r),
            Expr::Unary { operator, right } => eval_unary(numbers, 
                operator.kind.kind(),
                *right,
                spent(s),
                t,
                r,
            ),
            Expr::Binary { left, operator, right } => eval_binary(numbers, 
                *left,
                operator.kind.kind(),
                *right,
                spent(s),
                t,
                r,
            ),
            Expr::Log { left, operator, right } => eval_logical(numbers, 
                *left,
                operator.kind.kind(),
                *right,
                spent(s),
                t,
                r,
            ),
            Expr::Assign { name, value, depth } => eval_assign(numbers, name@, *value, depth, spent(s), t, r),
            Expr::Call { callee, arguments } => eval_call(numbers, *callee, arguments@, spent(s), t, r),
            Expr::Get { object, name } => eval_get(numbers, *object, name@, spent(s), t, r),
            Expr::Put { object, name, value } => eval_put(numbers, *object, name@, *value, spent(s), t, r),
        }
    }
}

/// A unary operator: the operand, then the operator on its value.
pub open spec fn eval_unary<A: Arithmetic>(numbers: &A, 
    kind: Kind,
    right: Expr,
    s: Interpreter,
    t: Interpreter,
    r: Result<Value, Error>,
) -> bool
    decreases s.budget, 1nat, 0nat,
{
    exists|rv: Result<Value, Error>|
        #![trigger reached(t, rv)]
        reached(t, rv) && eval(numbers, right, s, t, rv) && match rv {
            Err(e) => r == Err::<Value, Error>(e),
            Ok(v) => yields(numbers, unary_outcome(kind, v), r),
        }
}

/// A binary operator: the left operand, the right operand, then the
/// operator on their values.
pub open spec fn eval_binary<A: Arithmetic>(numbers: &A, 
    left: Expr,
    kind: Kind,
    right: Expr,
    s: Interpreter,
    t: Interpreter,
    r: Result<Value, Error>,
) -> bool
    decreases s.budget, 1nat, 0nat,
{
    exists|m: Interpreter, l: Result<Value, Error>|
        #![trigger reached(m, l)]
        reached(m, l) && eval(numbers, left, s, m, l) && m.budget <= s.budget && match l {
            Err(e) => t == m && r == Err::<Value, Error>(e),
            Ok(lv) => exists|rr: Result<Value, Error>|
                #![trigger reached(t, rr)]
                reached(t, rr) && eval(numbers, right, m, t, rr) && match rr {
                    Err(e) => r == Err::<Value, Error>(e),
                    Ok(rv) => yields(numbers, binary_outcome(kind, lv, rv), r),
                },
        }
}

/// `or` and `and`: the left operand, and the right one only where the left
/// one does not settle the result; the result is a boolean.
pub open spec fn eval_logical<A: Arithmetic>(numbers: &A, 
    left: Expr,
    kind: Kind,
    right: Expr,
    s: Interpreter,
    t: Interpreter,
    r: Result<Value, Error>,
) -> bool
    decreases s.budget, 1nat, 0nat,
{
    exists|m: Interpreter, l: Result<Value, Error>|
        #![trigger reached(m, l)]
        reached(m, l) && eval(numbers, left, s, m, l) && m.budget <= s.budget && match l {
            Err(e) => t == m && r == Err::<Value, Error>(e),
            Ok(lv) => if (kind == Kind::Or && !lv.truthy()) || (kind == Kind::And && lv.truthy()) {
                exists|rr: Result<Value, Error>|
                    #![trigger reached(t, rr)]
                    reached(t, rr) && eval(numbers, right, m, t, rr) && match rr {
                        Err(e) => r == Err::<Value, Error>(e),
                        Ok(rv) => r == Ok::<Value, Error>(Value::Bool(rv.truthy())),
                    }
            } else {
                t == m && r == Ok::<Value, Error>(Value::Bool(kind == Kind::Or && lv.truthy()))
            },
        }
}

/// An assignment: the right side, then its value, as it is stored under
/// the name, is given to the variable that the hop leads to.
pub open spec fn eval_assign<A: Arithmetic>(numbers: &A, 
    name: Seq<char>,
    value: Expr,
    depth: Option<usize>,
    s: Interpreter,
    t: Interpreter,
    r: Result<Value, Error>,
) -> bool
    decreases s.budget, 1nat, 0nat,
{
    exists|m: Interpreter, rv: Result<Value, Error>|
        #![trigger reached(m, rv)]
        reached(m, rv) && eval(numbers, value, s, m, rv) && match rv {
            Err(e) => t == m && r == Err::<Value, Error>(e),
            Ok(v) => exists|nv: Value|
                #![trigger kept(nv)]
                kept(nv) && renamed(v, name, nv) && assigned(
                    m.env.frames(),
                    t.env.frames(),
                    name,
                    depth,
                    nv,
                    r,
                ) && t.budget == m.budget && t.printed == m.printed,
        }
}

/// A property that is read: the holder, then its property.
pub open spec fn eval_get<A: Arithmetic>(numbers: &A, 
    object: Expr,
    name: Seq<char>,
    s: Interpreter,
    t: Interpreter,
    r: Result<Value, Error>,
) -> bool
    decreases s.budget, 1nat, 0nat,
{
    exists|ro: Result<Value, Error>|
        #![trigger reached(t, ro)]
        reached(t, ro) && eval(numbers, object, s, t, ro) && match ro {
            Err(e) => r == Err::<Value, Error>(e),
            Ok(v) => property_value(v, name, r),
        }
}

/// A property that is assigned: the right side, then its value is stored.
pub open spec fn eval_put<A: Arithmetic>(numbers: &A, 
    object: Expr,
    name: Seq<char>,
    value: Expr,
    s: Interpreter,
    t: Interpreter,
    r: Result<Value, Error>,
) -> bool
    decreases s.budget, 1nat, 0nat,
{
    exists|m: Interpreter, rv: Result<Value, Error>|
        #![trigger reached(m, rv)]
        reached(m, rv) && eval(numbers, value, s, m, rv) && match rv {
            Err(e) => t == m && r == Err::<Value, Error>(e),
            Ok(v) => exists|rs: Result<(), Error>|
                #![trigger reached_stmt(t, rs)]
                reached_stmt(t, rs) && stored(object, name, v, m, t, rs) && match rs {
                    Ok(_) => r == Ok::<Value, Error>(v),
                    Err(e) => r == Err::<Value, Error>(e),
                },
        }
}

/// The arguments of a call from index `from` on, behind those of `acc`.
pub open spec fn eval_args<A: Arithmetic>(numbers: &A, 
    list: Seq<Expr>,
    from: int,
    acc: Seq<Value>,
    s: Interpreter,
    t: Interpreter,
    r: Result<Seq<Value>, Error>,
) -> bool
    decreases s.budget, 2nat, list.len() - from,
{
    if from < 0 || from >= list.len() {
        t == s && r == Ok::<Seq<Value>, Error>(acc)
    } else {
        exists|m: Interpreter, rv: Result<Value, Error>|
            #![trigger reached(m, rv)]
            reached(m, rv) && eval(numbers, list[from], s, m, rv) && m.budget <= s.budget && match rv {
                Err(e) => t == m && r == Err::<Seq<Value>, Error>(e),
                Ok(v) => eval_args(numbers, list, from + 1, acc.push(v), m, t, r),
            }
    }
}

/// A call: the callee, the arguments from left to right, then the call.
pub open spec fn eval_call<A: Arithmetic>(numbers: &A, 
    callee: Expr,
    arguments: Seq<Expr>,
    s: Interpreter,
    t: Interpreter,
    r: Result<Value, Error>,
) -> bool
    decreases s.budget, 9nat, 0nat,
{
    exists|m: Interpreter, rc: Result<Value, Error>|
        #![trigger reached(m, rc)]
        reached(m, rc) && eval(numbers, callee, s, m, rc) && m.budget <= s.budget && match rc {
            Err(e) => t == m && r == Err::<Value, Error>(e),
            Ok(f) => exists|n: Interpreter, ra: Result<Seq<Value>, Error>|
                #![trigger reached_args(n, ra)]
                reached_args(n, ra) && eval_args(numbers, arguments, 0, Seq::empty(), m, n, ra) && n.budget
                    <= s.budget && match ra {
                    Err(e) => t == n && r == Err::<Value, Error>(e),
                    Ok(args) => applied(numbers, f, args, n, t, r),
                },
        }
}

/// As `reached`, for a statement.
pub open spec fn reached_stmt(m: Interpreter, r: Result<(), Error>) -> bool {
    true
}

/// The frames once the innermost one has been left; the outermost frame
/// never leaves, it is emptied instead.
pub open spec fn ascended(frames: Seq<Map<Seq<char>, Value>>) -> Seq<Map<Seq<char>, Value>> {
    if frames.len() == 1 {
        seq![empty_frame()]
    } else if frames.len() == 0 {
        frames
    } else {
        frames.drop_last()
    }
}

/// Whether `t` is `s` with `v` bound to `name` in the innermost frame.
pub open spec fn defined(s: Interpreter, t: Interpreter, name: Seq<char>, v: Value) -> bool {
    &&& t.env.frames() == bind_at(s.env.frames(), s.env.frames().len() - 1, name, v)
    &&& t.budget == s.budget
    &&& t.printed == s.printed
}

/// Whether `t` is `s` with one more line printed, which is the text of
/// `v`.
pub open spec fn printed_value<A: Arithmetic>(numbers: &A, s: Interpreter, t: Interpreter, v: Value) -> bool {
    &&& t.env == s.env
    &&& t.budget == s.budget
    &&& t.printed@.len() == s.printed@.len() + 1
    &&& t.printed@.drop_last() == s.printed@
    &&& shown(numbers, v) matches Some(text) ==> t.printed@.last()@ == text
}

/// Running `stmt` takes the interpreter from `s` to `t` and returns `r`.
/// Without budget it fails and changes nothing; else it takes one step off
/// the budget and goes by the kind of statement. A `return` leaves with
/// `Error::Return` and the value returned.
pub open spec fn exec<A: Arithmetic>(numbers: &A, stmt: Stmt, s: Interpreter, t: Interpreter, r: Result<(), Error>) -> bool
    decreases s.budget, 0nat, 0nat,
{
    if s.budget == 0 {
        r is Err && out_of_steps(s, t, r->Err_0)
    } else {
        match stmt {
            Stmt::Print(e) => exec_print(numbers, e, spent(s), t, r),
            Stmt::Expr(e) => exists|rv: Result<Value, Error>|
                #![trigger reached(t, rv)]
                reached(t, rv) && eval(numbers, e, spent(s), t, rv) && match rv {
                    Err(x) => r == Err::<(), Error>(x),
                    Ok(_) => r is Ok,
                },
            Stmt::Var { name, value } => exec_var(numbers, name@, value, spent(s), t, r),
            Stmt::Block(list) => exec_block(numbers, list@, spent(s), t, r),
            Stmt::If { test, consequence, alternate } => exists|
                m: Interpreter,
                rt: Result<Value, Error>,
            |
                #![trigger reached(m, rt)]
                reached(m, rt) && eval(numbers, test, spent(s), m, rt) && m.budget < s.budget && match rt {
                    Err(x) => t == m && r == Err::<(), Error>(x),
                    Ok(v) => if v.truthy() {
                        exec(numbers, *consequence, m, t, r)
                    } else {
                        match alternate {
                            Some(a) => exec(numbers, *a, m, t, r),
                            None => t == m && r is Ok,
                        }
                    },
                },
            Stmt::While { test, body } => exec_while(numbers, test, *body, spent(s), t, r),
            Stmt::Func(f) => {
                &&& r is Ok
                &&& t.budget == s.budget - 1
                &&& t.printed == s.printed
                &&& declared(s.env.frames(), t.env.frames(), f.name@)
                &&& t.env.frames().last()[f.name@] is Func
                &&& t.env.frames().last()[f.name@]->Func_0.name@ == f.name@
                &&& t.env.frames().last()[f.name@]->Func_0.env.frames() == detached(
                    s.env.frames(),
                    2,
                )
                &&& t.env.frames().last()[f.name@]->Func_0.decl.params@.len() == f.params@.len()
                &&& t.env.frames().last()[f.name@]->Func_0.decl.model() == f.model()
                &&& crate::treewalk::resolver::same_hops_func(
                    f,
                    *t.env.frames().last()[f.name@]->Func_0.decl,
                )
            },
            Stmt::Return(value) => match value {
                None => t == spent(s) && r == Err::<(), Error>(Error::Return(Value::Nil)),
                Some(e) => exists|rv: Result<Value, Error>|
                    #![trigger reached(t, rv)]
                    reached(t, rv) && eval(numbers, e, spent(s), t, rv) && match rv {
                        Err(x) => r == Err::<(), Error>(x),
                        Ok(v) => r == Err::<(), Error>(Error::Return(v)),
                    },
            },
            Stmt::Class { name, methods } => {
                &&& r is Ok
                &&& t.budget == s.budget - 1
                &&& t.printed == s.printed
                &&& declared(s.env.frames(), t.env.frames(), name@)
                &&& t.env.frames().last()[name@] is Init
                &&& t.env.frames().last()[name@]->Init_0.name@ == name@
                &&& t.env.frames().last()[name@]->Init_0.methods@.len() == methods@.len()
                &&& forall|i: int|
                    0 <= i < methods@.len() ==> (#[trigger] t.env.frames().last()[name@]->Init_0.methods@[i]).model()
                        == methods@[i].model() && crate::treewalk::resolver::same_hops_func(
                        methods@[i],
                        t.env.frames().last()[name@]->Init_0.methods@[i],
                    )
            },
        }
    }
}

/// `print`: the expression, then one more line, the text of its value.
pub open spec fn exec_print<A: Arithmetic>(numbers: &A, e: Expr, s: Interpreter, t: Interpreter, r: Result<(), Error>) -> bool
    decreases s.budget, 1nat, 0nat,
{
    exists|m: Interpreter, rv: Result<Value, Error>|
        #![trigger reached(m, rv)]
        reached(m, rv) && eval(numbers, e, s, m, rv) && match rv {
            Err(x) => t == m && r == Err::<(), Error>(x),
            Ok(v) => r is Ok && printed_value(numbers, m, t, v),
        }
}

/// A variable that is declared: the initializer, then its value, as it is
/// stored under the name, is bound in the innermost frame; `nil` is bound
/// without an initializer.
pub open spec fn exec_var<A: Arithmetic>(numbers: &A, 
    name: Seq<char>,
    value: Option<Expr>,
    s: Interpreter,
    t: Interpreter,
    r: Result<(), Error>,
) -> bool
    decreases s.budget, 1nat, 0nat,
{
    match value {
        None => r is Ok && defined(s, t, name, Value::Nil),
        Some(e) => exists|m: Interpreter, rv: Result<Value, Error>|
            #![trigger reached(m, rv)]
            reached(m, rv) && eval(numbers, e, s, m, rv) && match rv {
                Err(x) => t == m && r == Err::<(), Error>(x),
                Ok(v) => r is Ok && exists|nv: Value|
                    #![trigger kept(nv)]
                    kept(nv) && renamed(v, name, nv) && defined(m, t, name, nv),
            },
    }
}

/// What running a statement of the top level comes to: as `exec`, but a
/// `return` that leaves it is a runtime error.
pub open spec fn interpreted<A: Arithmetic>(numbers: &A, stmt: Stmt, s: Interpreter, t: Interpreter, r: Result<(), Error>) -> bool {
    exists|rr: Result<(), Error>|
        #![trigger reached_stmt(t, rr)]
        reached_stmt(t, rr) && exec(numbers, stmt, s, t, rr) && match rr {
            Ok(_) => r is Ok,
            Err(Error::Return(_)) => r is Err && r->Err_0 is Runtime && r->Err_0->Runtime_0@
                == "return outside function"@,
            Err(x) => r == Err::<(), Error>(x),
        }
}

/// The statements of `list` from index `from` on, one after another, up to
/// the first that fails or returns.
pub open spec fn exec_list<A: Arithmetic>(numbers: &A, 
    list: Seq<Stmt>,
    from: int,
    s: Interpreter,
    t: Interpreter,
    r: Result<(), Error>,
) -> bool
    decreases s.budget, 2nat, list.len() - from,
{
    if from < 0 || from >= list.len() {
        t == s && r is Ok
    } else {
        exists|m: Interpreter, ri: Result<(), Error>|
            #![trigger reached_stmt(m, ri)]
            reached_stmt(m, ri) && exec(numbers, list[from], s, m, ri) && m.budget <= s.budget && match ri {
                Err(x) => t == m && r == Err::<(), Error>(x),
                Ok(_) => exec_list(numbers, list, from + 1, m, t, r),
            }
    }
}

/// The statements of a block: in a frame of their own, which is left again
/// however they end.
pub open spec fn exec_block<A: Arithmetic>(numbers: &A, list: Seq<Stmt>, s: Interpreter, t: Interpreter, r: Result<(), Error>) -> bool
    decreases s.budget, 3nat, 0nat,
{
    exists|a: Interpreter, b: Interpreter|
        #![trigger reached_stmt(a, r), reached_stmt(b, r)]
        {
            &&& reached_stmt(a, r)
            &&& reached_stmt(b, r)
            &&& a.env.frames() == s.env.frames().push(empty_frame())
            &&& a.budget == s.budget
            &&& a.printed == s.printed
            &&& exec_list(numbers, list, 0, a, b, r)
            &&& t.env.frames() == ascended(b.env.frames())
            &&& t.budget == b.budget
            &&& t.printed == b.printed
        }
}

/// A loop: the condition, and as long as it is truthy the body and the
/// loop again.
pub open spec fn exec_while<A: Arithmetic>(numbers: &A, 
    test: Expr,
    body: Stmt,
    s: Interpreter,
    t: Interpreter,
    r: Result<(), Error>,
) -> bool
    decreases s.budget, 1nat, 0nat,
{
    exists|m: Interpreter, rt: Result<Value, Error>|
        #![trigger reached(m, rt)]
        reached(m, rt) && eval(numbers, test, s, m, rt) && match rt {
            Err(x) => t == m && r == Err::<(), Error>(x),
            Ok(v) => m.budget < s.budget && if !v.truthy() {
                t == m && r is Ok
            } else {
                exists|n: Interpreter, rb: Result<(), Error>|
                    #![trigger reached_stmt(n, rb)]
                    reached_stmt(n, rb) && exec(numbers, body, m, n, rb) && n.budget <= m.budget && match rb {
                        Err(x) => t == n && r == Err::<(), Error>(x),
                        Ok(_) => exec_while(numbers, test, body, n, t, r),
                    }
            },
        }
}

/// The frames with the first `count` of `params` bound, in the innermost
/// frame, to the arguments at their places.
pub open spec fn bound(
    frames: Seq<Map<Seq<char>, Value>>,
    params: Seq<String>,
    args: Seq<Value>,
    count: int,
) -> Seq<Map<Seq<char>, Value>>
    decreases count,
{
    if count <= 0 {
        frames
    } else {
        bind_at(
            bound(frames, params, args, count - 1),
            frames.len() - 1,
            params[count - 1]@,
            args[count - 1],
        )
    }
}

/// What a call returns once its body has ended with `rb`: `nil` where the
/// body ran to its end, the value of the `return` that left it, or the
/// error that ended it.
pub open spec fn returned(rb: Result<(), Error>, r: Result<Value, Error>) -> bool {
    match rb {
        Ok(_) => r == Ok::<Value, Error>(Value::Nil),
        Err(Error::Return(v)) => r == Ok::<Value, Error>(v),
        Err(x) => r == Err::<Value, Error>(x),
    }
}

/// Whether `after` is `restored` with the function `func` stored again
/// under `name`, where a frame binds that name.
pub open spec fn written_back(
    restored: Seq<Map<Seq<char>, Value>>,
    after: Seq<Map<Seq<char>, Value>>,
    name: Seq<char>,
    func: Func,
) -> bool {
    match holder(restored, name) {
        Some(i) => after == bind_at(restored, i, name, Value::Func(func)),
        None => after == restored,
    }
}

/// The frames from index `from` on.
pub open spec fn above(frames: Seq<Map<Seq<char>, Value>>, from: int) -> Seq<Map<Seq<char>, Value>> {
    frames.subrange(from, frames.len() as int)
}

/// Marks `f` as a function as the call has left it.
pub open spec fn left(f: Func) -> bool {
    true
}

/// A call of the function `before` with `args` takes the interpreter from
/// `s` to `t`, returns `r` and leaves the function as `after`. The frames
/// of the caller above the two outermost ones are set aside and the frames
/// that the function has captured take their place; the parameters are
/// bound in a new frame and the body runs there. Then the captured frames,
/// as the body has left them, go back to the function, the frames of the
/// caller return, and the function is stored again under its name.
pub open spec fn call_function_rel<A: Arithmetic>(numbers: &A, 
    before: Func,
    after: Func,
    args: Seq<Value>,
    s: Interpreter,
    t: Interpreter,
    r: Result<Value, Error>,
) -> bool
    decreases s.budget, 7nat, 0nat,
{
    exists|a: Interpreter, b: Interpreter, rb: Result<(), Error>|
        #![trigger reached_stmt(a, rb), reached_stmt(b, rb)]
        {
            &&& reached_stmt(a, rb)
            &&& reached_stmt(b, rb)
            &&& a.env.frames() == bound(
                s.env.frames().subrange(0, 2) + before.env.frames() + seq![empty_frame()],
                before.decl.params@,
                args,
                before.decl.params@.len() as int,
            )
            &&& a.budget == s.budget
            &&& a.printed == s.printed
            &&& exec_list(numbers, before.decl.body@, 0, a, b, rb)
            &&& returned(rb, r)
            &&& after.name == before.name
            &&& after.decl == before.decl
            &&& after.env.frames() == above(ascended(b.env.frames()), 2)
            &&& written_back(
                ascended(b.env.frames()).subrange(0, 2) + above(s.env.frames(), 2),
                t.env.frames(),
                before.name@,
                after,
            )
            &&& t.budget == b.budget
            &&& t.printed == b.printed
        }
}

/// How a method call ends once its body has ended with `rb` and left the
/// frames `inner`, the innermost of which binds `this`: the frame of
/// `this` is left, and `this`, as the body has left it, is stored under
/// the name `this_name` again; where that fails, the call fails.
pub open spec fn method_left(
    inner: Seq<Map<Seq<char>, Value>>,
    this_name: Seq<char>,
    rb: Result<(), Error>,
    after: Seq<Map<Seq<char>, Value>>,
    r: Result<Value, Error>,
) -> bool {
    match holder(inner, "this"@) {
        None => after == ascended(inner) && returned(rb, r),
        Some(i) => exists|nv: Value, ra: Result<Value, Error>|
            #![trigger kept(nv), noted(ra)]
            kept(nv) && noted(ra) && renamed(inner[i]["this"@], this_name, nv) && assigned(
                ascended(inner),
                after,
                this_name,
                None,
                nv,
                ra,
            ) && match ra {
                Err(e) => r == Err::<Value, Error>(e),
                Ok(_) => returned(rb, r),
            },
    }
}

/// A call of `method` with `args` takes the interpreter from `s` to `t`
/// and returns `r`: `this` is bound, in a new frame, to the instance that
/// is stored under the name that the method carries; the parameters are
/// bound in a frame above it and the body runs there; then both frames are
/// left and `this`, as the body has left it, is stored under that name
/// again. The call fails where no frame binds that name.
pub open spec fn call_method_rel<A: Arithmetic>(numbers: &A, 
    method: Method,
    args: Seq<Value>,
    s: Interpreter,
    t: Interpreter,
    r: Result<Value, Error>,
) -> bool
    decreases s.budget, 6nat, 0nat,
{
    match holder(s.env.frames(), method.this_name@) {
        None => t == s && r is Err && r->Err_0 is Runtime && r->Err_0->Runtime_0@
            == undefined_text(method.this_name@),
        Some(i) => exists|a: Interpreter, b: Interpreter, rb: Result<(), Error>|
            #![trigger reached_stmt(a, rb), reached_stmt(b, rb)]
            {
                &&& reached_stmt(a, rb)
                &&& reached_stmt(b, rb)
                &&& a.env.frames() == bound(
                    bind_at(
                        s.env.frames().push(empty_frame()),
                        s.env.frames().len() as int,
                        "this"@,
                        s.env.frames()[i][method.this_name@],
                    ).push(empty_frame()),
                    method.func.decl.params@,
                    args,
                    method.func.decl.params@.len() as int,
                )
                &&& a.budget == s.budget
                &&& a.printed == s.printed
                &&& exec_list(numbers, method.func.decl.body@, 0, a, b, rb)
                &&& method_left(ascended(b.env.frames()), method.this_name@, rb, t.env.frames(), r)
                &&& t.budget == b.budget
                &&& t.printed == b.printed
            },
    }
}

/// What a built-in function returns: the clock a number; the remainder a
/// number where both arguments are numbers, else an error.
pub open spec fn native_result<A: Arithmetic>(numbers: &A, n: NativeFunc, args: Seq<Value>, r: Result<Value, Error>) -> bool {
    match n {
        NativeFunc::Clock(_) => r is Ok && r->Ok_0 is Number,
        NativeFunc::Mod(_) => if args.len() >= 2 && args[0] is Number && args[1] is Number {
            r == Ok::<Value, Error>(
                Value::Number(
                    numbers.applied(ArithOp::Rem, args[0]->Number_0, args[1]->Number_0),
                ),
            )
        } else {
            r is Err && r->Err_0 is Runtime
        },
    }
}

/// Whether one of the first `upto` of `methods`, other than `init`, is
/// named `name`.
pub open spec fn has_method(methods: Seq<Function>, upto: int, name: Seq<char>) -> bool
    decreases upto,
{
    if upto <= 0 || upto > methods.len() {
        false
    } else {
        (methods[upto - 1].name@ == name && name != "init"@) || has_method(methods, upto - 1, name)
    }
}

/// No method is kept under the name `init`.
pub proof fn has_method_is_not_init(methods: Seq<Function>, upto: int, name: Seq<char>)
    ensures
        has_method(methods, upto, name) ==> name != "init"@,
    decreases upto,
{
    if 0 < upto <= methods.len() {
        has_method_is_not_init(methods, upto - 1, name);
    }
}

/// The number of parameters of the last of the first `upto` of `methods`
/// that is named `name`.
pub open spec fn method_arity(methods: Seq<Function>, upto: int, name: Seq<char>) -> nat
    decreases upto,
{
    if upto <= 0 || upto > methods.len() {
        0
    } else if methods[upto - 1].name@ == name {
        methods[upto - 1].params@.len()
    } else {
        method_arity(methods, upto - 1, name)
    }
}

/// Whether `inst` is a new instance of `class`: it has no field, and its
/// methods are those that the first `upto` declarations of the class
/// declare, but for `init`, each under its name, with the number of
/// parameters of the last declaration of that name, and bound to no name
/// yet.
pub open spec fn fresh_instance(class: Class, upto: int, inst: ClassInstance) -> bool {
    &&& inst.wf()
    &&& inst.class == class
    &&& inst.this_name@ == Seq::<char>::empty()
    &&& inst.field_map() == Map::<Seq<char>, Value>::empty()
    &&& forall|name: Seq<char>|
        inst.method_map().dom().contains(name) <==> #[trigger] has_method(
            class.methods@,
            upto,
            name,
        )
    &&& forall|name: Seq<char>| #[trigger]
        inst.method_map().dom().contains(name) ==> {
            &&& inst.method_map()[name] is Method
            &&& inst.method_map()[name]->Method_0.func.name@ == name
            &&& inst.method_map()[name]->Method_0.this_name@ == Seq::<char>::empty()
            &&& inst.method_map()[name]->Method_0.func.decl.params@.len() == method_arity(
                class.methods@,
                upto,
                name,
            )
            &&& inst.method_map()[name]->Method_0.func.decl.model() == declared_as(
                class.methods@,
                upto,
                name,
            ).model()
            &&& crate::treewalk::resolver::same_hops_func(
                declared_as(class.methods@, upto, name),
                *inst.method_map()[name]->Method_0.func.decl,
            )
        }
}

/// The last of the first `upto` of `methods` that is named `name`.
pub open spec fn declared_as(methods: Seq<Function>, upto: int, name: Seq<char>) -> Function
    decreases upto,
{
    if upto <= 0 || upto > methods.len() {
        arbitrary()
    } else if methods[upto - 1].name@ == name {
        methods[upto - 1]
    } else {
        declared_as(methods, upto - 1, name)
    }
}

/// Marks `inst` as a new instance and `init` as its initializer.
pub open spec fn made(inst: ClassInstance, init: Method) -> bool {
    true
}

/// Making an instance of `class` with `args` takes the interpreter from
/// `s` to `t` and returns `r`. Without `init` the new instance is returned
/// and nothing changes. With `init`, the instance is bound to `*` in a new
/// frame, `init` is called on it with `args`, and the instance as `init`
/// has left it is returned once the frame has been left.
pub open spec fn instantiate_rel<A: Arithmetic>(numbers: &A, 
    class: Class,
    args: Seq<Value>,
    s: Interpreter,
    t: Interpreter,
    r: Result<Value, Error>,
) -> bool
    decreases s.budget, 7nat, 0nat,
{
    let all = class.methods@.len() as int;
    if !has_init(class.methods@, all) {
        t == s && r is Ok && r->Ok_0 is Class && fresh_instance(class, all, r->Ok_0->Class_0)
    } else {
        exists|inst: ClassInstance, init: Method, a: Interpreter, b: Interpreter, rc: Result<Value, Error>|
            #![trigger made(inst, init), reached(a, rc), reached(b, rc)]
            {
                &&& made(inst, init)
                &&& reached(a, rc)
                &&& reached(b, rc)
                &&& fresh_instance(class, all, inst)
                &&& init.this_name@ == "*"@
                &&& init.func.name@ == "init"@
                &&& init.func.decl.params@.len() == init_arity(class.methods@, all)
                &&& init.func.decl.model() == declared_as(class.methods@, all, "init"@).model()
                &&& crate::treewalk::resolver::same_hops_func(
                    declared_as(class.methods@, all, "init"@),
                    *init.func.decl,
                )
                &&& a.env.frames() == bind_at(
                    s.env.frames().push(empty_frame()),
                    s.env.frames().len() as int,
                    "*"@,
                    Value::Class(inst),
                )
                &&& a.budget == s.budget
                &&& a.printed == s.printed
                &&& call_method_rel(numbers, init, args, a, b, rc)
                &&& t.env.frames() == ascended(b.env.frames())
                &&& t.budget == b.budget
                &&& t.printed == b.printed
                &&& match rc {
                    Err(e) => r == Err::<Value, Error>(e),
                    Ok(_) => match holder(b.env.frames(), "*"@) {
                        Some(i) => match b.env.frames()[i]["*"@] {
                            Value::Class(made) => r == Ok::<Value, Error>(Value::Class(made)),
                            _ => r is Err && r->Err_0 is Runtime,
                        },
                        None => r is Err && r->Err_0 is Runtime,
                    },
                }
            }
    }
}

/// The error of a call of what cannot be called or takes another number
/// of arguments, which changes nothing.
pub open spec fn not_applied(s: Interpreter, t: Interpreter, r: Result<Value, Error>) -> bool {
    t == s && r is Err && r->Err_0 is Runtime
}

/// A call of `f` with `args` takes the interpreter from `s` to `t` and
/// returns `r`: it fails, and changes nothing, where `f` cannot be called
/// or takes another number of arguments; else it goes by what `f` is.
pub open spec fn applied<A: Arithmetic>(numbers: &A, 
    f: Value,
    args: Seq<Value>,
    s: Interpreter,
    t: Interpreter,
    r: Result<Value, Error>,
) -> bool
    decreases s.budget, 8nat, 0nat,
{
    if arity_of(f) != Some(args.len()) {
        not_applied(s, t, r)
    } else {
        match f {
            Value::Func(c) => exists|after: Func|
                #![trigger left(after)]
                left(after) && call_function_rel(numbers, c, after, args, s, t, r),
            Value::Init(c) => instantiate_rel(numbers, c, args, s, t, r),
            Value::NativeFunc(n) => t == s && native_result(numbers, n, args, r),
            Value::Method(m) => call_method_rel(numbers, m, args, s, t, r),
            _ => not_applied(s, t, r),
        }
    }
}

} // verus!
