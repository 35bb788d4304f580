//! Expressions.

use vstd::prelude::*;
use crate::treewalk::token::Kind;
use crate::treewalk::token::Token;

verus! {

/// A literal as written in the source; a number is kept as its digits.
#[derive(Debug)]
pub enum Literal {
    String(String),
    Number(String),
    Bool(bool),
    Nil,
}

/// An expression. A variable that is read or assigned carries the number of
/// scopes between its use and its declaration, once the resolver has found
/// the declaration; a global variable carries none.
#[derive(Debug)]
pub enum Expr {
    Binary { left: Box<Expr>, operator: Token, right: Box<Expr> },
    Grouping(Box<Expr>),
    Literal(Literal),
    Unary { operator: Token, right: Box<Expr> },
    Var { name: String, depth: Option<usize> },
    Assign { name: String, value: Box<Expr>, depth: Option<usize> },
    Log { left: Box<Expr>, operator: Token, right: Box<Expr> },
    Call { callee: Box<Expr>, arguments: Vec<Expr> },
    Get { object: Box<Expr>, name: String },
    Put { object: Box<Expr>, name: String, value: Box<Expr> },
    This,
}

/// What a literal holds.
pub enum LiteralModel {
    String(Seq<char>),
    Number(Seq<char>),
    Bool(bool),
    Nil,
}

/// What an expression holds, without the hops of its variables and with
/// the kind of each operator in place of its token.
pub enum ExprModel {
    Binary { left: Box<ExprModel>, operator: Kind, right: Box<ExprModel> },
    Grouping(Box<ExprModel>),
    Literal(LiteralModel),
    Unary { operator: Kind, right: Box<ExprModel> },
    Var { name: Seq<char> },
    Assign { name: Seq<char>, value: Box<ExprModel> },
    Log { left: Box<ExprModel>, operator: Kind, right: Box<ExprModel> },
    Call { callee: Box<ExprModel>, arguments: Seq<ExprModel> },
    Get { object: Box<ExprModel>, name: Seq<char> },
    Put { object: Box<ExprModel>, name: Seq<char>, value: Box<ExprModel> },
    This,
}

impl Clone for Literal {
    fn clone(&self) -> (r: Literal)
        ensures
            r == *self,
    {
        match self {
            Literal::String(s) => Literal::String(s.clone()),
            Literal::Number(n) => Literal::Number(n.clone()),
            Literal::Bool(b) => Literal::Bool(*b),
            Literal::Nil => Literal::Nil,
        }
    }
}

impl Literal {
    pub open spec fn model(self) -> LiteralModel {
        match self {
            Literal::String(s) => LiteralModel::String(s@),
            Literal::Number(n) => LiteralModel::Number(n@),
            Literal::Bool(b) => LiteralModel::Bool(b),
            Literal::Nil => LiteralModel::Nil,
        }
    }
}

/// Copies of the expressions of `list`, in their order.
pub fn duplicate_exprs(list: &Vec<Expr>) -> (r: Vec<Expr>)
    ensures
        r@.len() == list@.len(),
        forall|i: int| 0 <= i < r@.len() ==> (#[trigger] r@[i]).model() == list@[i].model(),
        forall|i: int|
            0 <= i < r@.len() ==> crate::treewalk::resolver::same_hops(list@[i], #[trigger] r@[i]),
    decreases list, 1nat,
{
    let mut out: Vec<Expr> = Vec::new();
    let mut i: usize = 0;
    while i < list.len()
        invariant
            i <= list.len(),
            out@.len() == i,
            forall|k: int| 0 <= k < i ==> (#[trigger] out@[k]).model() == list@[k].model(),
            forall|k: int|
                0 <= k < i ==> crate::treewalk::resolver::same_hops(list@[k], #[trigger] out@[k]),
        decreases list.len() - i,
    {
        out.push(list[i].duplicate());
        i += 1;
    }
    out
}

impl Expr {
    /// What the expression holds.
    pub open spec fn model(self) -> ExprModel
        decreases self,
    {
        match self {
            Expr::Binary { left, operator, right } => ExprModel::Binary {
                left: Box::new(left.model()),
                operator: operator.kind.kind(),
                right: Box::new(right.model()),
            },
            Expr::Grouping(inner) => ExprModel::Grouping(Box::new(inner.model())),
            Expr::Literal(lit) => ExprModel::Literal(lit.model()),
            Expr::Unary { operator, right } => ExprModel::Unary {
                operator: operator.kind.kind(),
                right: Box::new(right.model()),
            },
            Expr::Var { name, .. } => ExprModel::Var { name: name@ },
            Expr::Assign { name, value, .. } => ExprModel::Assign {
                name: name@,
                value: Box::new(value.model()),
            },
            Expr::Log { left, operator, right } => ExprModel::Log {
                left: Box::new(left.model()),
                operator: operator.kind.kind(),
                right: Box::new(right.model()),
            },
            Expr::Call { callee, arguments } => ExprModel::Call {
                callee: Box::new(callee.model()),
                arguments: Seq::new(
                    arguments@.len(),
                    |i: int|
                        if 0 <= i < arguments@.len() {
                            arguments@[i].model()
                        } else {
                            ExprModel::This
                        },
                ),
            },
            Expr::Get { object, name } => ExprModel::Get {
                object: Box::new(object.model()),
                name: name@,
            },
            Expr::Put { object, name, value } => ExprModel::Put {
                object: Box::new(object.model()),
                name: name@,
                value: Box::new(value.model()),
            },
            Expr::This => ExprModel::This,
        }
    }

    /// Whether no variable of the expression carries a hop.
    pub open spec fn unresolved(self) -> bool
        decreases self,
    {
        match self {
            Expr::Binary { left, right, .. } => left.unresolved() && right.unresolved(),
            Expr::Grouping(inner) => inner.unresolved(),
            Expr::Literal(_) => true,
            Expr::Unary { right, .. } => right.unresolved(),
            Expr::Var { depth, .. } => depth is None,
            Expr::Assign { value, depth, .. } => depth is None && value.unresolved(),
            Expr::Log { left, right, .. } => left.unresolved() && right.unresolved(),
            Expr::Call { callee, arguments } => callee.unresolved() && forall|i: int|
                0 <= i < arguments@.len() ==> (#[trigger] arguments@[i]).unresolved(),
            Expr::Get { object, .. } => object.unresolved(),
            Expr::Put { object, value, .. } => object.unresolved() && value.unresolved(),
            Expr::This => true,
        }
    }

    pub fn binary(left: Expr, right: Expr, op: Token) -> (r: Expr)
        ensures
            r == (Expr::Binary { left: Box::new(left), operator: op, right: Box::new(right) }),
    {
        Expr::Binary { left: Box::new(left), right: Box::new(right), operator: op }
    }

    pub fn unary(op: Token, right: Expr) -> (r: Expr)
        ensures
            r == (Expr::Unary { operator: op, right: Box::new(right) }),
    {
        Expr::Unary { operator: op, right: Box::new(right) }
    }

    pub fn grouping(inner: Expr) -> (r: Expr)
        ensures
            r == Expr::Grouping(Box::new(inner)),
    {
        Expr::Grouping(Box::new(inner))
    }

    /// A variable that has not been resolved.
    pub fn var(name: String) -> (r: Expr)
        ensures
            r == (Expr::Var { name, depth: None }),
    {
        Expr::Var { name, depth: None }
    }

    /// An assignment to a variable that has not been resolved.
    pub fn assign(name: String, value: Expr) -> (r: Expr)
        ensures
            r == (Expr::Assign { name, value: Box::new(value), depth: None }),
    {
        Expr::Assign { name, value: Box::new(value), depth: None }
    }

    /// A copy of the expression.
    pub fn duplicate(&self) -> (r: Expr)
        ensures
            r.model() == self.model(),
            crate::treewalk::resolver::same_hops(*self, r),
        decreases self, 0nat,
    {
        match self {
            Expr::Binary { left, operator, right } => Expr::Binary {
                left: Box::new(left.duplicate()),
                operator: operator.clone(),
                right: Box::new(right.duplicate()),
            },
            Expr::Grouping(inner) => Expr::Grouping(Box::new(inner.duplicate())),
            Expr::Literal(lit) => Expr::Literal(lit.clone()),
            Expr::Unary { operator, right } => Expr::Unary {
                operator: operator.clone(),
                right: Box::new(right.duplicate()),
            },
            Expr::Var { name, depth } => Expr::Var { name: name.clone(), depth: *depth },
            Expr::Assign { name, value, depth } => Expr::Assign {
                name: name.clone(),
                value: Box::new(value.duplicate()),
                depth: *depth,
            },
            Expr::Log { left, operator, right } => Expr::Log {
                left: Box::new(left.duplicate()),
                operator: operator.clone(),
                right: Box::new(right.duplicate()),
            },
            Expr::Call { callee, arguments } => {
                let r = Expr::Call {
                    callee: Box::new(callee.duplicate()),
                    arguments: duplicate_exprs(arguments),
                };
                proof {
                    assert(r.model()->Call_arguments =~= self.model()->Call_arguments);
                }
                r
            },
            Expr::Get { object, name } => Expr::Get {
                object: Box::new(object.duplicate()),
                name: name.clone(),
            },
            Expr::Put { object, name, value } => Expr::Put {
                object: Box::new(object.duplicate()),
                name: name.clone(),
                value: Box::new(value.duplicate()),
            },
            Expr::This => Expr::This,
        }
    }

    pub fn log(left: Expr, right: Expr, op: Token) -> (r: Expr)
        ensures
            r == (Expr::Log { left: Box::new(left), operator: op, right: Box::new(right) }),
    {
        Expr::Log { left: Box::new(left), operator: op, right: Box::new(right) }
    }
}

} // verus!
