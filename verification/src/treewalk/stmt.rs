//! Statements.

use vstd::prelude::*;
use crate::treewalk::expr::Expr;
use crate::treewalk::expr::ExprModel;

verus! {

/// A function or method as declared.
#[derive(Debug)]
pub struct Function {
    pub name: String,
    pub params: Vec<String>,
    pub body: Vec<Stmt>,
}

#[derive(Debug)]
pub enum Stmt {
    Print(Expr),
    Expr(Expr),
    Var { name: String, value: Option<Expr> },
    Block(Vec<Stmt>),
    If { test: Expr, consequence: Box<Stmt>, alternate: Option<Box<Stmt>> },
    While { test: Expr, body: Box<Stmt> },
    Func(Function),
    Return(Option<Expr>),
    Class { name: String, methods: Vec<Function> },
}

/// What a declaration of a function or method holds.
pub struct FunctionModel {
    pub name: Seq<char>,
    pub params: Seq<Seq<char>>,
    pub body: Seq<StmtModel>,
}

/// What a statement holds.
pub enum StmtModel {
    Print(ExprModel),
    Expr(ExprModel),
    Var { name: Seq<char>, value: Option<ExprModel> },
    Block(Seq<StmtModel>),
    If { test: ExprModel, consequence: Box<StmtModel>, alternate: Option<Box<StmtModel>> },
    While { test: ExprModel, body: Box<StmtModel> },
    Func(FunctionModel),
    Return(Option<ExprModel>),
    Class { name: Seq<char>, methods: Seq<FunctionModel> },
}

/// What `for (init; test; update) body` is rewritten to: a block of the
/// initializer, if there is one, and a `while` on `test` whose body is a
/// block of `body` and, if there is one, the update.
pub open spec fn for_model(
    init: Option<StmtModel>,
    test: ExprModel,
    update: Option<ExprModel>,
    body: StmtModel,
) -> StmtModel {
    let inner = match update {
        Some(u) => seq![body, StmtModel::Expr(u)],
        None => seq![body],
    };
    let w = StmtModel::While { test, body: Box::new(StmtModel::Block(inner)) };
    match init {
        Some(i) => StmtModel::Block(seq![i, w]),
        None => StmtModel::Block(seq![w]),
    }
}

impl Function {
    /// What the declaration holds.
    pub open spec fn model(self) -> FunctionModel
        decreases self,
    {
        FunctionModel {
            name: self.name@,
            params: Seq::new(self.params@.len(), |i: int| self.params@[i]@),
            body: Seq::new(
                self.body@.len(),
                |i: int|
                    if 0 <= i < self.body@.len() {
                        self.body@[i].model()
                    } else {
                        StmtModel::Return(None)
                    },
            ),
        }
    }

    /// Whether no variable in the body carries a hop.
    pub open spec fn unresolved(self) -> bool
        decreases self,
    {
        forall|i: int| 0 <= i < self.body@.len() ==> (#[trigger] self.body@[i]).unresolved()
    }
}

/// Whether `stmt` has the shape that a `for` loop is rewritten to: a block
/// of the initializer, if there is one, and a `while` whose body is a block
/// of the loop's body and, if there is one, the update.
pub open spec fn is_for_loop(stmt: Stmt) -> bool {
    &&& stmt is Block
    &&& 1 <= stmt->Block_0@.len() <= 2
    &&& stmt->Block_0@.last() is While
    &&& *stmt->Block_0@.last()->While_body is Block
    &&& 1 <= (*stmt->Block_0@.last()->While_body)->Block_0@.len() <= 2
    &&& ((*stmt->Block_0@.last()->While_body)->Block_0@.len() == 2 ==> (
    *stmt->Block_0@.last()->While_body)->Block_0@[1] is Expr)
}

/// Copies of the names of `list`, in their order.
pub fn copy_names(list: &Vec<String>) -> (r: Vec<String>)
    ensures
        r@.len() == list@.len(),
        forall|i: int| 0 <= i < r@.len() ==> #[trigger] r@[i] == list@[i],
{
    let mut out: Vec<String> = Vec::new();
    let mut i: usize = 0;
    while i < list.len()
        invariant
            i <= list.len(),
            out@.len() == i,
            forall|k: int| 0 <= k < i ==> #[trigger] out@[k] == list@[k],
        decreases list.len() - i,
    {
        out.push(list[i].clone());
        i += 1;
    }
    out
}

/// Copies of the statements of `list`, in their order.
pub fn duplicate_all(list: &Vec<Stmt>) -> (r: Vec<Stmt>)
    ensures
        r@.len() == list@.len(),
        forall|i: int| 0 <= i < r@.len() ==> (#[trigger] r@[i]).model() == list@[i].model(),
        forall|i: int|
            0 <= i < r@.len() ==> crate::treewalk::resolver::same_hops_stmt(
                list@[i],
                #[trigger] r@[i],
            ),
    decreases list, 1nat,
{
    let mut out: Vec<Stmt> = Vec::new();
    let mut i: usize = 0;
    while i < list.len()
        invariant
            i <= list.len(),
            out@.len() == i,
            forall|k: int| 0 <= k < i ==> (#[trigger] out@[k]).model() == list@[k].model(),
            forall|k: int|
                0 <= k < i ==> crate::treewalk::resolver::same_hops_stmt(
                    list@[k],
                    #[trigger] out@[k],
                ),
        decreases list.len() - i,
    {
        out.push(list[i].duplicate());
        i += 1;
    }
    out
}

/// Copies of the declarations of `list`, in their order.
pub fn duplicate_functions(list: &Vec<Function>) -> (r: Vec<Function>)
    ensures
        r@.len() == list@.len(),
        forall|i: int| 0 <= i < r@.len() ==> (#[trigger] r@[i]).name == list@[i].name,
        forall|i: int| 0 <= i < r@.len() ==> (#[trigger] r@[i]).params@.len() == list@[i].params@.len(),
        forall|i: int| 0 <= i < r@.len() ==> (#[trigger] r@[i]).model() == list@[i].model(),
        forall|i: int|
            0 <= i < r@.len() ==> crate::treewalk::resolver::same_hops_func(
                list@[i],
                #[trigger] r@[i],
            ),
    decreases list, 3nat,
{
    let mut out: Vec<Function> = Vec::new();
    let mut i: usize = 0;
    while i < list.len()
        invariant
            i <= list.len(),
            out@.len() == i,
            forall|k: int| 0 <= k < i ==> (#[trigger] out@[k]).name == list@[k].name,
            forall|k: int|
                0 <= k < i ==> (#[trigger] out@[k]).params@.len() == list@[k].params@.len(),
            forall|k: int| 0 <= k < i ==> (#[trigger] out@[k]).model() == list@[k].model(),
            forall|k: int|
                0 <= k < i ==> crate::treewalk::resolver::same_hops_func(
                    list@[k],
                    #[trigger] out@[k],
                ),
        decreases list.len() - i,
    {
        out.push(list[i].duplicate());
        i += 1;
    }
    out
}

impl Function {
    /// A copy of the declaration.
    pub fn duplicate(&self) -> (r: Function)
        ensures
            r.name == self.name,
            r.params@.len() == self.params@.len(),
            r.body@.len() == self.body@.len(),
            r.model() == self.model(),
            crate::treewalk::resolver::same_hops_func(*self, r),
        decreases self, 2nat,
    {
        let r = Function {
            name: self.name.clone(),
            params: copy_names(&self.params),
            body: duplicate_all(&self.body),
        };
        proof {
            assert(r.model().params =~= self.model().params);
            assert(r.model().body =~= self.model().body);
        }
        r
    }
}

impl Stmt {
    /// What the statement holds.
    pub open spec fn model(self) -> StmtModel
        decreases self,
    {
        match self {
            Stmt::Print(e) => StmtModel::Print(e.model()),
            Stmt::Expr(e) => StmtModel::Expr(e.model()),
            Stmt::Var { name, value } => StmtModel::Var {
                name: name@,
                value: match value {
                    Some(e) => Some(e.model()),
                    None => None,
                },
            },
            Stmt::Block(list) => StmtModel::Block(
                Seq::new(
                    list@.len(),
                    |i: int|
                        if 0 <= i < list@.len() {
                            list@[i].model()
                        } else {
                            StmtModel::Return(None)
                        },
                ),
            ),
            Stmt::If { test, consequence, alternate } => StmtModel::If {
                test: test.model(),
                consequence: Box::new(consequence.model()),
                alternate: match alternate {
                    Some(a) => Some(Box::new(a.model())),
                    None => None,
                },
            },
            Stmt::While { test, body } => StmtModel::While {
                test: test.model(),
                body: Box::new(body.model()),
            },
            Stmt::Func(f) => StmtModel::Func(f.model()),
            Stmt::Return(value) => StmtModel::Return(
                match value {
                    Some(e) => Some(e.model()),
                    None => None,
                },
            ),
            Stmt::Class { name, methods } => StmtModel::Class {
                name: name@,
                methods: Seq::new(
                    methods@.len(),
                    |i: int|
                        if 0 <= i < methods@.len() {
                            methods@[i].model()
                        } else {
                            FunctionModel { name: Seq::empty(), params: Seq::empty(), body: Seq::empty() }
                        },
                ),
            },
        }
    }

    /// Whether no variable of the statement carries a hop.
    pub open spec fn unresolved(self) -> bool
        decreases self,
    {
        match self {
            Stmt::Print(e) => e.unresolved(),
            Stmt::Expr(e) => e.unresolved(),
            Stmt::Var { value, .. } => value matches Some(e) ==> e.unresolved(),
            Stmt::Block(list) => forall|i: int|
                0 <= i < list@.len() ==> (#[trigger] list@[i]).unresolved(),
            Stmt::If { test, consequence, alternate } => test.unresolved()
                && consequence.unresolved() && (alternate matches Some(a) ==> a.unresolved()),
            Stmt::While { test, body } => test.unresolved() && body.unresolved(),
            Stmt::Func(f) => f.unresolved(),
            Stmt::Return(value) => value matches Some(e) ==> e.unresolved(),
            Stmt::Class { methods, .. } => forall|i: int|
                0 <= i < methods@.len() ==> (#[trigger] methods@[i]).unresolved(),
        }
    }

    /// A copy of the statement.
    pub fn duplicate(&self) -> (r: Stmt)
        ensures
            r.model() == self.model(),
            crate::treewalk::resolver::same_hops_stmt(*self, r),
        decreases self, 0nat,
    {
        match self {
            Stmt::Print(e) => Stmt::Print(e.duplicate()),
            Stmt::Expr(e) => Stmt::Expr(e.duplicate()),
            Stmt::Var { name, value } => Stmt::Var {
                name: name.clone(),
                value: match value {
                    Some(e) => Some(e.duplicate()),
                    None => None,
                },
            },
            Stmt::Block(list) => {
                let r = Stmt::Block(duplicate_all(list));
                proof {
                    assert(r.model()->Block_0 =~= self.model()->Block_0);
                }
                r
            },
            Stmt::If { test, consequence, alternate } => Stmt::If {
                test: test.duplicate(),
                consequence: Box::new(consequence.duplicate()),
                alternate: match alternate {
                    Some(a) => Some(Box::new(a.duplicate())),
                    None => None,
                },
            },
            Stmt::While { test, body } => Stmt::While {
                test: test.duplicate(),
                body: Box::new(body.duplicate()),
            },
            Stmt::Func(f) => Stmt::Func(f.duplicate()),
            Stmt::Return(value) => Stmt::Return(
                match value {
                    Some(e) => Some(e.duplicate()),
                    None => None,
                },
            ),
            Stmt::Class { name, methods } => {
                let r = Stmt::Class { name: name.clone(), methods: duplicate_functions(methods) };
                proof {
                    assert(r.model()->Class_methods =~= self.model()->Class_methods);
                }
                r
            },
        }
    }

    /// The rewriting of `for (init; test; update) body`.
    pub fn for_stmt(init: Option<Stmt>, test: Expr, update: Option<Expr>, body: Stmt) -> (r: Stmt)
        ensures
            is_for_loop(r),
            r.model() == for_model(
                match init {
                    Some(i) => Some(i.model()),
                    None => None,
                },
                test.model(),
                match update {
                    Some(u) => Some(u.model()),
                    None => None,
                },
                body.model(),
            ),
            (init matches Some(i) ==> i.unresolved()) && test.unresolved() && (update matches Some(
                u,
            ) ==> u.unresolved()) && body.unresolved() ==> r.unresolved(),
            r->Block_0@.len() == (if init is Some {
                2int
            } else {
                1int
            }),
            init is Some ==> r->Block_0@[0] == init->Some_0,
            r->Block_0@.last()->While_test == test,
            (*r->Block_0@.last()->While_body)->Block_0@[0] == body,
            (*r->Block_0@.last()->While_body)->Block_0@.len() == (if update is Some {
                2int
            } else {
                1int
            }),
            update is Some ==> (*r->Block_0@.last()->While_body)->Block_0@[1] == Stmt::Expr(
                update->Some_0,
            ),
    {
        let mut block: Vec<Stmt> = Vec::new();
        if let Some(init) = init {
            block.push(init);
        }
        let mut w_body: Vec<Stmt> = Vec::new();
        w_body.push(body);
        if let Some(expr) = update {
            w_body.push(Stmt::Expr(expr));
        }
        let w = Stmt::While { test, body: Box::new(Stmt::Block(w_body)) };
        proof {
            reveal_with_fuel(Stmt::model, 3);
            reveal_with_fuel(Stmt::unresolved, 3);
            let inner = Stmt::Block(w_body).model();
            assert(inner->Block_0 =~= (match update {
                Some(u) => seq![body.model(), StmtModel::Expr(u.model())],
                None => seq![body.model()],
            }));
        }
        block.push(w);
        let r = Stmt::Block(block);
        proof {
            reveal_with_fuel(Stmt::model, 3);
            reveal_with_fuel(Stmt::unresolved, 4);
            assert(r.model()->Block_0 =~= (match init {
                Some(i) => seq![i.model(), w.model()],
                None => seq![w.model()],
            }));
        }
        r
    }
}

} // verus!
