//! The grammar of the language, as a function from tokens to syntax trees.

use vstd::prelude::*;
use crate::treewalk::expr::ExprModel;
use crate::treewalk::expr::LiteralModel;
use crate::treewalk::stmt::FunctionModel;
use crate::treewalk::stmt::StmtModel;
use crate::treewalk::stmt::for_model;
use crate::treewalk::token::Kind;

verus! {

/// A token as the grammar sees it: its kind and the text that it carries.
pub struct Lexeme {
    pub kind: Kind,
    pub text: Seq<char>,
}

/// The tokens that lie ahead, the next one first.
pub type Tokens = Seq<Lexeme>;

/// The most parameters that a function can have, and the most arguments
/// that a call can pass.
pub open spec fn max_arity() -> nat {
    255
}

/// Whether no token but `Eof` lies ahead.
pub open spec fn at_end(s: Tokens) -> bool {
    s.len() == 0 || s[0].kind == Kind::Eof
}

/// Whether the next token is of kind `kind`.
pub open spec fn next_is(s: Tokens, kind: Kind) -> bool {
    !at_end(s) && s[0].kind == kind
}

/// The tokens that lie ahead once the next one has been read. A token can
/// be read only once the one behind it has been scanned, so that there is
/// none to read where no token follows.
pub open spec fn after(s: Tokens) -> Option<Tokens> {
    if s.len() >= 2 {
        Some(s.drop_first())
    } else {
        None
    }
}

/// Reads a token of kind `kind`.
pub open spec fn expect(s: Tokens, kind: Kind) -> Option<Tokens> {
    if next_is(s, kind) {
        after(s)
    } else {
        None
    }
}

/// Reads an identifier.
pub open spec fn ident(s: Tokens) -> Option<(Seq<char>, Tokens)> {
    match expect(s, Kind::Identifier) {
        Some(rest) => Some((s[0].text, rest)),
        None => None,
    }
}

/// `r`, where it leaves fewer tokens than `s`.
pub open spec fn fewer<T>(s: Tokens, r: Option<(T, Tokens)>) -> Option<(T, Tokens)> {
    match r {
        Some((_, rest)) => if rest.len() < s.len() {
            r
        } else {
            None
        },
        None => None,
    }
}

/// `r`, where it leaves no more tokens than `s`.
pub open spec fn no_more<T>(s: Tokens, r: Option<(T, Tokens)>) -> Option<(T, Tokens)> {
    match r {
        Some((_, rest)) => if rest.len() <= s.len() {
            r
        } else {
            None
        },
        None => None,
    }
}

/// The literal that a token stands for.
pub open spec fn literal_of(t: Lexeme) -> Option<LiteralModel> {
    match t.kind {
        Kind::False => Some(LiteralModel::Bool(false)),
        Kind::True => Some(LiteralModel::Bool(true)),
        Kind::Nil => Some(LiteralModel::Nil),
        Kind::Number => Some(LiteralModel::Number(t.text)),
        Kind::String => Some(LiteralModel::String(t.text)),
        _ => None,
    }
}

/// primary: a literal, `this`, a variable, or an expression in parentheses.
pub open spec fn primary(s: Tokens) -> Option<(ExprModel, Tokens)>
    decreases s.len(), 0nat,
{
    if at_end(s) {
        None
    } else if literal_of(s[0]) is Some {
        match after(s) {
            Some(rest) => Some((ExprModel::Literal(literal_of(s[0])->Some_0), rest)),
            None => None,
        }
    } else if s[0].kind == Kind::This {
        match after(s) {
            Some(rest) => Some((ExprModel::This, rest)),
            None => None,
        }
    } else if s[0].kind == Kind::Identifier {
        match after(s) {
            Some(rest) => Some((ExprModel::Var { name: s[0].text }, rest)),
            None => None,
        }
    } else if s[0].kind == Kind::LeftParen {
        match after(s) {
            Some(s1) => match expression(s1) {
                Some((e, s2)) => match expect(s2, Kind::RightParen) {
                    Some(s3) => Some((ExprModel::Grouping(Box::new(e)), s3)),
                    None => None,
                },
                None => None,
            },
            None => None,
        }
    } else {
        None
    }
}

/// The arguments behind the first one: each behind a comma, and at most
/// `max_arity` in all.
pub open spec fn more_arguments(args: Seq<ExprModel>, s: Tokens) -> Option<(Seq<ExprModel>, Tokens)>
    decreases s.len(), 0nat,
{
    if next_is(s, Kind::Comma) {
        match after(s) {
            Some(s1) => match fewer(s1, expression(s1)) {
                Some((a, s2)) => if args.len() >= max_arity() {
                    None
                } else {
                    more_arguments(args.push(a), s2)
                },
                None => None,
            },
            None => None,
        }
    } else {
        Some((args, s))
    }
}

/// The arguments of a call, behind the opening parenthesis and up to the
/// closing one.
pub open spec fn argument_list(s: Tokens) -> Option<(Seq<ExprModel>, Tokens)>
    decreases s.len(), 40nat,
{
    if next_is(s, Kind::RightParen) {
        Some((Seq::<ExprModel>::empty(), s))
    } else {
        match fewer(s, expression(s)) {
            Some((a, s1)) => more_arguments(seq![a], s1),
            None => None,
        }
    }
}

/// A list and the token of kind `kind` that closes it.
pub open spec fn closed<T>(list: Option<(T, Tokens)>, kind: Kind) -> Option<(T, Tokens)> {
    match list {
        Some((items, s)) => match expect(s, kind) {
            Some(rest) => Some((items, rest)),
            None => None,
        },
        None => None,
    }
}

/// The arguments of a call, behind the opening parenthesis and through the
/// closing one.
pub open spec fn arguments(s: Tokens) -> Option<(Seq<ExprModel>, Tokens)>
    decreases s.len(), 41nat,
{
    closed(argument_list(s), Kind::RightParen)
}

/// The calls and property names behind a primary expression.
pub open spec fn call_tail(e: ExprModel, s: Tokens) -> Option<(ExprModel, Tokens)>
    decreases s.len(), 0nat,
{
    if next_is(s, Kind::LeftParen) {
        match after(s) {
            Some(s1) => match fewer(s, arguments(s1)) {
                Some((args, s2)) => call_tail(
                    ExprModel::Call { callee: Box::new(e), arguments: args },
                    s2,
                ),
                None => None,
            },
            None => None,
        }
    } else if next_is(s, Kind::Dot) {
        match after(s) {
            Some(s1) => match fewer(s, ident(s1)) {
                Some((name, s2)) => call_tail(ExprModel::Get { object: Box::new(e), name }, s2),
                None => None,
            },
            None => None,
        }
    } else {
        Some((e, s))
    }
}

/// call: a primary expression with the calls and property names behind it.
pub open spec fn call(s: Tokens) -> Option<(ExprModel, Tokens)>
    decreases s.len(), 1nat,
{
    match fewer(s, primary(s)) {
        Some((e, s1)) => call_tail(e, s1),
        None => None,
    }
}

/// unary: `!` or `-` in front of a unary expression, or a call.
pub open spec fn unary(s: Tokens) -> Option<(ExprModel, Tokens)>
    decreases s.len(), 2nat,
{
    if next_is(s, Kind::Bang) || next_is(s, Kind::Minus) {
        match after(s) {
            Some(s1) => match unary(s1) {
                Some((r, s2)) => Some(
                    (ExprModel::Unary { operator: s[0].kind, right: Box::new(r) }, s2),
                ),
                None => None,
            },
            None => None,
        }
    } else {
        call(s)
    }
}

/// Whether `kind` is an operator of level `level`: 0 for `/` and `*`, 1 for
/// `-` and `+`, 2 for the four orderings, 3 for `!=` and `==`, 4 for
/// `and`, 5 for `or`.
pub open spec fn operator_of(level: nat, kind: Kind) -> bool {
    if level == 0 {
        kind == Kind::Slash || kind == Kind::Star
    } else if level == 1 {
        kind == Kind::Minus || kind == Kind::Plus
    } else if level == 2 {
        kind == Kind::Greater || kind == Kind::GreaterEqual || kind == Kind::Less || kind
            == Kind::LessEqual
    } else if level == 3 {
        kind == Kind::BangEqual || kind == Kind::EqualEqual
    } else if level == 4 {
        kind == Kind::And
    } else {
        kind == Kind::Or
    }
}

/// The expression of an operator of level `level` between its operands.
pub open spec fn joined(level: nat, left: ExprModel, operator: Kind, right: ExprModel) -> ExprModel {
    if level >= 4 {
        ExprModel::Log { left: Box::new(left), operator, right: Box::new(right) }
    } else {
        ExprModel::Binary { left: Box::new(left), operator, right: Box::new(right) }
    }
}

/// An operand of an operator of level `level`: an expression of the level
/// below, or a unary expression below level 0.
pub open spec fn operand(level: nat, s: Tokens) -> Option<(ExprModel, Tokens)>
    decreases s.len(), 3 + 2 * level,
{
    if level == 0 {
        unary(s)
    } else {
        binary((level - 1) as nat, s)
    }
}

/// The operators of level `level` behind their first operand, each with
/// its right operand; they group to the left.
pub open spec fn binary_tail(level: nat, left: ExprModel, s: Tokens) -> Option<(ExprModel, Tokens)>
    decreases s.len(), 0nat,
{
    if !at_end(s) && operator_of(level, s[0].kind) {
        match after(s) {
            Some(s1) => match fewer(s, operand(level, s1)) {
                Some((right, s2)) => binary_tail(level, joined(level, left, s[0].kind, right), s2),
                None => None,
            },
            None => None,
        }
    } else {
        Some((left, s))
    }
}

/// An expression of level `level`: operands of the level below, joined by
/// operators of the level.
pub open spec fn binary(level: nat, s: Tokens) -> Option<(ExprModel, Tokens)>
    decreases s.len(), 4 + 2 * level,
{
    match fewer(s, operand(level, s)) {
        Some((e, s1)) => binary_tail(level, e, s1),
        None => None,
    }
}

/// assignment: an expression of the loosest level and, behind `=`, the
/// assignment that gives it its value; the left side must then be a
/// variable, `this` or a property. Assignments group to the right.
pub open spec fn assignment(s: Tokens) -> Option<(ExprModel, Tokens)>
    decreases s.len(), 20nat,
{
    match fewer(s, binary(5, s)) {
        Some((e, s1)) => if next_is(s1, Kind::Equal) {
            match after(s1) {
                Some(s2) => match assignment(s2) {
                    Some((value, s3)) => match e {
                        ExprModel::Var { name } => Some(
                            (ExprModel::Assign { name, value: Box::new(value) }, s3),
                        ),
                        ExprModel::Get { object, name } => Some(
                            (ExprModel::Put { object, name, value: Box::new(value) }, s3),
                        ),
                        ExprModel::This => Some(
                            (ExprModel::Assign { name: "this"@, value: Box::new(value) }, s3),
                        ),
                        _ => None,
                    },
                    None => None,
                },
                None => None,
            }
        } else {
            Some((e, s1))
        },
        None => None,
    }
}

pub open spec fn expression(s: Tokens) -> Option<(ExprModel, Tokens)>
    decreases s.len(), 21nat,
{
    assignment(s)
}

/// An expression and `;`.
pub open spec fn expression_stmt(s: Tokens) -> Option<(StmtModel, Tokens)>
    decreases s.len(), 22nat,
{
    match expression(s) {
        Some((e, s1)) => match expect(s1, Kind::Semicolon) {
            Some(s2) => Some((StmtModel::Expr(e), s2)),
            None => None,
        },
        None => None,
    }
}

/// What follows `print`.
pub open spec fn print_stmt(s: Tokens) -> Option<(StmtModel, Tokens)>
    decreases s.len(), 23nat,
{
    match expression(s) {
        Some((e, s1)) => match expect(s1, Kind::Semicolon) {
            Some(s2) => Some((StmtModel::Print(e), s2)),
            None => None,
        },
        None => None,
    }
}

/// What follows `return`.
pub open spec fn return_stmt(s: Tokens) -> Option<(StmtModel, Tokens)>
    decreases s.len(), 23nat,
{
    if next_is(s, Kind::Semicolon) {
        match after(s) {
            Some(s1) => Some((StmtModel::Return(None), s1)),
            None => None,
        }
    } else {
        match expression(s) {
            Some((e, s1)) => match expect(s1, Kind::Semicolon) {
                Some(s2) => Some((StmtModel::Return(Some(e)), s2)),
                None => None,
            },
            None => None,
        }
    }
}

/// What follows `var`.
pub open spec fn var_decl(s: Tokens) -> Option<(StmtModel, Tokens)>
    decreases s.len(), 23nat,
{
    match ident(s) {
        Some((name, s1)) => {
            let init = if next_is(s1, Kind::Equal) {
                match after(s1) {
                    Some(s2) => match expression(s2) {
                        Some((e, s3)) => Some((Some(e), s3)),
                        None => None,
                    },
                    None => None,
                }
            } else {
                Some((None, s1))
            };
            match init {
                Some((value, s4)) => match expect(s4, Kind::Semicolon) {
                    Some(s5) => Some((StmtModel::Var { name, value }, s5)),
                    None => None,
                },
                None => None,
            }
        },
        None => None,
    }
}

/// What follows `while`.
pub open spec fn while_stmt(s: Tokens) -> Option<(StmtModel, Tokens)>
    decreases s.len(), 23nat,
{
    match expect(s, Kind::LeftParen) {
        Some(s1) => match fewer(s, expression(s1)) {
            Some((test, s2)) => match expect(s2, Kind::RightParen) {
                Some(s3) => match statement(s3) {
                    Some((body, s4)) => Some(
                        (StmtModel::While { test, body: Box::new(body) }, s4),
                    ),
                    None => None,
                },
                None => None,
            },
            None => None,
        },
        None => None,
    }
}

/// What follows `if`.
pub open spec fn if_stmt(s: Tokens) -> Option<(StmtModel, Tokens)>
    decreases s.len(), 23nat,
{
    match expect(s, Kind::LeftParen) {
        Some(s1) => match fewer(s, expression(s1)) {
            Some((test, s2)) => match expect(s2, Kind::RightParen) {
                Some(s3) => match fewer(s, statement(s3)) {
                    Some((consequence, s4)) => if next_is(s4, Kind::Else) {
                        match after(s4) {
                            Some(s5) => match statement(s5) {
                                Some((alternate, s6)) => Some(
                                    (
                                        StmtModel::If {
                                            test,
                                            consequence: Box::new(consequence),
                                            alternate: Some(Box::new(alternate)),
                                        },
                                        s6,
                                    ),
                                ),
                                None => None,
                            },
                            None => None,
                        }
                    } else {
                        Some(
                            (
                                StmtModel::If {
                                    test,
                                    consequence: Box::new(consequence),
                                    alternate: None,
                                },
                                s4,
                            ),
                        )
                    },
                    None => None,
                },
                None => None,
            },
            None => None,
        },
        None => None,
    }
}

/// The initializer of a `for` loop, through its `;`.
pub open spec fn for_init(s: Tokens) -> Option<(Option<StmtModel>, Tokens)>
    decreases s.len(), 24nat,
{
    if next_is(s, Kind::Semicolon) {
        match after(s) {
            Some(s1) => Some((None, s1)),
            None => None,
        }
    } else if next_is(s, Kind::Var) {
        match after(s) {
            Some(s1) => match var_decl(s1) {
                Some((v, s2)) => Some((Some(v), s2)),
                None => None,
            },
            None => None,
        }
    } else {
        match expression_stmt(s) {
            Some((e, s1)) => Some((Some(e), s1)),
            None => None,
        }
    }
}

/// What follows `for`: initializer, condition and update in parentheses,
/// each of which may be left out, and the body; a condition left out is
/// `true`.
pub open spec fn for_stmt(s: Tokens) -> Option<(StmtModel, Tokens)>
    decreases s.len(), 25nat,
{
    match expect(s, Kind::LeftParen) {
        Some(s1) => match fewer(s, for_init(s1)) {
            Some((init, s2)) => {
                let cond = if next_is(s2, Kind::Semicolon) {
                    Some((ExprModel::Literal(LiteralModel::Bool(true)), s2))
                } else {
                    fewer(s, expression(s2))
                };
                match cond {
                    Some((test, s3)) => match expect(s3, Kind::Semicolon) {
                        Some(s4) => {
                            let step = if next_is(s4, Kind::RightParen) {
                                Some((None, s4))
                            } else {
                                match fewer(s, expression(s4)) {
                                    Some((u, s5)) => Some((Some(u), s5)),
                                    None => None,
                                }
                            };
                            match step {
                                Some((update, s6)) => match expect(s6, Kind::RightParen) {
                                    Some(s7) => match statement(s7) {
                                        Some((body, s8)) => Some(
                                            (for_model(init, test, update, body), s8),
                                        ),
                                        None => None,
                                    },
                                    None => None,
                                },
                                None => None,
                            }
                        },
                        None => None,
                    },
                    None => None,
                }
            },
            None => None,
        },
        None => None,
    }
}

/// The declarations of a block behind those of `items`, up to the closing
/// brace, which is read too.
pub open spec fn block_items(items: Seq<StmtModel>, s: Tokens) -> Option<(Seq<StmtModel>, Tokens)>
    decreases s.len(), 31nat,
{
    if !next_is(s, Kind::RightBrace) && !at_end(s) {
        match fewer(s, decl(s)) {
            Some((item, s1)) => block_items(items.push(item), s1),
            None => None,
        }
    } else {
        match expect(s, Kind::RightBrace) {
            Some(s1) => Some((items, s1)),
            None => None,
        }
    }
}

/// statement: what its first token says it is, or else an expression and
/// `;`.
pub open spec fn statement(s: Tokens) -> Option<(StmtModel, Tokens)>
    decreases s.len(), 29nat,
{
    if next_is(s, Kind::Print) {
        match after(s) {
            Some(s1) => print_stmt(s1),
            None => None,
        }
    } else if next_is(s, Kind::Return) {
        match after(s) {
            Some(s1) => return_stmt(s1),
            None => None,
        }
    } else if next_is(s, Kind::LeftBrace) {
        match after(s) {
            Some(s1) => match block_items(Seq::empty(), s1) {
                Some((items, s2)) => Some((StmtModel::Block(items), s2)),
                None => None,
            },
            None => None,
        }
    } else if next_is(s, Kind::If) {
        match after(s) {
            Some(s1) => if_stmt(s1),
            None => None,
        }
    } else if next_is(s, Kind::While) {
        match after(s) {
            Some(s1) => while_stmt(s1),
            None => None,
        }
    } else if next_is(s, Kind::For) {
        match after(s) {
            Some(s1) => for_stmt(s1),
            None => None,
        }
    } else {
        expression_stmt(s)
    }
}

/// The parameters behind those of `params`: each behind a comma, and at
/// most `max_arity` in all.
pub open spec fn more_params(params: Seq<Seq<char>>, s: Tokens) -> Option<(Seq<Seq<char>>, Tokens)>
    decreases s.len(), 0nat,
{
    if next_is(s, Kind::Comma) {
        match after(s) {
            Some(s1) => match fewer(s, ident(s1)) {
                Some((p, s2)) => if params.len() >= max_arity() {
                    None
                } else {
                    more_params(params.push(p), s2)
                },
                None => None,
            },
            None => None,
        }
    } else {
        Some((params, s))
    }
}

/// The parameters of a function, up to the closing parenthesis.
pub open spec fn params(s: Tokens) -> Option<(Seq<Seq<char>>, Tokens)> {
    if next_is(s, Kind::RightParen) {
        Some((Seq::<Seq<char>>::empty(), s))
    } else {
        match ident(s) {
            Some((p, s1)) => more_params(seq![p], s1),
            None => None,
        }
    }
}

/// A function or method: its name, its parameters in parentheses and its
/// body in braces.
pub open spec fn function(s: Tokens) -> Option<(FunctionModel, Tokens)>
    decreases s.len(), 32nat,
{
    match ident(s) {
        Some((name, s1)) => match expect(s1, Kind::LeftParen) {
            Some(s2) => match closed(no_more(s2, params(s2)), Kind::RightParen) {
                Some((ps, s4)) => match expect(s4, Kind::LeftBrace) {
                    Some(s5) => match block_items(Seq::empty(), s5) {
                        Some((body, s6)) => Some((FunctionModel { name, params: ps, body }, s6)),
                        None => None,
                    },
                    None => None,
                },
                None => None,
            },
            None => None,
        },
        None => None,
    }
}

/// The methods of a class behind those of `methods`, up to the closing
/// brace, which is read too.
pub open spec fn methods(list: Seq<FunctionModel>, s: Tokens) -> Option<(Seq<FunctionModel>, Tokens)>
    decreases s.len(), 33nat,
{
    if !at_end(s) && !next_is(s, Kind::RightBrace) {
        match fewer(s, function(s)) {
            Some((m, s1)) => methods(list.push(m), s1),
            None => None,
        }
    } else {
        match expect(s, Kind::RightBrace) {
            Some(s1) => Some((list, s1)),
            None => None,
        }
    }
}

/// What follows `class`: a name and the methods in braces.
pub open spec fn class_decl(s: Tokens) -> Option<(StmtModel, Tokens)>
    decreases s.len(), 34nat,
{
    match ident(s) {
        Some((name, s1)) => match expect(s1, Kind::LeftBrace) {
            Some(s2) => class_of(name, methods(Seq::empty(), s2)),
            None => None,
        },
        None => None,
    }
}

/// The class named `name` with the methods of `list`.
pub open spec fn class_of(name: Seq<char>, list: Option<(Seq<FunctionModel>, Tokens)>) -> Option<
    (StmtModel, Tokens),
> {
    match list {
        Some((ms, s)) => Some((StmtModel::Class { name, methods: ms }, s)),
        None => None,
    }
}

/// decl: a declaration of a variable, a function or a class, or a
/// statement.
pub open spec fn decl(s: Tokens) -> Option<(StmtModel, Tokens)>
    decreases s.len(), 30nat,
{
    if next_is(s, Kind::Var) {
        match after(s) {
            Some(s1) => var_decl(s1),
            None => None,
        }
    } else if next_is(s, Kind::Fun) {
        match after(s) {
            Some(s1) => match function(s1) {
                Some((f, s2)) => Some((StmtModel::Func(f), s2)),
                None => None,
            },
            None => None,
        }
    } else if next_is(s, Kind::Class) {
        match after(s) {
            Some(s1) => class_decl(s1),
            None => None,
        }
    } else {
        statement(s)
    }
}

} // verus!
