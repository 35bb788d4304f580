//! The recursive-descent parser of the tree-walking path.

use vstd::prelude::*;
use crate::treewalk::error::Error;
use crate::treewalk::expr::Expr;
use crate::treewalk::expr::ExprModel;
use crate::treewalk::expr::Literal;
use crate::treewalk::grammar::Lexeme;
use crate::treewalk::grammar::Tokens;
use crate::treewalk::grammar::after;
use crate::treewalk::grammar::at_end;
use crate::treewalk::grammar::expect;
use crate::treewalk::grammar::ident;
use crate::treewalk::grammar::literal_of;
use crate::treewalk::grammar::next_is;
use crate::treewalk::grammar::operator_of;
use crate::treewalk::scanner::Scanner;
use crate::treewalk::stmt::Function;
use crate::treewalk::stmt::FunctionModel;
use crate::treewalk::stmt::Stmt;
use crate::treewalk::stmt::StmtModel;
use crate::treewalk::stmt::is_for_loop;
use crate::treewalk::token::Kind;
use crate::treewalk::token::Token;
use crate::treewalk::token::TokenType;

verus! {

/// The most parameters that a function can have, and the most arguments
/// that a call can pass.
pub const MAX_ARITY: usize = 255;

/// Reads statements from a scanner, one at a time.
pub struct Parser {
    pub scanner: Scanner,
    tokens: Vec<Token>,
}

/// Whether a statement can start with a token of kind `kind`, so that
/// reading can go on there after an error.
pub open spec fn starts_statement(kind: Kind) -> bool {
    kind == Kind::Class || kind == Kind::Fun || kind == Kind::Var || kind == Kind::For || kind
        == Kind::If || kind == Kind::While || kind == Kind::Print || kind == Kind::Return
}

/// Whether the tokens end with `Eof`: all of the source can be scanned.
pub open spec fn closed_by_eof(s: Tokens) -> bool {
    s.len() > 0 && s.last().kind == Kind::Eof
}

/// Whether `r` is the error of a parser that stood at `before`: the
/// scanner's only where the tokens ahead cannot all be scanned, else the
/// parser's.
pub open spec fn failed<T>(before: Parser, r: Result<T, Error>) -> bool {
    &&& r is Err
    &&& r->Err_0 is Parser || r->Err_0 is Scanner
    &&& closed_by_eof(before.stream()) ==> r->Err_0 is Parser
}

/// The tokens that are left once reading has gone on, behind a token of
/// kind `last`, to the first place where a statement can start: the end, a
/// place behind a `;`, or a token that starts a statement.
pub open spec fn resumed(s: Tokens, last: Kind) -> Tokens
    decreases s.len(),
{
    if at_end(s) || last == Kind::Semicolon || starts_statement(s[0].kind) {
        s
    } else {
        match after(s) {
            Some(rest) => resumed(rest, s[0].kind),
            None => s,
        }
    }
}

/// The tokens that are left after an error: the next token is passed over
/// in any case, and reading goes on from there as `resumed` says.
pub open spec fn synced(s: Tokens) -> Tokens {
    if at_end(s) {
        s
    } else {
        match after(s) {
            Some(rest) => resumed(rest, s[0].kind),
            None => s,
        }
    }
}

/// Whether a parser that stood before tokens that end with `Eof` still
/// does, and has not failed for the scanner.
pub open spec fn stays_closed<T>(before: Parser, after: Parser, r: Result<T, Error>) -> bool {
    closed_by_eof(before.stream()) ==> closed_by_eof(after.stream()) && !(r is Err && r->Err_0
        is Scanner)
}

/// How parsing an expression relates the parser before it, the parser
/// after it and what it returns to what the grammar makes of the tokens
/// that lay ahead: the expression of the grammar, with no variable
/// resolved, and the tokens that the grammar leaves; or an error of the
/// parser or of the scanner where the grammar makes nothing of them.
pub open spec fn expr_parsed(
    before: Parser,
    after: Parser,
    r: Result<Expr, Error>,
    expected: Option<(ExprModel, Tokens)>,
) -> bool {
    &&& (closed_by_eof(before.stream()) ==> closed_by_eof(after.stream()))
    &&& match expected {
        Some((m, s)) => r is Ok && r->Ok_0.model() == m && r->Ok_0.unresolved() && after.stream()
            == s && s.len() < before.stream().len(),
        None => failed(before, r),
    }
}

/// As `expr_parsed`, for a statement.
pub open spec fn stmt_parsed(
    before: Parser,
    after: Parser,
    r: Result<Stmt, Error>,
    expected: Option<(StmtModel, Tokens)>,
) -> bool {
    &&& (closed_by_eof(before.stream()) ==> closed_by_eof(after.stream()))
    &&& match expected {
        Some((m, s)) => r is Ok && r->Ok_0.model() == m && r->Ok_0.unresolved() && after.stream()
            == s && s.len() < before.stream().len(),
        None => failed(before, r),
    }
}

/// As `expr_parsed`, for a function or method.
pub open spec fn func_parsed(
    before: Parser,
    after: Parser,
    r: Result<Function, Error>,
    expected: Option<(FunctionModel, Tokens)>,
) -> bool {
    &&& (closed_by_eof(before.stream()) ==> closed_by_eof(after.stream()))
    &&& match expected {
        Some((m, s)) => r is Ok && r->Ok_0.model() == m && r->Ok_0.unresolved() && after.stream()
            == s && s.len() < before.stream().len(),
        None => failed(before, r),
    }
}

/// As `expr_parsed`, for the statements of a block.
pub open spec fn block_parsed(
    before: Parser,
    after: Parser,
    r: Result<Vec<Stmt>, Error>,
    expected: Option<(Seq<StmtModel>, Tokens)>,
) -> bool {
    &&& (closed_by_eof(before.stream()) ==> closed_by_eof(after.stream()))
    &&& match expected {
        Some((m, s)) => {
            &&& r is Ok
            &&& r->Ok_0@.len() == m.len()
            &&& forall|i: int| 0 <= i < m.len() ==> (#[trigger] r->Ok_0@[i]).model() == m[i]
            &&& forall|i: int| 0 <= i < m.len() ==> (#[trigger] r->Ok_0@[i]).unresolved()
            &&& after.stream() == s
            &&& s.len() < before.stream().len()
        },
        None => failed(before, r),
    }
}

/// Whether `kind` is an operator of level `level`.
fn is_operator(level: usize, kind: Kind) -> (r: bool)
    ensures
        r == operator_of(level as nat, kind),
{
    if level == 0 {
        kind == Kind::Slash || kind == Kind::Star
    } else if level == 1 {
        kind == Kind::Minus || kind == Kind::Plus
    } else if level == 2 {
        kind == Kind::Greater || kind == Kind::GreaterEqual || kind == Kind::Less || kind
            == Kind::LessEqual
    } else if level == 3 {
        kind == Kind::BangEqual || kind == Kind::EqualEqual
    } else if level == 4 {
        kind == Kind::And
    } else {
        kind == Kind::Or
    }
}

impl Parser {
    /// The scanner is in order.
    pub closed spec fn inv(&self) -> bool {
        self.scanner.wf()
    }

    /// An upper bound on the tokens that are left to read.
    pub closed spec fn pending(&self) -> nat {
        self.scanner.pending()
    }

    /// The token that is read next.
    pub closed spec fn ahead(&self) -> Option<Token> {
        self.scanner.ahead()
    }

    /// The tokens that lie ahead, as the grammar sees them.
    pub closed spec fn stream(&self) -> Tokens {
        self.scanner.stream()
    }

    /// Whether no token but `Eof` is left.
    pub closed spec fn finished(&self) -> bool {
        self.scanner.finished()
    }

    /// The line on which the token that the scanner read last ends.
    pub closed spec fn line_read(&self) -> usize {
        self.scanner.line_read()
    }

    /// The tokens read so far.
    pub closed spec fn consumed(&self) -> Seq<Token> {
        self.tokens@
    }

    /// No token but `Eof` is left exactly if the grammar sees none ahead.
    pub proof fn finished_is_at_end(&self)
        requires
            self.inv(),
        ensures
            self.finished() == at_end(self.stream()),
    {
        self.scanner.stream_starts_ahead();
    }

    pub fn new(scanner: Scanner) -> (r: Parser)
        ensures
            r.inv() == scanner.wf(),
            r.pending() == scanner.pending(),
            r.ahead() == scanner.ahead(),
            r.stream() == scanner.stream(),
            r.consumed().len() == 0,
            r.line_read() == scanner.line_read(),
    {
        Parser { scanner, tokens: Vec::new() }
    }

    /// The line of the token that was read last.
    pub fn line(&self) -> (r: usize)
        ensures
            r == self.line_read(),
    {
        self.scanner.current_line()
    }

    /// A declaration of a variable, a function or a class, or a statement.
    pub fn decl(&mut self) -> (r: Result<Stmt, Error>)
        requires
            old(self).inv(),
        ensures
            final(self).inv(),
            final(self).pending() <= old(self).pending(),
            r is Ok ==> final(self).pending() < old(self).pending(),
            stmt_parsed(*old(self), *final(self), r, crate::treewalk::grammar::decl(old(self).stream())),
        decreases old(self).pending(), 40nat,
    {
        if self.at(Kind::Var)? {
            self.var_decl()
        } else if self.at(Kind::Fun)? {
            self.fun_decl("function")
        } else if self.at(Kind::Class)? {
            self.class_decl()
        } else {
            self.statement()
        }
    }

    pub fn statement(&mut self) -> (r: Result<Stmt, Error>)
        requires
            old(self).inv(),
        ensures
            final(self).inv(),
            final(self).pending() <= old(self).pending(),
            r is Ok ==> final(self).pending() < old(self).pending(),
            stmt_parsed(
                *old(self),
                *final(self),
                r,
                crate::treewalk::grammar::statement(old(self).stream()),
            ),
        decreases old(self).pending(), 39nat,
    {
        if self.at(Kind::Print)? {
            self.print_stmt()
        } else if self.at(Kind::Return)? {
            self.return_stmt()
        } else if self.at(Kind::LeftBrace)? {
            self.block_stmt()
        } else if self.at(Kind::If)? {
            self.if_stmt()
        } else if self.at(Kind::While)? {
            self.while_stmt()
        } else if self.at(Kind::For)? {
            self.for_stmt()
        } else {
            self.expression_stmt()
        }
    }

    /// What follows `var`: a name, an initializer if `=` follows, and `;`.
    pub fn var_decl(&mut self) -> (r: Result<Stmt, Error>)
        requires
            old(self).inv(),
        ensures
            final(self).inv(),
            final(self).pending() <= old(self).pending(),
            r is Ok ==> final(self).pending() < old(self).pending() && r->Ok_0 is Var,
            stmt_parsed(
                *old(self),
                *final(self),
                r,
                crate::treewalk::grammar::var_decl(old(self).stream()),
            ),
        decreases old(self).pending(), 33nat,
    {
        let name = self.expect_ident()?;
        let value = if self.at(Kind::Equal)? {
            Some(self.expression()?)
        } else {
            None
        };
        self.consume(Kind::Semicolon, "Expect ';' after variable declaration.")?;
        Ok(Stmt::Var { name, value })
    }

    pub fn fun_decl(&mut self, kind: &str) -> (r: Result<Stmt, Error>)
        requires
            old(self).inv(),
        ensures
            final(self).inv(),
            final(self).pending() <= old(self).pending(),
            r is Ok ==> final(self).pending() < old(self).pending() && r->Ok_0 is Func
                && r->Ok_0->Func_0.params@.len() <= MAX_ARITY,
            stmt_parsed(
                *old(self),
                *final(self),
                r,
                match crate::treewalk::grammar::function(old(self).stream()) {
                    Some((f, s)) => Some((StmtModel::Func(f), s)),
                    None => None,
                },
            ),
        decreases old(self).pending(), 43nat,
    {
        let func = self.bare_func(kind)?;
        Ok(Stmt::Func(func))
    }

    /// A name, parameters in parentheses and a body in braces.
    pub fn bare_func(&mut self, kind: &str) -> (r: Result<Function, Error>)
        requires
            old(self).inv(),
        ensures
            final(self).inv(),
            final(self).pending() <= old(self).pending(),
            r is Ok ==> final(self).pending() < old(self).pending() && r->Ok_0.params@.len()
                <= MAX_ARITY,
            func_parsed(
                *old(self),
                *final(self),
                r,
                crate::treewalk::grammar::function(old(self).stream()),
            ),
        decreases old(self).pending(), 42nat,
    {
        let name = self.expect_ident()?;
        self.consume(Kind::LeftParen, "Expected ( after the name")?;
        let ghost s2 = self.stream();
        let ghost total = crate::treewalk::grammar::function(old(self).stream());
        let mut params: Vec<String> = Vec::new();
        assert(Seq::new(params@.len(), |i: int| params@[i]@) =~= Seq::<Seq<char>>::empty());
        if !self.check(Kind::RightParen) {
            params.push(self.expect_ident()?);
            let ghost expected = crate::treewalk::grammar::params(s2);
            assert(Seq::new(params@.len(), |i: int| params@[i]@) =~= seq![params@[0]@]);
            loop
                invariant
                    closed_by_eof(old(self).stream()) ==> closed_by_eof(self.stream()),
                    self.inv(),
                    self.pending() < old(self).pending(),
                    self.stream().len() <= s2.len(),
                    s2.len() < old(self).stream().len(),
                    1 <= params@.len() <= MAX_ARITY,
                    total == crate::treewalk::grammar::function(old(self).stream()),
                    expected == crate::treewalk::grammar::params(s2),
                    crate::treewalk::grammar::ident(old(self).stream()) matches Some((n, s1))
                        && n == name@ && crate::treewalk::grammar::expect(s1, Kind::LeftParen)
                        == Some(s2),
                    expected == crate::treewalk::grammar::more_params(
                        Seq::new(params@.len(), |i: int| params@[i]@),
                        self.stream(),
                    ),
                ensures
                    expected == Some((Seq::new(params@.len(), |i: int| params@[i]@), self.stream())),
                decreases self.pending(),
            {
                let ghost before = Seq::new(params@.len(), |i: int| params@[i]@);
                if !self.at(Kind::Comma)? {
                    break ;
                }
                let param = self.expect_ident()?;
                if params.len() >= MAX_ARITY {
                    return Err(
                        Error::Parser(
                            String::from_str(kind).concat(" \"").concat(name.as_str()).concat(
                                "\" has too many parameters",
                            ),
                        ),
                    );
                }
                params.push(param);
                assert(Seq::new(params@.len(), |i: int| params@[i]@) =~= before.push(param@));
            }
        }
        self.consume(Kind::RightParen, "Expected ) after the parameters")?;
        self.consume(Kind::LeftBrace, "Expected { after the parameters")?;
        let body = self.bare_block()?;
        let f = Function { name, params, body };
        proof {
            let expected = crate::treewalk::grammar::function(old(self).stream())->Some_0.0;
            assert(f.model().params =~= expected.params);
            assert(f.model().body =~= expected.body);
        }
        Ok(f)
    }

    /// What follows `class`: a name and methods in braces.
    pub fn class_decl(&mut self) -> (r: Result<Stmt, Error>)
        requires
            old(self).inv(),
        ensures
            final(self).inv(),
            final(self).pending() <= old(self).pending(),
            r is Ok ==> final(self).pending() < old(self).pending() && r->Ok_0 is Class,
            stmt_parsed(
                *old(self),
                *final(self),
                r,
                crate::treewalk::grammar::class_decl(old(self).stream()),
            ),
        decreases old(self).pending(), 44nat,
    {
        let ident = self.expect_ident()?;
        self.consume(Kind::LeftBrace, "Expected { after class name")?;
        let ghost s2 = self.stream();
        let ghost expected = crate::treewalk::grammar::methods(Seq::empty(), s2);
        let mut methods: Vec<Function> = Vec::new();
        assert(Seq::new(methods@.len(), |i: int| methods@[i].model()) =~= Seq::<
            FunctionModel,
        >::empty());
        proof {
            self.finished_is_at_end();
        }
        while !self.is_at_end() && !self.check(Kind::RightBrace)
            invariant
                closed_by_eof(old(self).stream()) ==> closed_by_eof(self.stream()),
                self.inv(),
                self.pending() < old(self).pending(),
                self.stream().len() <= s2.len(),
                s2.len() < old(self).stream().len(),
                self.finished() == at_end(self.stream()),
                crate::treewalk::grammar::class_decl(old(self).stream())
                    == crate::treewalk::grammar::class_of(ident@, expected),
                forall|i: int| 0 <= i < methods@.len() ==> (#[trigger] methods@[i]).unresolved(),
                expected == crate::treewalk::grammar::methods(
                    Seq::new(methods@.len(), |i: int| methods@[i].model()),
                    self.stream(),
                ),
            decreases self.pending(),
        {
            let ghost before = Seq::new(methods@.len(), |i: int| methods@[i].model());
            let m = self.bare_func("method")?;
            methods.push(m);
            assert(Seq::new(methods@.len(), |i: int| methods@[i].model()) =~= before.push(
                m.model(),
            ));
            proof {
                self.finished_is_at_end();
            }
        }
        self.consume(Kind::RightBrace, "Expected } after class methods")?;
        let r = Stmt::Class { name: ident, methods };
        proof {
            assert(r.model()->Class_methods =~= expected->Some_0.0);
        }
        Ok(r)
    }

    /// What follows `print`: an expression and `;`.
    pub fn print_stmt(&mut self) -> (r: Result<Stmt, Error>)
        requires
            old(self).inv(),
        ensures
            final(self).inv(),
            final(self).pending() <= old(self).pending(),
            r is Ok ==> final(self).pending() < old(self).pending() && r->Ok_0 is Print,
            stmt_parsed(
                *old(self),
                *final(self),
                r,
                crate::treewalk::grammar::print_stmt(old(self).stream()),
            ),
        decreases old(self).pending(), 33nat,
    {
        let value = self.expression()?;
        self.consume(Kind::Semicolon, "Print statments must end with a semi-colon")?;
        Ok(Stmt::Print(value))
    }

    /// What follows `return`: an expression, unless `;` follows at once, and
    /// `;`.
    pub fn return_stmt(&mut self) -> (r: Result<Stmt, Error>)
        requires
            old(self).inv(),
        ensures
            final(self).inv(),
            final(self).pending() <= old(self).pending(),
            r is Ok ==> final(self).pending() < old(self).pending() && r->Ok_0 is Return,
            stmt_parsed(
                *old(self),
                *final(self),
                r,
                crate::treewalk::grammar::return_stmt(old(self).stream()),
            ),
        decreases old(self).pending(), 33nat,
    {
        let val = if !self.check(Kind::Semicolon) {
            Some(self.expression()?)
        } else {
            None
        };
        self.consume(Kind::Semicolon, "Expected ; after return")?;
        Ok(Stmt::Return(val))
    }

    /// What follows `while`: a condition in parentheses and a statement.
    pub fn while_stmt(&mut self) -> (r: Result<Stmt, Error>)
        requires
            old(self).inv(),
        ensures
            final(self).inv(),
            final(self).pending() <= old(self).pending(),
            r is Ok ==> final(self).pending() < old(self).pending() && r->Ok_0 is While,
            stmt_parsed(
                *old(self),
                *final(self),
                r,
                crate::treewalk::grammar::while_stmt(old(self).stream()),
            ),
        decreases old(self).pending(), 33nat,
    {
        self.consume(Kind::LeftParen, "'while' must be followed by a '('")?;
        let test = self.expression()?;
        self.consume(Kind::RightParen, "'while ([expresssion] must be followed by a ')'")?;
        let body = self.statement()?;
        Ok(Stmt::While { test, body: Box::new(body) })
    }

    /// What follows `for`: initializer, condition and update in parentheses,
    /// each of which may be left out, and a statement. The loop is rewritten
    /// to a block of the initializer and a `while` on the condition, `true`
    /// where it is left out, whose body is a block of the statement and the
    /// update.
    pub fn for_stmt(&mut self) -> (r: Result<Stmt, Error>)
        requires
            old(self).inv(),
        ensures
            final(self).inv(),
            final(self).pending() <= old(self).pending(),
            r is Ok ==> final(self).pending() < old(self).pending() && is_for_loop(r->Ok_0),
            stmt_parsed(
                *old(self),
                *final(self),
                r,
                crate::treewalk::grammar::for_stmt(old(self).stream()),
            ),
        decreases old(self).pending(), 35nat,
    {
        self.consume(Kind::LeftParen, "Expected '(' after for")?;
        let init = if self.at(Kind::Semicolon)? {
            None
        } else if self.at(Kind::Var)? {
            Some(self.var_decl()?)
        } else {
            Some(self.expression_stmt()?)
        };
        let cond = if !self.check(Kind::Semicolon) {
            self.expression()?
        } else {
            Expr::Literal(Literal::Bool(true))
        };
        self.consume(Kind::Semicolon, "Expected ';' after for loop test")?;
        let update = if !self.check(Kind::RightParen) {
            Some(self.expression()?)
        } else {
            None
        };
        self.consume(Kind::RightParen, "Expected ')' after for (...")?;
        let body = self.statement()?;
        Ok(Stmt::for_stmt(init, cond, update, body))
    }

    pub fn block_stmt(&mut self) -> (r: Result<Stmt, Error>)
        requires
            old(self).inv(),
        ensures
            final(self).inv(),
            final(self).pending() <= old(self).pending(),
            r is Ok ==> final(self).pending() < old(self).pending() && r->Ok_0 is Block,
            stmt_parsed(
                *old(self),
                *final(self),
                r,
                match crate::treewalk::grammar::block_items(Seq::empty(), old(self).stream()) {
                    Some((items, s)) => Some((StmtModel::Block(items), s)),
                    None => None,
                },
            ),
        decreases old(self).pending(), 42nat,
    {
        let list = self.bare_block()?;
        let r = Stmt::Block(list);
        proof {
            let expected = crate::treewalk::grammar::block_items(
                Seq::empty(),
                old(self).stream(),
            )->Some_0.0;
            assert(r.model()->Block_0 =~= expected);
        }
        Ok(r)
    }

    /// Declarations up to the closing brace, which is read too.
    fn bare_block(&mut self) -> (r: Result<Vec<Stmt>, Error>)
        requires
            old(self).inv(),
        ensures
            final(self).inv(),
            final(self).pending() <= old(self).pending(),
            r is Ok ==> final(self).pending() < old(self).pending(),
            block_parsed(
                *old(self),
                *final(self),
                r,
                crate::treewalk::grammar::block_items(Seq::empty(), old(self).stream()),
            ),
        decreases old(self).pending(), 41nat,
    {
        let mut ret: Vec<Stmt> = Vec::new();
        let ghost expected = crate::treewalk::grammar::block_items(
            Seq::empty(),
            old(self).stream(),
        );
        assert(Seq::new(ret@.len(), |i: int| ret@[i].model()) =~= Seq::<StmtModel>::empty());
        proof {
            self.finished_is_at_end();
        }
        while !self.check(Kind::RightBrace) && !self.is_at_end()
            invariant
                closed_by_eof(old(self).stream()) ==> closed_by_eof(self.stream()),
                self.inv(),
                self.finished() == at_end(self.stream()),
                self.pending() <= old(self).pending(),
                self.stream().len() <= old(self).stream().len(),
                forall|i: int| 0 <= i < ret@.len() ==> (#[trigger] ret@[i]).unresolved(),
                expected == crate::treewalk::grammar::block_items(
                    Seq::empty(),
                    old(self).stream(),
                ),
                expected == crate::treewalk::grammar::block_items(
                    Seq::new(ret@.len(), |i: int| ret@[i].model()),
                    self.stream(),
                ),
            decreases self.pending(),
        {
            let ghost before = Seq::new(ret@.len(), |i: int| ret@[i].model());
            let item = self.decl()?;
            ret.push(item);
            assert(Seq::new(ret@.len(), |i: int| ret@[i].model()) =~= before.push(item.model()));
            proof {
                self.finished_is_at_end();
            }
        }
        self.consume(Kind::RightBrace, "Expect '}' after block.")?;
        Ok(ret)
    }

    /// What follows `if`: a condition in parentheses, a statement and, after
    /// `else`, another.
    pub fn if_stmt(&mut self) -> (r: Result<Stmt, Error>)
        requires
            old(self).inv(),
        ensures
            final(self).inv(),
            final(self).pending() <= old(self).pending(),
            r is Ok ==> final(self).pending() < old(self).pending() && r->Ok_0 is If,
            stmt_parsed(
                *old(self),
                *final(self),
                r,
                crate::treewalk::grammar::if_stmt(old(self).stream()),
            ),
        decreases old(self).pending(), 33nat,
    {
        self.consume(Kind::LeftParen, "Expected ( after if")?;
        let cond = self.expression()?;
        self.consume(Kind::RightParen, "Expected ) after if ([expression]")?;
        let cons = self.statement()?;
        let alt = if self.at(Kind::Else)? {
            let alt = self.statement()?;
            Some(Box::new(alt))
        } else {
            None
        };
        Ok(Stmt::If { test: cond, consequence: Box::new(cons), alternate: alt })
    }

    pub fn expression_stmt(&mut self) -> (r: Result<Stmt, Error>)
        requires
            old(self).inv(),
        ensures
            final(self).inv(),
            final(self).pending() <= old(self).pending(),
            r is Ok ==> final(self).pending() < old(self).pending() && r->Ok_0 is Expr,
            stmt_parsed(
                *old(self),
                *final(self),
                r,
                crate::treewalk::grammar::expression_stmt(old(self).stream()),
            ),
        decreases old(self).pending(), 32nat,
    {
        let value = self.expression()?;
        self.consume(Kind::Semicolon, "Expected semi-colon after expression")?;
        Ok(Stmt::Expr(value))
    }

    pub fn expression(&mut self) -> (r: Result<Expr, Error>)
        requires
            old(self).inv(),
        ensures
            final(self).inv(),
            final(self).pending() <= old(self).pending(),
            r is Ok ==> final(self).pending() < old(self).pending(),
            expr_parsed(
                *old(self),
                *final(self),
                r,
                crate::treewalk::grammar::expression(old(self).stream()),
            ),
        decreases old(self).pending(), 31nat,
    {
        self.assignment()
    }

    /// An assignment, which groups to the right, or what binds tighter. The
    /// left side of `=` must be a variable or a property.
    fn assignment(&mut self) -> (r: Result<Expr, Error>)
        requires
            old(self).inv(),
        ensures
            final(self).inv(),
            final(self).pending() <= old(self).pending(),
            r is Ok ==> final(self).pending() < old(self).pending(),
            expr_parsed(
                *old(self),
                *final(self),
                r,
                crate::treewalk::grammar::assignment(old(self).stream()),
            ),
        decreases old(self).pending(), 30nat,
    {
        let expr = self.logical_or()?;
        if self.at(Kind::Equal)? {
            let value = self.assignment()?;
            match expr {
                Expr::Var { name, depth } => Ok(Expr::assign(name, value)),
                Expr::Get { object, name } => Ok(Expr::Put { object, name, value: Box::new(value) }),
                Expr::This => Ok(Expr::assign(String::from_str("this"), value)),
                _ => Err(Error::Parser(String::from_str("Expected ident before equals"))),
            }
        } else {
            Ok(expr)
        }
    }

    fn logical_or(&mut self) -> (r: Result<Expr, Error>)
        requires
            old(self).inv(),
        ensures
            final(self).inv(),
            final(self).pending() <= old(self).pending(),
            r is Ok ==> final(self).pending() < old(self).pending(),
            expr_parsed(
                *old(self),
                *final(self),
                r,
                crate::treewalk::grammar::binary(5, old(self).stream()),
            ),
        decreases old(self).pending(), 21nat,
    {
        self.binary_level(5)
    }

    fn logical_and(&mut self) -> (r: Result<Expr, Error>)
        requires
            old(self).inv(),
        ensures
            final(self).inv(),
            final(self).pending() <= old(self).pending(),
            r is Ok ==> final(self).pending() < old(self).pending(),
            expr_parsed(
                *old(self),
                *final(self),
                r,
                crate::treewalk::grammar::binary(4, old(self).stream()),
            ),
        decreases old(self).pending(), 18nat,
    {
        self.binary_level(4)
    }

    fn equality(&mut self) -> (r: Result<Expr, Error>)
        requires
            old(self).inv(),
        ensures
            final(self).inv(),
            final(self).pending() <= old(self).pending(),
            r is Ok ==> final(self).pending() < old(self).pending(),
            expr_parsed(
                *old(self),
                *final(self),
                r,
                crate::treewalk::grammar::binary(3, old(self).stream()),
            ),
        decreases old(self).pending(), 15nat,
    {
        self.binary_level(3)
    }

    fn comparison(&mut self) -> (r: Result<Expr, Error>)
        requires
            old(self).inv(),
        ensures
            final(self).inv(),
            final(self).pending() <= old(self).pending(),
            r is Ok ==> final(self).pending() < old(self).pending(),
            expr_parsed(
                *old(self),
                *final(self),
                r,
                crate::treewalk::grammar::binary(2, old(self).stream()),
            ),
        decreases old(self).pending(), 12nat,
    {
        self.binary_level(2)
    }

    fn addition(&mut self) -> (r: Result<Expr, Error>)
        requires
            old(self).inv(),
        ensures
            final(self).inv(),
            final(self).pending() <= old(self).pending(),
            r is Ok ==> final(self).pending() < old(self).pending(),
            expr_parsed(
                *old(self),
                *final(self),
                r,
                crate::treewalk::grammar::binary(1, old(self).stream()),
            ),
        decreases old(self).pending(), 9nat,
    {
        self.binary_level(1)
    }

    fn multiplication(&mut self) -> (r: Result<Expr, Error>)
        requires
            old(self).inv(),
        ensures
            final(self).inv(),
            final(self).pending() <= old(self).pending(),
            r is Ok ==> final(self).pending() < old(self).pending(),
            expr_parsed(
                *old(self),
                *final(self),
                r,
                crate::treewalk::grammar::binary(0, old(self).stream()),
            ),
        decreases old(self).pending(), 6nat,
    {
        self.binary_level(0)
    }

    /// An operand of an operator of level `level`.
    fn operand(&mut self, level: usize) -> (r: Result<Expr, Error>)
        requires
            old(self).inv(),
            level <= 5,
        ensures
            final(self).inv(),
            final(self).pending() <= old(self).pending(),
            r is Ok ==> final(self).pending() < old(self).pending(),
            expr_parsed(
                *old(self),
                *final(self),
                r,
                crate::treewalk::grammar::operand(level as nat, old(self).stream()),
            ),
        decreases old(self).pending(), 3 * level + 4,
    {
        if level == 0 {
            self.unary()
        } else if level == 1 {
            self.multiplication()
        } else if level == 2 {
            self.addition()
        } else if level == 3 {
            self.comparison()
        } else if level == 4 {
            self.equality()
        } else {
            self.logical_and()
        }
    }

    /// Operands of the level below `level`, joined by operators of the
    /// level, which group to the left.
    fn binary_level(&mut self, level: usize) -> (r: Result<Expr, Error>)
        requires
            old(self).inv(),
            level <= 5,
        ensures
            final(self).inv(),
            final(self).pending() <= old(self).pending(),
            r is Ok ==> final(self).pending() < old(self).pending(),
            expr_parsed(
                *old(self),
                *final(self),
                r,
                crate::treewalk::grammar::binary(level as nat, old(self).stream()),
            ),
        decreases old(self).pending(), 3 * level + 5,
    {
        let ghost expected = crate::treewalk::grammar::binary(level as nat, old(self).stream());
        let mut expr = self.operand(level)?;
        loop
            invariant
                closed_by_eof(old(self).stream()) ==> closed_by_eof(self.stream()),
                self.inv(),
                level <= 5,
                self.pending() < old(self).pending(),
                self.stream().len() < old(self).stream().len(),
                expr.unresolved(),
                expected == crate::treewalk::grammar::binary(level as nat, old(self).stream()),
                expected == crate::treewalk::grammar::binary_tail(
                    level as nat,
                    expr.model(),
                    self.stream(),
                ),
            ensures
                expected == Some((expr.model(), self.stream())),
                expr.unresolved(),
                self.inv(),
                self.pending() < old(self).pending(),
                self.stream().len() < old(self).stream().len(),
            decreases self.pending(),
        {
            proof {
                self.finished_is_at_end();
            }
            let kind = match self.peek() {
                Some(kind) => kind,
                None => {
                    break ;
                },
            };
            if self.is_at_end() || !is_operator(level, kind) {
                break ;
            }
            self.advance()?;
            let op = self.previous()?;
            let right = self.operand(level)?;
            expr =
            if level >= 4 {
                Expr::log(expr, right, op)
            } else {
                Expr::binary(expr, right, op)
            };
        }
        Ok(expr)
    }

    fn unary(&mut self) -> (r: Result<Expr, Error>)
        requires
            old(self).inv(),
        ensures
            final(self).inv(),
            final(self).pending() <= old(self).pending(),
            r is Ok ==> final(self).pending() < old(self).pending(),
            expr_parsed(
                *old(self),
                *final(self),
                r,
                crate::treewalk::grammar::unary(old(self).stream()),
            ),
        decreases old(self).pending(), 2nat,
    {
        if self.at(Kind::Bang)? || self.at(Kind::Minus)? {
            let op = self.previous()?;
            let right = self.unary()?;
            Ok(Expr::unary(op, right))
        } else {
            self.call()
        }
    }

    /// A primary expression and the calls and property names that follow it.
    fn call(&mut self) -> (r: Result<Expr, Error>)
        requires
            old(self).inv(),
        ensures
            final(self).inv(),
            final(self).pending() <= old(self).pending(),
            r is Ok ==> final(self).pending() < old(self).pending(),
            expr_parsed(
                *old(self),
                *final(self),
                r,
                crate::treewalk::grammar::call(old(self).stream()),
            ),
        decreases old(self).pending(), 1nat,
    {
        let ghost expected = crate::treewalk::grammar::call(old(self).stream());
        let mut expr = self.primary()?;
        loop
            invariant
                closed_by_eof(old(self).stream()) ==> closed_by_eof(self.stream()),
                self.inv(),
                self.pending() < old(self).pending(),
                self.stream().len() < old(self).stream().len(),
                expr.unresolved(),
                expected == crate::treewalk::grammar::call(old(self).stream()),
                expected == crate::treewalk::grammar::call_tail(expr.model(), self.stream()),
            ensures
                expected == Some((expr.model(), self.stream())),
                expr.unresolved(),
                self.inv(),
                self.pending() < old(self).pending(),
                self.stream().len() < old(self).stream().len(),
            decreases self.pending(),
        {
            if self.at(Kind::LeftParen)? {
                expr = self.finish_call(expr)?;
            } else if self.at(Kind::Dot)? {
                let name = self.expect_ident()?;
                expr = Expr::Get { object: Box::new(expr), name };
            } else {
                break ;
            }
        }
        Ok(expr)
    }

    /// The arguments of a call, whose opening parenthesis has been read,
    /// through the closing one.
    fn finish_call(&mut self, expr: Expr) -> (r: Result<Expr, Error>)
        requires
            old(self).inv(),
            expr.unresolved(),
        ensures
            final(self).inv(),
            final(self).pending() <= old(self).pending(),
            r is Ok ==> final(self).pending() < old(self).pending() && r->Ok_0 is Call
                && r->Ok_0->Call_arguments@.len() <= MAX_ARITY && *r->Ok_0->Call_callee == expr,
            expr_parsed(
                *old(self),
                *final(self),
                r,
                match crate::treewalk::grammar::arguments(old(self).stream()) {
                    Some((args, s)) => Some(
                        (ExprModel::Call { callee: Box::new(expr.model()), arguments: args }, s),
                    ),
                    None => None,
                },
            ),
        decreases old(self).pending(), 50nat,
    {
        let mut args: Vec<Expr> = Vec::new();
        let ghost mut listed: Option<(Seq<ExprModel>, Tokens)> = Some(
            (Seq::<ExprModel>::empty(), self.stream()),
        );
        if !self.check(Kind::RightParen) {
            args.push(self.expression()?);
            let ghost s1 = self.stream();
            proof {
                listed = crate::treewalk::grammar::more_arguments(seq![args@[0].model()], s1);
                assert(Seq::new(args@.len(), |i: int| args@[i].model()) =~= seq![args@[0].model()]);
            }
            loop
                invariant
                    closed_by_eof(old(self).stream()) ==> closed_by_eof(self.stream()),
                    self.inv(),
                    self.pending() < old(self).pending(),
                    self.stream().len() < old(self).stream().len(),
                    1 <= args@.len() <= MAX_ARITY,
                    forall|i: int| 0 <= i < args@.len() ==> (#[trigger] args@[i]).unresolved(),
                    listed == crate::treewalk::grammar::argument_list(old(self).stream()),
                    listed == crate::treewalk::grammar::more_arguments(
                        Seq::new(args@.len(), |i: int| args@[i].model()),
                        self.stream(),
                    ),
                ensures
                    listed == Some((Seq::new(args@.len(), |i: int| args@[i].model()), self.stream())),
                    forall|i: int| 0 <= i < args@.len() ==> (#[trigger] args@[i]).unresolved(),
                    self.inv(),
                    self.pending() < old(self).pending(),
                    self.stream().len() < old(self).stream().len(),
                    args@.len() <= MAX_ARITY,
                decreases self.pending(),
            {
                let ghost before = Seq::new(args@.len(), |i: int| args@[i].model());
                if !self.at(Kind::Comma)? {
                    break ;
                }
                let arg = self.expression()?;
                if args.len() >= MAX_ARITY {
                    return Err(Error::Parser(String::from_str("Too many arguments in a call")));
                }
                args.push(arg);
                assert(Seq::new(args@.len(), |i: int| args@[i].model()) =~= before.push(
                    arg.model(),
                ));
            }
        } else {
            assert(Seq::new(args@.len(), |i: int| args@[i].model()) =~= Seq::<ExprModel>::empty());
        }
        self.consume(Kind::RightParen, "Expected ) at end of function call")?;
        let r = Expr::Call { callee: Box::new(expr), arguments: args };
        proof {
            assert(r.model()->Call_arguments =~= listed->Some_0.0);
        }
        Ok(r)
    }

    /// A literal, `this`, a variable or an expression in parentheses.
    fn primary(&mut self) -> (r: Result<Expr, Error>)
        requires
            old(self).inv(),
        ensures
            final(self).inv(),
            final(self).pending() <= old(self).pending(),
            r is Ok ==> final(self).pending() < old(self).pending(),
            expr_parsed(
                *old(self),
                *final(self),
                r,
                crate::treewalk::grammar::primary(old(self).stream()),
            ),
        decreases old(self).pending(), 0nat,
    {
        proof {
            self.finished_is_at_end();
        }
        if self.at(Kind::False)? || self.at(Kind::True)? || self.at(Kind::Nil)?
            || self.at_literal()? {
            Ok(Expr::Literal(self.previous_literal()?))
        } else if self.at(Kind::This)? {
            Ok(Expr::This)
        } else if self.at_ident()? {
            Ok(Expr::var(self.previous_ident()?))
        } else if self.at(Kind::LeftParen)? {
            let expr = self.expression()?;
            self.consume(Kind::RightParen, "Expect ')' after expression")?;
            Ok(Expr::grouping(expr))
        } else {
            Err(Error::Parser(String::from_str("Unexpected expression")))
        }
    }

    /// The literal that the token read last stands for.
    fn previous_literal(&mut self) -> (r: Result<Literal, Error>)
        ensures
            *final(self) == *old(self),
            r is Err ==> r->Err_0 is Parser,
            old(self).consumed().len() > 0 ==> (match literal_of(
                lexeme(old(self).consumed().last()),
            ) {
                Some(m) => r is Ok && r->Ok_0.model() == m,
                None => r is Err,
            }),
    {
        match self.previous()?.kind {
            TokenType::String(s) => Ok(Literal::String(s)),
            TokenType::Number(n) => Ok(Literal::Number(n)),
            TokenType::True => Ok(Literal::Bool(true)),
            TokenType::False => Ok(Literal::Bool(false)),
            TokenType::Nil => Ok(Literal::Nil),
            _ => Err(Error::Parser(String::from_str("expected literal"))),
        }
    }

    /// The name that the token read last carries, if it is an identifier.
    fn previous_ident(&mut self) -> (r: Result<String, Error>)
        ensures
            *final(self) == *old(self),
            r is Err ==> r->Err_0 is Parser,
            old(self).consumed().len() > 0 && old(self).consumed().last().kind.kind()
                == Kind::Identifier ==> r is Ok && r->Ok_0@ == old(self).consumed().last().kind.text(),
    {
        match self.previous()?.kind {
            TokenType::Identifier(value) => Ok(value),
            _ => Err(Error::Parser(String::from_str("Expected Identifier"))),
        }
    }

    /// The token read last.
    fn previous(&mut self) -> (r: Result<Token, Error>)
        ensures
            *final(self) == *old(self),
            old(self).consumed().len() > 0 ==> r == Ok::<Token, Error>(
                old(self).consumed().last(),
            ),
            old(self).consumed().len() == 0 ==> r is Err && r->Err_0 is Parser,
    {
        let n = self.tokens.len();
        if n > 0 {
            Ok(self.tokens[n - 1].clone())
        } else {
            Err(Error::Parser(String::from_str("Attempt to get last token when none was found")))
        }
    }

    /// The kind of the token that is read next.
    fn peek(&self) -> (r: Option<Kind>)
        requires
            self.inv(),
        ensures
            r is Some == (self.stream().len() > 0),
            r is Some ==> r->Some_0 == self.stream()[0].kind,
    {
        proof {
            self.scanner.stream_starts_ahead();
        }
        match self.scanner.lookahead() {
            Some(t) => Some(t.kind.tag()),
            None => None,
        }
    }

    /// Reads the next token if it is a number or a string, and says whether
    /// it was.
    fn at_literal(&mut self) -> (r: Result<bool, Error>)
        requires
            old(self).inv(),
        ensures
            final(self).inv(),
            stays_closed(*old(self), *final(self), r),
            final(self).pending() <= old(self).pending(),
            r is Err ==> r->Err_0 is Scanner,
            r != Ok::<bool, Error>(false) ==> final(self).pending() < old(self).pending(),
            took(
                *old(self),
                *final(self),
                r,
                next_is(old(self).stream(), Kind::Number) || next_is(
                    old(self).stream(),
                    Kind::String,
                ),
            ),
    {
        if self.check(Kind::Number) || self.check(Kind::String) {
            self.advance()?;
            Ok(true)
        } else {
            Ok(false)
        }
    }

    /// Reads the next token if it is an identifier, and says whether it was.
    fn at_ident(&mut self) -> (r: Result<bool, Error>)
        requires
            old(self).inv(),
        ensures
            final(self).inv(),
            stays_closed(*old(self), *final(self), r),
            final(self).pending() <= old(self).pending(),
            r is Err ==> r->Err_0 is Scanner,
            r != Ok::<bool, Error>(false) ==> final(self).pending() < old(self).pending(),
            took(*old(self), *final(self), r, next_is(old(self).stream(), Kind::Identifier)),
    {
        if self.check(Kind::Identifier) {
            self.advance()?;
            Ok(true)
        } else {
            Ok(false)
        }
    }

    /// Reads the next token if it is of kind `kind`, and says whether it
    /// was.
    fn at(&mut self, kind: Kind) -> (r: Result<bool, Error>)
        requires
            old(self).inv(),
        ensures
            final(self).inv(),
            stays_closed(*old(self), *final(self), r),
            final(self).pending() <= old(self).pending(),
            r is Err ==> r->Err_0 is Scanner,
            r != Ok::<bool, Error>(false) ==> final(self).pending() < old(self).pending(),
            took(*old(self), *final(self), r, next_is(old(self).stream(), kind)),
    {
        if self.check(kind) {
            self.advance()?;
            Ok(true)
        } else {
            Ok(false)
        }
    }

    /// Reads an identifier and returns its name.
    fn expect_ident(&mut self) -> (r: Result<String, Error>)
        requires
            old(self).inv(),
        ensures
            final(self).inv(),
            stays_closed(*old(self), *final(self), r),
            final(self).pending() <= old(self).pending(),
            r is Ok ==> final(self).pending() < old(self).pending(),
            r is Err ==> r->Err_0 is Parser || r->Err_0 is Scanner,
            match ident(old(self).stream()) {
                Some((name, rest)) => r is Ok && r->Ok_0@ == name && final(self).stream() == rest,
                None => r is Err,
            },
    {
        proof {
            self.scanner.stream_starts_ahead();
        }
        let name = match self.scanner.lookahead() {
            Some(tok) => match &tok.kind {
                TokenType::Identifier(name) => name.clone(),
                _ => {
                    return Err(Error::Parser(String::from_str("Expected identifier")));
                },
            },
            None => {
                return Err(Error::Parser(String::from_str("Expected identifier")));
            },
        };
        self.advance()?;
        Ok(name)
    }

    /// Reads the next token, unless only `Eof` is left.
    fn advance(&mut self) -> (r: Result<(), Error>)
        requires
            old(self).inv(),
        ensures
            final(self).inv(),
            stays_closed(*old(self), *final(self), r),
            final(self).pending() <= old(self).pending(),
            !old(self).finished() ==> final(self).pending() < old(self).pending(),
            old(self).finished() ==> *final(self) == *old(self) && r is Ok,
            r is Err ==> r->Err_0 is Scanner && final(self).consumed() == old(self).consumed(),
            r is Ok && !old(self).finished() ==> final(self).consumed()
                == old(self).consumed().push(old(self).ahead()->Some_0),
            !at_end(old(self).stream()) ==> (match after(old(self).stream()) {
                Some(rest) => r is Ok && final(self).stream() == rest && lexeme(
                    final(self).consumed().last(),
                ) == old(self).stream()[0],
                None => r is Err,
            }),
    {
        proof {
            self.scanner.stream_starts_ahead();
        }
        if !self.is_at_end() {
            if let Some(res) = self.scanner.next() {
                match res {
                    Ok(tok) => {
                        self.tokens.push(tok);
                    },
                    Err(e) => {
                        return Err(e);
                    },
                }
            }
        }
        Ok(())
    }

    /// Whether the next token is of kind `kind`.
    fn check(&self, kind: Kind) -> (r: bool)
        requires
            self.inv(),
        ensures
            r == next_is(self.stream(), kind),
    {
        proof {
            self.scanner.stream_starts_ahead();
        }
        if self.is_at_end() {
            false
        } else {
            self.scanner.lookahead_is(kind)
        }
    }

    /// Whether no token but `Eof` is left.
    pub fn is_at_end(&self) -> (r: bool)
        ensures
            r == self.finished(),
    {
        self.scanner.done()
    }

    /// Reads the next token, which must be of kind `kind`; fails with `msg`
    /// where it is not.
    fn consume(&mut self, kind: Kind, msg: &str) -> (r: Result<(), Error>)
        requires
            old(self).inv(),
        ensures
            final(self).inv(),
            stays_closed(*old(self), *final(self), r),
            final(self).pending() <= old(self).pending(),
            r is Ok ==> final(self).pending() < old(self).pending(),
            r is Err ==> (r->Err_0 is Scanner || (r->Err_0 is Parser && r->Err_0->Parser_0@
                == msg@ && *final(self) == *old(self))),
            match expect(old(self).stream(), kind) {
                Some(rest) => r is Ok && final(self).stream() == rest,
                None => r is Err,
            },
    {
        if self.check(kind) {
            self.advance()?;
            Ok(())
        } else {
            Err(Error::Parser(String::from_str(msg)))
        }
    }

    /// After an error: reads on until a `;` has been read or a statement can
    /// start, so that the next statement can be parsed.
    pub fn sync(&mut self)
        requires
            old(self).inv(),
        ensures
            final(self).inv(),
            final(self).pending() <= old(self).pending(),
            !old(self).finished() ==> final(self).pending() < old(self).pending(),
            old(self).finished() ==> final(self).finished(),
            final(self).finished() || (final(self).consumed().len() > 0
                && final(self).consumed().last().kind.kind() == Kind::Semicolon)
                || starts_statement(final(self).ahead()->Some_0.kind.kind()),
            closed_by_eof(old(self).stream()) ==> closed_by_eof(final(self).stream())
                && final(self).stream() == synced(old(self).stream()),
    {
        proof {
            self.finished_is_at_end();
        }
        let _ = self.advance();
        proof {
            self.finished_is_at_end();
        }
        while !self.is_at_end()
            invariant
                closed_by_eof(old(self).stream()) ==> closed_by_eof(self.stream()),
                closed_by_eof(old(self).stream()) && old(self).finished() ==> synced(
                    old(self).stream(),
                ) == self.stream(),
                closed_by_eof(old(self).stream()) && !old(self).finished() ==> synced(
                    old(self).stream(),
                ) == resumed(self.stream(), lexeme(self.consumed().last()).kind),
                closed_by_eof(old(self).stream()) && !old(self).finished()
                    ==> self.consumed().len() > 0,
                old(self).finished() ==> self.finished(),
                self.finished() == at_end(self.stream()),
                self.inv(),
                self.pending() <= old(self).pending(),
                !old(self).finished() ==> self.pending() < old(self).pending(),
                old(self).finished() ==> self.finished(),
            ensures
                self.finished() || (self.consumed().len() > 0
                    && self.consumed().last().kind.kind() == Kind::Semicolon) || starts_statement(
                    self.ahead()->Some_0.kind.kind(),
                ),
            decreases self.pending(),
        {
            let n = self.tokens.len();
            if n > 0 && self.tokens[n - 1].kind.tag() == Kind::Semicolon {
                break ;
            }
            if self.scanner.lookahead_is(Kind::Class) || self.scanner.lookahead_is(Kind::Fun)
                || self.scanner.lookahead_is(Kind::Var) || self.scanner.lookahead_is(Kind::For)
                || self.scanner.lookahead_is(Kind::If) || self.scanner.lookahead_is(Kind::While)
                || self.scanner.lookahead_is(Kind::Print) || self.scanner.lookahead_is(
                Kind::Return,
            ) {
                break ;
            }
            proof {
                self.scanner.stream_starts_ahead();
            }
            let _ = self.advance();
            proof {
                self.finished_is_at_end();
            }
        }
        proof {
            self.scanner.stream_starts_ahead();
            self.finished_is_at_end();
        }
    }

    /// The next declaration or statement, or `None` where the source holds
    /// no more.
    pub fn next(&mut self) -> (r: Option<Result<Stmt, Error>>)
        requires
            old(self).inv(),
        ensures
            final(self).inv(),
            final(self).pending() <= old(self).pending(),
            r is None == at_end(old(self).stream()),
            r is None == old(self).finished(),
            r is None ==> final(self).stream() == old(self).stream(),
            r is Some && r->Some_0 is Ok ==> final(self).pending() < old(self).pending(),
            r is Some ==> stmt_parsed(
                *old(self),
                *final(self),
                r->Some_0,
                crate::treewalk::grammar::decl(old(self).stream()),
            ),
    {
        proof {
            self.finished_is_at_end();
        }
        if self.is_at_end() {
            None
        } else {
            Some(self.decl())
        }
    }
}

/// A token as the grammar sees it.
pub open spec fn lexeme(t: Token) -> Lexeme {
    Lexeme { kind: t.kind.kind(), text: t.kind.text() }
}

/// How reading a token if it is the one looked for relates the parser
/// before, the parser after and what is returned: where it is the one and
/// can be read, it has been read; where it is the one and there is none to
/// read behind it, reading fails; where it is not the one, nothing is read.
pub open spec fn took(before: Parser, after: Parser, r: Result<bool, Error>, wanted: bool) -> bool {
    if wanted {
        match crate::treewalk::grammar::after(before.stream()) {
            Some(rest) => r == Ok::<bool, Error>(true) && after.stream() == rest
                && after.consumed().len() > 0 && lexeme(after.consumed().last())
                == before.stream()[0],
            None => r is Err && r->Err_0 is Scanner,
        }
    } else {
        r == Ok::<bool, Error>(false) && after == before
    }
}

} // verus!
