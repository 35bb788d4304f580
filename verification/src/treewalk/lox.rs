//! The driver of the tree-walking path: source text in, printed lines and
//! diagnostics out, and the bookkeeping of an interactive session.

use vstd::prelude::*;
use crate::number::Arithmetic;
use crate::text::chars_of;
use crate::text::decimal;
use crate::text::decimal_text;
use crate::bytecode::scanner::token_stream;
use crate::treewalk::error::Error;
use crate::treewalk::grammar::{at_end, decl, Tokens};
use crate::treewalk::interpreter::Interpreter;
use crate::treewalk::parser::Parser;
use crate::treewalk::resolver::{after_list, lawful_list, stmt_ok, FuncType, Resolver};
use crate::treewalk::scanner::{lexemes, Scanner};
use crate::treewalk::semantics::interpreted;
use crate::treewalk::stmt::{Stmt, StmtModel};

verus! {

/// The exit code for wrong arguments or a file that cannot be read.
pub const EXIT_USAGE: u8 = 64;

/// The exit code for a program that does not scan, parse or resolve.
pub const EXIT_SYNTAX: u8 = 65;

/// The exit code for a program that fails while it runs.
pub const EXIT_RUNTIME: u8 = 70;

/// Runs programs and keeps the diagnostics of those that do not parse.
pub struct Lox {
    had_error: bool,
    reports: Vec<String>,
}

/// The line that reports the error `msg` on line `line`.
pub open spec fn report_text(line: usize, file: Seq<char>, msg: Seq<char>) -> Seq<char> {
    "[line "@ + decimal(line as nat) + "] Error "@ + file + ": "@ + msg
}

/// The statements at the head of the tokens `s`, up to the end or to the
/// first that does not parse.
pub open spec fn leading(s: Tokens) -> Seq<StmtModel>
    decreases s.len(),
{
    if at_end(s) {
        Seq::empty()
    } else {
        match decl(s) {
            Some((m, rest)) => if rest.len() < s.len() {
                seq![m] + leading(rest)
            } else {
                Seq::empty()
            },
            None => Seq::empty(),
        }
    }
}

/// Whether every statement of the tokens `s` parses.
pub open spec fn parses(s: Tokens) -> bool
    decreases s.len(),
{
    if at_end(s) {
        true
    } else {
        match decl(s) {
            Some((m, rest)) => rest.len() < s.len() && parses(rest),
            None => false,
        }
    }
}

/// Whether `parsed` are the statements `models` as the parser returns
/// them, with no variable resolved.
pub open spec fn parsed_as(parsed: Seq<Stmt>, models: Seq<StmtModel>) -> bool {
    &&& parsed.len() == models.len()
    &&& forall|i: int|
        0 <= i < parsed.len() ==> (#[trigger] parsed[i]).model() == models[i] && parsed[i].unresolved()
}

/// Whether `resolved` are the statements `parsed` with their variables
/// resolved at the top level.
pub open spec fn resolved_from(parsed: Seq<Stmt>, resolved: Seq<Stmt>) -> bool {
    &&& resolved.len() == parsed.len()
    &&& forall|i: int|
        0 <= i < resolved.len() ==> (#[trigger] resolved[i]).model() == parsed[i].model() && stmt_ok(
            resolved[i],
            after_list(resolved.take(i), Seq::empty()),
            FuncType::Script,
        )
}

/// Whether `states` are the states of the interpreter before, between and
/// after the first statements of `stmts`, each of which runs without error
/// from the state before it to the state after it.
pub open spec fn chained<A: Arithmetic>(numbers: &A, stmts: Seq<Stmt>, states: Seq<Interpreter>) -> bool {
    &&& 1 <= states.len() <= stmts.len() + 1
    &&& forall|i: int|
        0 <= i < states.len() - 1 ==> interpreted(
            numbers,
            #[trigger] stmts[i],
            states[i],
            states[i + 1],
            Ok(()),
        )
}

/// How a run that has got through the states `states` ends in `t` with
/// `r`: behind the last statement it is done; before that, the statement
/// that comes next has failed.
pub open spec fn ended_at<A: Arithmetic>(
    numbers: &A,
    stmts: Seq<Stmt>,
    states: Seq<Interpreter>,
    t: Interpreter,
    r: Result<(), Error>,
) -> bool {
    let k = states.len() - 1;
    if k == stmts.len() {
        r is Ok && t == states.last()
    } else {
        r is Err && interpreted(numbers, stmts[k], states[k], t, r)
    }
}

/// What running the statements `stmts` comes to, from the state `s` to the
/// state `t`: they run one after another, up to the end or to the first
/// that fails.
pub open spec fn ran_in_turn<A: Arithmetic>(
    numbers: &A,
    stmts: Seq<Stmt>,
    s: Interpreter,
    t: Interpreter,
    r: Result<(), Error>,
) -> bool {
    exists|states: Seq<Interpreter>|
        #![trigger chained(numbers, stmts, states)]
        chained(numbers, stmts, states) && states[0] == s && ended_at(numbers, stmts, states, t, r)
}

/// What resolving and running the statements `parsed` comes to, from the
/// state `s` to the state `t`: where they break a rule of scoping, nothing
/// runs; else they run one after another, up to the end or to the first
/// that fails.
pub open spec fn batch_ran<A: Arithmetic>(
    numbers: &A,
    parsed: Seq<Stmt>,
    s: Interpreter,
    t: Interpreter,
    r: Result<(), Error>,
) -> bool {
    if !lawful_list(parsed, Seq::empty(), FuncType::Script) {
        t == s && r is Err && r->Err_0 is Resolution
    } else {
        exists|resolved: Seq<Stmt>|
            #![trigger resolved_from(parsed, resolved)]
            resolved_from(parsed, resolved) && ran_in_turn(numbers, resolved, s, t, r)
    }
}

/// What running the program of the tokens `tokens` comes to, from the
/// driver `before` and the interpreter state `s` to the driver `after`
/// and the state `t`. Where a statement does not parse, errors are put on
/// record and nothing runs. Else nothing is put on record, and the
/// statements are resolved and run as `batch_ran` says.
pub open spec fn script_ran<A: Arithmetic>(
    numbers: &A,
    tokens: Tokens,
    before: Lox,
    s: Interpreter,
    after: Lox,
    t: Interpreter,
    r: Result<(), Error>,
) -> bool {
    if !parses(tokens) {
        t == s && r is Ok && after.failed() && after.reported().len() > before.reported().len()
    } else {
        &&& after.failed() == before.failed()
        &&& after.reported() == before.reported()
        &&& exists|parsed: Seq<Stmt>|
            #![trigger batch_ran(numbers, parsed, s, t, r)]
            parsed_as(parsed, leading(tokens)) && batch_ran(numbers, parsed, s, t, r)
    }
}

impl Lox {
    /// Whether a statement has failed to parse since the last reset.
    pub closed spec fn failed(&self) -> bool {
        self.had_error
    }

    /// The diagnostics put on record so far.
    pub closed spec fn reported(&self) -> Seq<Seq<char>> {
        Seq::new(self.reports@.len(), |i: int| self.reports@[i]@)
    }

    pub fn new() -> (r: Lox)
        ensures
            !r.failed(),
            r.reported().len() == 0,
    {
        let r = Lox { had_error: false, reports: Vec::new() };
        assert(r.reported() =~= Seq::empty());
        r
    }

    pub fn had_error(&self) -> (r: bool)
        ensures
            r == self.failed(),
    {
        self.had_error
    }

    /// Forgets that a statement has failed; the diagnostics stay.
    pub fn reset(&mut self)
        ensures
            !final(self).failed(),
            final(self).reported() == old(self).reported(),
    {
        self.had_error = false;
    }

    /// The diagnostics put on record so far; none of them is kept.
    pub fn take_reports(&mut self) -> (r: Vec<String>)
        ensures
            r@.len() == old(self).reported().len(),
            forall|i: int| 0 <= i < r@.len() ==> #[trigger] r@[i]@ == old(self).reported()[i],
            final(self).reported().len() == 0,
            final(self).failed() == old(self).failed(),
    {
        let mut out: Vec<String> = Vec::new();
        std::mem::swap(&mut self.reports, &mut out);
        assert(self.reported() =~= Seq::empty());
        out
    }

    /// The exit code of a program that ended with `result`: 0 where it ran
    /// and every statement parsed.
    pub fn exit_code(&self, result: &Result<(), Error>) -> (r: u8)
        ensures
            r == (match *result {
                Ok(_) => if self.failed() {
                    EXIT_SYNTAX
                } else {
                    0u8
                },
                Err(Error::Runtime(_)) => EXIT_RUNTIME,
                Err(Error::Return(_)) => EXIT_RUNTIME,
                Err(_) => EXIT_SYNTAX,
            }),
    {
        match result {
            Ok(_) => if self.had_error {
                EXIT_SYNTAX
            } else {
                0
            },
            Err(Error::Runtime(_)) => EXIT_RUNTIME,
            Err(Error::Return(_)) => EXIT_RUNTIME,
            Err(_) => EXIT_SYNTAX,
        }
    }

    /// Runs the program `s`. All of it is parsed first: a statement that
    /// does not parse is put on record, and reading goes on behind it. Where
    /// one did not parse, nothing runs. Else the statements are resolved,
    /// and where they abide by the rules of scoping they run one after
    /// another; the first that fails ends the program.
    #[verifier::rlimit(50)]
    pub fn run<A: Arithmetic>(&mut self, s: String, interp: &mut Interpreter, numbers: &A) -> (r:
        Result<(), Error>)
        requires
            old(interp).inv(),
        ensures
            final(interp).inv(),
            final(interp).follows(*old(interp)),
            old(self).failed() ==> final(self).failed(),
            old(self).reported().len() <= final(self).reported().len(),
            r is Err && token_stream(s@, 0).len() > 0 ==> r->Err_0 is Resolution || r->Err_0
                is Runtime,
            token_stream(s@, 0).len() == 0 ==> {
                &&& r is Err && r->Err_0 is Scanner
                &&& *final(interp) == *old(interp)
                &&& final(self).reported() == old(self).reported()
                &&& final(self).failed() == old(self).failed()
            },
            token_stream(s@, 0).len() > 0 ==> script_ran(
                numbers,
                lexemes(token_stream(s@, 0)),
                *old(self),
                *old(interp),
                *final(self),
                *final(interp),
                r,
            ),
    {
        let ghost tokens = lexemes(token_stream(s@, 0));
        let ghost models = leading(tokens);
        let scanner = match Scanner::new(s) {
            Ok(scanner) => scanner,
            Err(e) => {
                return Err(e);
            },
        };
        let mut parser = Parser::new(scanner);
        let mut stmts: Vec<Stmt> = Vec::new();
        let mut broken = false;
        proof {
            assert(models.skip(0) =~= models);
        }
        loop
            invariant
                token_stream(s@, 0).len() > 0,
                tokens == lexemes(token_stream(s@, 0)),
                models == leading(tokens),
                parser.inv(),
                interp.inv(),
                *interp == *old(interp),
                old(self).failed() ==> self.failed(),
                old(self).reported().len() <= self.reported().len(),
                !broken ==> {
                    &&& stmts@.len() <= models.len()
                    &&& parsed_as(stmts@, models.take(stmts@.len() as int))
                    &&& leading(parser.stream()) == models.skip(stmts@.len() as int)
                    &&& parses(parser.stream()) == parses(tokens)
                    &&& self.reported() == old(self).reported()
                    &&& self.failed() == old(self).failed()
                },
                broken ==> {
                    &&& !parses(tokens)
                    &&& self.failed()
                    &&& self.reported().len() > old(self).reported().len()
                },
            decreases parser.pending(),
        {
            let ghost ahead = parser.stream();
            match parser.next() {
                None => {
                    if broken {
                        return Ok(());
                    }
                    proof {
                        assert(models.take(stmts@.len() as int) =~= models);
                    }
                    return Lox::resolve_and_run(stmts, interp, numbers);
                },
                Some(Ok(stmt)) => {
                    proof {
                        if !broken {
                            let m = stmt.model();
                            let k = stmts@.len() as int;
                            let rest = leading(parser.stream());
                            assert(leading(ahead) == seq![m] + rest);
                            assert(models.skip(k).len() == 1 + rest.len());
                            assert(models.skip(k)[0] == m);
                            assert forall|j: int| 0 <= j < rest.len() implies models.skip(k + 1)[j]
                                == rest[j] by {
                                assert(models.skip(k)[j + 1] == rest[j]);
                            }
                            assert(models.skip(k + 1) =~= rest);
                        }
                    }
                    let ghost before = stmts@;
                    stmts.push(stmt);
                    proof {
                        if !broken {
                            let k = before.len() as int;
                            assert forall|i: int| 0 <= i < stmts@.len() implies (
                            #[trigger] stmts@[i]).model() == models.take(k + 1)[i]
                                && stmts@[i].unresolved() by {
                                if i < k {
                                    assert(stmts@[i] == before[i]);
                                    assert(models.take(k)[i] == models[i]);
                                }
                            }
                        }
                    }
                },
                Some(Err(e)) => {
                    proof {
                        if !broken {
                            assert(leading(ahead).len() == 0);
                        }
                    }
                    broken = true;
                    self.error(parser.line(), e);
                    parser.sync();
                    if parser.is_at_end() {
                        return Ok(());
                    }
                },
            }
        }
    }

    /// Resolves the statements `stmts` at the top level and runs them one
    /// after another. Where they break a rule of scoping, nothing runs; the
    /// first statement that fails ends the run.
    pub fn resolve_and_run<A: Arithmetic>(stmts: Vec<Stmt>, interp: &mut Interpreter, numbers: &A) -> (r:
        Result<(), Error>)
        requires
            old(interp).inv(),
        ensures
            final(interp).inv(),
            final(interp).follows(*old(interp)),
            r is Err ==> r->Err_0 is Resolution || r->Err_0 is Runtime,
            batch_ran(numbers, stmts@, *old(interp), *final(interp), r),
    {
        let ghost parsed = stmts@;
        let mut stmts = stmts;
        let mut resolver = Resolver::new();
        match resolver.resolve_stmt_list(&mut stmts) {
            Ok(_) => {},
            Err(e) => {
                return Err(e);
            },
        }
        assert(resolved_from(parsed, stmts@));
        Lox::run_in_turn(&stmts, interp, numbers)
    }

    /// Runs the statements `stmts` one after another; the first that fails
    /// ends the run.
    #[verifier::rlimit(50)]
    pub fn run_in_turn<A: Arithmetic>(stmts: &Vec<Stmt>, interp: &mut Interpreter, numbers: &A) -> (r:
        Result<(), Error>)
        requires
            old(interp).inv(),
        ensures
            final(interp).inv(),
            final(interp).follows(*old(interp)),
            r is Err ==> r->Err_0 is Runtime,
            ran_in_turn(numbers, stmts@, *old(interp), *final(interp), r),
    {
        let ghost mut states: Seq<Interpreter> = seq![*interp];
        let mut i: usize = 0;
        while i < stmts.len()
            invariant
                i <= stmts@.len(),
                interp.inv(),
                interp.follows(*old(interp)),
                states.len() == i + 1,
                states[0] == *old(interp),
                states.last() == *interp,
                chained(numbers, stmts@, states),
            decreases stmts@.len() - i,
        {
            let ghost entry = *interp;
            match interp.interpret(&stmts[i], numbers) {
                Ok(_) => {
                    proof {
                        let reached = states;
                        assert(reached[i as int] == entry);
                        states = states.push(*interp);
                        assert forall|j: int| 0 <= j < states.len() - 1 implies interpreted(
                            numbers,
                            #[trigger] stmts@[j],
                            states[j],
                            states[j + 1],
                            Ok(()),
                        ) by {
                            if j < reached.len() - 1 {
                                assert(states[j] == reached[j]);
                                assert(states[j + 1] == reached[j + 1]);
                            }
                        }
                    }
                },
                Err(e) => {
                    proof {
                        assert(states[i as int] == entry);
                        assert(ended_at(numbers, stmts@, states, *interp, Err(e)));
                        assert(chained(numbers, stmts@, states));
                    }
                    return Err(e);
                },
            }
            i += 1;
        }
        proof {
            assert(ended_at(numbers, stmts@, states, *interp, Ok(())));
            assert(chained(numbers, stmts@, states));
        }
        Ok(())
    }

    /// Puts the error `e`, found on line `line`, on record.
    pub fn error(&mut self, line: usize, e: Error)
        ensures
            final(self).failed(),
            final(self).reported() == old(self).reported().push(
                report_text(line, Seq::empty(), e.text()),
            ),
    {
        let text = e.to_string();
        self.report(line, "", text.as_str());
        proof {
            reveal_strlit("");
            assert(""@ =~= Seq::<char>::empty());
        }
    }

    fn report(&mut self, line: usize, file: &str, msg: &str)
        ensures
            final(self).failed(),
            final(self).reported() == old(self).reported().push(report_text(line, file@, msg@)),
    {
        let text = String::from_str("[line ").concat(decimal_text(line).as_str()).concat(
            "] Error ",
        ).concat(file).concat(": ").concat(msg);
        self.reports.push(text);
        self.had_error = true;
        assert(self.reported() =~= old(self).reported().push(report_text(line, file@, msg@)));
    }
}

impl Default for Lox {
    fn default() -> (r: Lox)
        ensures
            !r.failed(),
            r.reported().len() == 0,
    {
        Lox::new()
    }
}

/// What an interactive session has read of the statement that is being
/// typed, and how deep in braces its last line ends.
pub struct Prompt {
    indent: usize,
    buffer: String,
}

/// `line` with a closing `\r\n` written as `\n`.
pub open spec fn normalized(line: Seq<char>) -> Seq<char> {
    if line.len() >= 2 && line[line.len() - 2] == '\r' && line[line.len() - 1] == '\n' {
        line.subrange(0, line.len() - 2).push('\n')
    } else {
        line
    }
}

/// `line` without the line feed that closes it.
pub open spec fn content(line: Seq<char>) -> Seq<char> {
    if line.len() >= 1 && line.last() == '\n' {
        line.drop_last()
    } else {
        line
    }
}

/// Whether `line` holds nothing but blanks.
pub open spec fn blank(line: Seq<char>) -> bool {
    forall|i: int|
        0 <= i < line.len() ==> (#[trigger] line[i]) == ' ' || line[i] == '\t' || line[i] == '\r'
            || line[i] == '\n'
}

/// The depth in braces after a normalized line: one more after a line that
/// ends with `{`, one less, but never below zero, after one that ends with
/// `}`.
pub open spec fn indent_after(indent: usize, line: Seq<char>) -> usize {
    let text = content(line);
    if text.len() >= 1 && text.last() == '{' {
        if indent < usize::MAX {
            (indent + 1) as usize
        } else {
            indent
        }
    } else if text.len() >= 1 && text.last() == '}' {
        if indent > 0 {
            (indent - 1) as usize
        } else {
            0
        }
    } else {
        indent
    }
}

/// Whether a normalized line closes the statement that is being typed: it
/// leaves the depth at zero and ends with `;` or is blank.
pub open spec fn closes(indent: usize, line: Seq<char>) -> bool {
    let text = content(line);
    indent_after(indent, line) == 0 && ((text.len() >= 1 && text.last() == ';') || blank(line))
}

impl Prompt {
    pub closed spec fn depth(&self) -> usize {
        self.indent
    }

    /// What has been read of the statement that is being typed.
    pub closed spec fn pending(&self) -> Seq<char> {
        self.buffer@
    }

    pub fn new() -> (r: Prompt)
        ensures
            r.depth() == 0,
            r.pending() == Seq::<char>::empty(),
    {
        Prompt { indent: 0, buffer: String::new() }
    }

    /// The depth in braces.
    pub fn indent(&self) -> (r: usize)
        ensures
            r == self.depth(),
    {
        self.indent
    }

    /// What to write in front of the next line: `> ` at depth zero, else
    /// two blanks for each level.
    pub fn prompt(&self) -> (r: String)
        ensures
            r@ == prompt_text(self.depth() as nat),
    {
        if self.indent == 0 {
            String::from_str("> ")
        } else {
            let mut out = String::new();
            let mut k: usize = 0;
            while k < self.indent
                invariant
                    k <= self.indent,
                    out@ == blanks(k as nat),
                decreases self.indent - k,
            {
                out.append("  ");
                proof {
                    reveal_strlit("  ");
                    assert(out@ =~= blanks((k + 1) as nat));
                }
                k += 1;
            }
            out
        }
    }

    /// Takes one line as it was read. Returns the statement that the line
    /// closes, if it closes one; else keeps the line for later.
    #[verifier::rlimit(50)]
    pub fn feed(&mut self, line: &str) -> (r: Option<String>)
        ensures
            final(self).depth() == indent_after(old(self).depth(), normalized(line@)),
            closes(old(self).depth(), normalized(line@)) ==> r is Some && r->Some_0@ == old(self).pending() + normalized(line@) && final(self).pending() == Seq::<char>::empty(),
            !closes(old(self).depth(), normalized(line@)) ==> r is None && final(self).pending()
                == old(self).pending() + normalized(line@),
    {
        let chars = chars_of(line);
        let n = chars.len();
        let mut end = n;
        let crlf = n >= 2 && chars[n - 2] == '\r' && chars[n - 1] == '\n';
        if crlf {
            end = n - 2;
        }
        let mut i: usize = 0;
        let ghost start = self.buffer@;
        while i < end
            invariant
                i <= end <= chars@.len(),
                self.buffer@ == start + chars@.subrange(0, i as int),
                self.indent == old(self).indent,
            decreases end - i,
        {
            self.buffer.push(chars[i]);
            assert(self.buffer@ =~= start + chars@.subrange(0, i + 1));
            i += 1;
        }
        if crlf {
            self.buffer.push('\n');
        }
        let ghost norm = normalized(line@);
        assert(self.buffer@ =~= start + norm);
        // The last character of the line, without the line feed.
        let has_feed = crlf || (n >= 1 && chars[n - 1] == '\n');
        let text_len = if crlf {
            n - 2
        } else if has_feed {
            n - 1
        } else {
            n
        };
        assert(content(norm) =~= chars@.subrange(0, text_len as int));
        let last = if text_len >= 1 {
            Some(chars[text_len - 1])
        } else {
            None
        };
        if last == Some('{') {
            if self.indent < usize::MAX {
                self.indent += 1;
            }
        } else if last == Some('}') {
            if self.indent > 0 {
                self.indent -= 1;
            }
        }
        let mut all_blank = true;
        let mut k: usize = 0;
        while k < text_len
            invariant
                k <= text_len <= chars@.len(),
                all_blank == blank(chars@.subrange(0, k as int)),
            decreases text_len - k,
        {
            let c = chars[k];
            let ghost part = chars@.subrange(0, k as int);
            let ghost next = chars@.subrange(0, k + 1);
            assert(forall|j: int| 0 <= j < k ==> next[j] == part[j]);
            assert(next[k as int] == c);
            if !(c == ' ' || c == '\t' || c == '\r' || c == '\n') {
                all_blank = false;
            }
            assert(all_blank == blank(next)) by {
                if blank(next) {
                    assert forall|j: int| 0 <= j < part.len() implies (#[trigger] part[j]) == ' '
                        || part[j] == '\t' || part[j] == '\r' || part[j] == '\n' by {
                        assert(next[j] == part[j]);
                    }
                }
            }
            k += 1;
        }
        assert(blank(norm) == blank(chars@.subrange(0, text_len as int))) by {
            let text = chars@.subrange(0, text_len as int);
            if blank(norm) {
                assert forall|j: int| 0 <= j < text.len() implies (#[trigger] text[j]) == ' '
                    || text[j] == '\t' || text[j] == '\r' || text[j] == '\n' by {
                    assert(norm[j] == text[j]);
                }
            }
            if blank(text) {
                assert forall|j: int| 0 <= j < norm.len() implies (#[trigger] norm[j]) == ' '
                    || norm[j] == '\t' || norm[j] == '\r' || norm[j] == '\n' by {
                    if j < text.len() {
                        assert(norm[j] == text[j]);
                    }
                }
            }
        }
        if self.indent == 0 && (last == Some(';') || all_blank) {
            let mut out = String::new();
            std::mem::swap(&mut self.buffer, &mut out);
            Some(out)
        } else {
            None
        }
    }
}

/// `count` times two blanks.
pub open spec fn blanks(count: nat) -> Seq<char>
    decreases count,
{
    if count == 0 {
        Seq::empty()
    } else {
        blanks((count - 1) as nat) + seq![' ', ' ']
    }
}

/// What is written in front of a line at depth `indent`.
pub open spec fn prompt_text(indent: nat) -> Seq<char> {
    if indent == 0 {
        "> "@
    } else {
        blanks(indent)
    }
}

} // verus!
