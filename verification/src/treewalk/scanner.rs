//! The scanner of the tree-walking path: the tokens of a source text, with
//! one token of lookahead.

use vstd::prelude::*;
use crate::bytecode::compiler::unquoted;
use crate::bytecode::scanner::Lexed;
use crate::bytecode::scanner::Tok;
use crate::bytecode::scanner::lex;
use crate::bytecode::scanner::line_at;
use crate::bytecode::scanner::skip;
use crate::bytecode::scanner::token_stream;
use crate::treewalk::error::Error;
use crate::treewalk::grammar::Lexeme;
use crate::treewalk::grammar::Tokens;
use crate::treewalk::grammar::at_end;
use crate::treewalk::token::Kind;
use crate::treewalk::token::Token;
use crate::treewalk::token::TokenType;

verus! {

/// The kind, on this path, of a token that the shared scanner read.
pub open spec fn lifted_kind(kind: crate::bytecode::scanner::TokenType) -> Kind {
    match kind {
        crate::bytecode::scanner::TokenType::LeftParen => Kind::LeftParen,
        crate::bytecode::scanner::TokenType::RightParen => Kind::RightParen,
        crate::bytecode::scanner::TokenType::LeftBrace => Kind::LeftBrace,
        crate::bytecode::scanner::TokenType::RightBrace => Kind::RightBrace,
        crate::bytecode::scanner::TokenType::Comma => Kind::Comma,
        crate::bytecode::scanner::TokenType::Period => Kind::Dot,
        crate::bytecode::scanner::TokenType::Minus => Kind::Minus,
        crate::bytecode::scanner::TokenType::Plus => Kind::Plus,
        crate::bytecode::scanner::TokenType::Semi => Kind::Semicolon,
        crate::bytecode::scanner::TokenType::Slash => Kind::Slash,
        crate::bytecode::scanner::TokenType::Star => Kind::Star,
        crate::bytecode::scanner::TokenType::Bang => Kind::Bang,
        crate::bytecode::scanner::TokenType::BangEq => Kind::BangEqual,
        crate::bytecode::scanner::TokenType::Eq => Kind::Equal,
        crate::bytecode::scanner::TokenType::EqEq => Kind::EqualEqual,
        crate::bytecode::scanner::TokenType::Greater => Kind::Greater,
        crate::bytecode::scanner::TokenType::GreaterEq => Kind::GreaterEqual,
        crate::bytecode::scanner::TokenType::Less => Kind::Less,
        crate::bytecode::scanner::TokenType::LessEq => Kind::LessEqual,
        crate::bytecode::scanner::TokenType::Ident => Kind::Identifier,
        crate::bytecode::scanner::TokenType::String => Kind::String,
        crate::bytecode::scanner::TokenType::Number => Kind::Number,
        crate::bytecode::scanner::TokenType::And => Kind::And,
        crate::bytecode::scanner::TokenType::Class => Kind::Class,
        crate::bytecode::scanner::TokenType::Else => Kind::Else,
        crate::bytecode::scanner::TokenType::False => Kind::False,
        crate::bytecode::scanner::TokenType::For => Kind::For,
        crate::bytecode::scanner::TokenType::Fun => Kind::Fun,
        crate::bytecode::scanner::TokenType::If => Kind::If,
        crate::bytecode::scanner::TokenType::Nil => Kind::Nil,
        crate::bytecode::scanner::TokenType::Or => Kind::Or,
        crate::bytecode::scanner::TokenType::Print => Kind::Print,
        crate::bytecode::scanner::TokenType::Return => Kind::Return,
        crate::bytecode::scanner::TokenType::Super => Kind::Super,
        crate::bytecode::scanner::TokenType::This => Kind::This,
        crate::bytecode::scanner::TokenType::True => Kind::True,
        crate::bytecode::scanner::TokenType::Var => Kind::Var,
        crate::bytecode::scanner::TokenType::While => Kind::While,
        crate::bytecode::scanner::TokenType::Eof => Kind::Eof,
    }
}

/// The text that a token of kind `kind` carries if it was read from `text`:
/// an identifier and a number all of it, a string what stands between the
/// quotes, any other token nothing.
pub open spec fn lifted_text(kind: crate::bytecode::scanner::TokenType, text: Seq<char>) -> Seq<
    char,
> {
    match kind {
        crate::bytecode::scanner::TokenType::Ident => text,
        crate::bytecode::scanner::TokenType::Number => text,
        crate::bytecode::scanner::TokenType::String => unquoted(text),
        _ => Seq::empty(),
    }
}

/// A token that the shared scanner read, as the grammar sees it.
pub open spec fn lexeme_of(t: Tok) -> Lexeme {
    Lexeme { kind: lifted_kind(t.kind), text: lifted_text(t.kind, t.text) }
}

/// Tokens that the shared scanner reads, as the grammar sees them.
pub open spec fn lexemes(ts: Seq<Tok>) -> Tokens {
    Seq::new(ts.len(), |i: int| lexeme_of(ts[i]))
}

/// The token of this path for a token that the shared scanner read and that
/// ends before `end`.
fn lift(tok: crate::bytecode::scanner::Token, end: usize) -> (r: Token)
    ensures
        r.kind.kind() == lifted_kind(tok.kind),
        r.kind.text() == lifted_text(tok.kind, tok.slice@),
        r.lexeme@ == tok.slice@,
        r.line == tok.line,
        r.span.1 == end,
        r.span.0 == (if tok.slice@.len() <= end {
            (end - tok.slice@.len()) as usize
        } else {
            0usize
        }),
{
    let n = tok.slice.as_str().unicode_len();
    let start = if n <= end {
        end - n
    } else {
        0
    };
    let kind = match tok.kind {
        crate::bytecode::scanner::TokenType::LeftParen => TokenType::LeftParen,
        crate::bytecode::scanner::TokenType::RightParen => TokenType::RightParen,
        crate::bytecode::scanner::TokenType::LeftBrace => TokenType::LeftBrace,
        crate::bytecode::scanner::TokenType::RightBrace => TokenType::RightBrace,
        crate::bytecode::scanner::TokenType::Comma => TokenType::Comma,
        crate::bytecode::scanner::TokenType::Period => TokenType::Dot,
        crate::bytecode::scanner::TokenType::Minus => TokenType::Minus,
        crate::bytecode::scanner::TokenType::Plus => TokenType::Plus,
        crate::bytecode::scanner::TokenType::Semi => TokenType::Semicolon,
        crate::bytecode::scanner::TokenType::Slash => TokenType::Slash,
        crate::bytecode::scanner::TokenType::Star => TokenType::Star,
        crate::bytecode::scanner::TokenType::Bang => TokenType::Bang,
        crate::bytecode::scanner::TokenType::BangEq => TokenType::BangEqual,
        crate::bytecode::scanner::TokenType::Eq => TokenType::Equal,
        crate::bytecode::scanner::TokenType::EqEq => TokenType::EqualEqual,
        crate::bytecode::scanner::TokenType::Greater => TokenType::Greater,
        crate::bytecode::scanner::TokenType::GreaterEq => TokenType::GreaterEqual,
        crate::bytecode::scanner::TokenType::Less => TokenType::Less,
        crate::bytecode::scanner::TokenType::LessEq => TokenType::LessEqual,
        crate::bytecode::scanner::TokenType::Ident => TokenType::Identifier(tok.slice.clone()),
        crate::bytecode::scanner::TokenType::String => {
            if n >= 2 {
                TokenType::String(
                    String::from_str(tok.slice.as_str().substring_char(1, n - 1)),
                )
            } else {
                TokenType::String(String::new())
            }
        },
        crate::bytecode::scanner::TokenType::Number => TokenType::Number(tok.slice.clone()),
        crate::bytecode::scanner::TokenType::And => TokenType::And,
        crate::bytecode::scanner::TokenType::Class => TokenType::Class,
        crate::bytecode::scanner::TokenType::Else => TokenType::Else,
        crate::bytecode::scanner::TokenType::False => TokenType::False,
        crate::bytecode::scanner::TokenType::For => TokenType::For,
        crate::bytecode::scanner::TokenType::Fun => TokenType::Fun,
        crate::bytecode::scanner::TokenType::If => TokenType::If,
        crate::bytecode::scanner::TokenType::Nil => TokenType::Nil,
        crate::bytecode::scanner::TokenType::Or => TokenType::Or,
        crate::bytecode::scanner::TokenType::Print => TokenType::Print,
        crate::bytecode::scanner::TokenType::Return => TokenType::Return,
        crate::bytecode::scanner::TokenType::Super => TokenType::Super,
        crate::bytecode::scanner::TokenType::This => TokenType::This,
        crate::bytecode::scanner::TokenType::True => TokenType::True,
        crate::bytecode::scanner::TokenType::Var => TokenType::Var,
        crate::bytecode::scanner::TokenType::While => TokenType::While,
        crate::bytecode::scanner::TokenType::Eof => TokenType::Eof,
    };
    Token::new(kind, tok.slice, tok.line, start, end)
}

/// The tokens of a source text, with the next one held ready.
pub struct Scanner {
    inner: crate::bytecode::scanner::Scanner,
    lookahead: Option<Token>,
    pub line: usize,
}

/// How reading one token on relates the source, the position before, the
/// position after and the token that is then held ready: the token is the
/// one that the shared scanner reads at that position. Where it reads none,
/// the token held ready stays.
pub open spec fn refilled(
    src: Seq<char>,
    from: int,
    to: int,
    before: Option<Token>,
    after: Option<Token>,
    failed: bool,
) -> bool {
    let start = skip(src, from, false);
    match lex(src, start) {
        Lexed::Token { kind, end } => {
            &&& !failed
            &&& to == end
            &&& after is Some
            &&& after->Some_0.kind.kind() == lifted_kind(kind)
            &&& after->Some_0.kind.text() == lifted_text(kind, src.subrange(start, end))
            &&& after->Some_0.lexeme@ == src.subrange(start, end)
            &&& after->Some_0.line == line_at(src, end)
            &&& after->Some_0.span == (start as usize, end as usize)
        },
        Lexed::Fail { end } => failed && to == end && after == before,
    }
}

impl Scanner {
    pub closed spec fn source(&self) -> Seq<char> {
        self.inner.source()
    }

    pub closed spec fn position(&self) -> int {
        self.inner.position()
    }

    /// The token that `next` returns next.
    pub closed spec fn ahead(&self) -> Option<Token> {
        self.lookahead
    }

    /// The line on which the token read last ends; 1 before any was read.
    pub closed spec fn line_read(&self) -> usize {
        self.line
    }

    /// Whether the shared scanner has handed out its closing `Eof`.
    pub closed spec fn drained(&self) -> bool {
        self.inner.finished()
    }

    /// Whether no token but `Eof` is left.
    pub open spec fn finished(&self) -> bool {
        self.ahead() is None || self.ahead()->Some_0.kind.kind() == Kind::Eof
    }

    /// The shared scanner is in order.
    pub closed spec fn sound(&self) -> bool {
        self.inner.wf()
    }

    /// An upper bound on the tokens that the shared scanner can still read.
    pub closed spec fn unread(&self) -> nat {
        self.inner.remaining()
    }

    /// The shared scanner is in order, and it has handed out its `Eof`
    /// exactly if `Eof` is held ready.
    pub closed spec fn wf(&self) -> bool {
        &&& self.inner.wf()
        &&& 0 <= self.inner.position() <= self.inner.source().len()
        &&& !self.finished() ==> !self.inner.finished()
        &&& self.ahead() is Some && self.finished() ==> self.inner.finished()
    }

    /// The tokens that lie ahead as the grammar sees them, the one held
    /// ready first; none where none is held ready.
    pub closed spec fn stream(&self) -> Tokens {
        match self.lookahead {
            None => Seq::empty(),
            Some(t) => if self.inner.finished() {
                seq![Lexeme { kind: t.kind.kind(), text: t.kind.text() }]
            } else {
                seq![Lexeme { kind: t.kind.kind(), text: t.kind.text() }] + lexemes(
                    token_stream(self.inner.source(), self.inner.position()),
                )
            },
        }
    }

    /// The tokens that lie behind the one held ready.
    pub closed spec fn rest(&self) -> Tokens {
        if self.inner.finished() {
            Seq::empty()
        } else {
            lexemes(token_stream(self.inner.source(), self.inner.position()))
        }
    }

    /// The first token that lies ahead is the one held ready, and no token
    /// but `Eof` is left exactly if the grammar sees none.
    pub proof fn stream_starts_ahead(&self)
        requires
            self.wf(),
        ensures
            self.finished() == at_end(self.stream()),
            self.ahead() matches Some(t) ==> self.stream().len() >= 1 && self.stream()[0] == (
            Lexeme { kind: t.kind.kind(), text: t.kind.text() }),
            self.ahead() is Some && self.finished() ==> self.stream().len() == 1,
            self.ahead() matches Some(t) ==> self.stream() == seq![
                Lexeme { kind: t.kind.kind(), text: t.kind.text() },
            ] + self.rest(),
            self.ahead() is None ==> self.stream().len() == 0,
    {
        if self.ahead() is Some && self.inner.finished() {
            let t = self.ahead()->Some_0;
            assert(self.stream() =~= seq![Lexeme { kind: t.kind.kind(), text: t.kind.text() }]
                + self.rest());
        }
    }

    /// An upper bound on the tokens that `next` can still return.
    pub closed spec fn pending(&self) -> nat {
        self.inner.remaining() + if self.finished() {
            0nat
        } else {
            1nat
        }
    }

    /// A scanner for `source` that holds the first token ready.
    pub fn new(source: String) -> (r: Result<Scanner, Error>)
        ensures
            r is Ok ==> r->Ok_0.wf() && r->Ok_0.source() == source@ && refilled(
                source@,
                0,
                r->Ok_0.position(),
                None,
                r->Ok_0.ahead(),
                false,
            ),
            r is Err ==> r->Err_0 is Scanner && lex(source@, skip(source@, 0, false)) is Fail,
            r is Ok <==> token_stream(source@, 0).len() > 0,
            r is Ok ==> r->Ok_0.stream() == lexemes(token_stream(source@, 0)),
            r is Ok ==> r->Ok_0.line_read() == r->Ok_0.ahead()->Some_0.line,
    {
        let mut ret = Scanner {
            inner: crate::bytecode::scanner::Scanner::new(source.as_str()),
            lookahead: None,
            line: 1,
        };
        match ret.scan_token() {
            Ok(_) => Ok(ret),
            Err(e) => Err(e),
        }
    }

    /// The line on which the token read last ends.
    pub fn current_line(&self) -> (r: usize)
        ensures
            r == self.line_read(),
    {
        self.line
    }

    pub fn lookahead(&self) -> (r: &Option<Token>)
        ensures
            *r == self.ahead(),
    {
        &self.lookahead
    }

    /// Whether the token held ready is of the same kind as `ty` and carries
    /// the same text.
    pub fn lookahead_matches(&self, ty: TokenType) -> (r: bool)
        ensures
            r == (self.ahead() is Some && self.ahead()->Some_0.kind.same(ty)),
    {
        match &self.lookahead {
            Some(t) => t.kind.equals(&ty),
            None => false,
        }
    }

    /// Whether the token held ready is of kind `kind`.
    pub fn lookahead_is(&self, kind: Kind) -> (r: bool)
        ensures
            r == (self.ahead() is Some && self.ahead()->Some_0.kind.kind() == kind),
    {
        match &self.lookahead {
            Some(t) => t.kind.tag() == kind,
            None => false,
        }
    }

    /// Whether no token but `Eof` is left.
    pub fn done(&self) -> (r: bool)
        ensures
            r == self.finished(),
    {
        match &self.lookahead {
            Some(t) => t.kind.tag() == Kind::Eof,
            None => true,
        }
    }

    /// Whether the whole source has been read.
    pub fn is_at_end(&self) -> (r: bool)
        requires
            self.wf(),
        ensures
            r == self.drained(),
    {
        self.inner.is_finished()
    }

    /// Returns the token held ready and reads the next one in its place.
    /// Where the source holds no token there, nothing is returned and the
    /// token held ready stays.
    pub fn scan_token(&mut self) -> (r: Result<Option<Token>, Error>)
        requires
            old(self).sound(),
        ensures
            final(self).sound(),
            final(self).source() == old(self).source(),
            old(self).position() <= final(self).position() <= final(self).source().len(),
            final(self).line_read() == if !old(self).drained() && r is Ok {
                final(self).ahead()->Some_0.line
            } else {
                old(self).line_read()
            },
            old(self).drained() ==> final(self).drained() && final(self).ahead() is None
                && final(self).position() == old(self).position() && r == Ok::<
                Option<Token>,
                Error,
            >(old(self).ahead()),
            !old(self).drained() ==> {
                &&& refilled(
                    old(self).source(),
                    old(self).position(),
                    final(self).position(),
                    old(self).ahead(),
                    final(self).ahead(),
                    r is Err,
                )
                &&& r is Ok ==> r == Ok::<Option<Token>, Error>(old(self).ahead())
                &&& r is Err ==> r->Err_0 is Scanner
                &&& final(self).unread() < old(self).unread()
                &&& final(self).drained() == (final(self).ahead() is Some && r is Ok
                    && final(self).ahead()->Some_0.kind.kind() == Kind::Eof)
                &&& r is Err <==> old(self).rest().len() == 0
                &&& r is Ok ==> final(self).stream() == old(self).rest()
            },
    {
        proof {
            crate::bytecode::scanner::position_in_source(&self.inner);
        }
        let next = match self.inner.next() {
            None => None,
            Some(Ok(tok)) => {
                proof {
                    crate::bytecode::scanner::position_in_source(&self.inner);
                    crate::bytecode::scanner::scanned_span(
                        old(self).source(),
                        old(self).position(),
                        self.inner.position(),
                        Ok(tok),
                    );
                    crate::bytecode::scanner::scanned_heads_stream(
                        old(self).source(),
                        old(self).position(),
                        self.inner.position(),
                        Ok(tok),
                    );
                }
                let end = self.inner.offset();
                self.line = tok.line;
                Some(lift(tok, end))
            },
            Some(Err(e)) => {
                proof {
                    crate::bytecode::scanner::position_in_source(&self.inner);
                    crate::bytecode::scanner::scanned_heads_stream(
                        old(self).source(),
                        old(self).position(),
                        self.inner.position(),
                        Err(e),
                    );
                }
                return Err(Error::Scanner(e.to_string()));
            },
        };
        let mut held = next;
        std::mem::swap(&mut self.lookahead, &mut held);
        proof {
            if !old(self).drained() {
                let ts = token_stream(old(self).source(), old(self).position());
                let t = self.lookahead->Some_0;
                let first = Lexeme { kind: t.kind.kind(), text: t.kind.text() };
                assert(lexemes(ts)[0] == first);
                if self.inner.finished() {
                    assert(self.stream() =~= lexemes(ts));
                } else {
                    let tail = token_stream(self.inner.source(), self.inner.position());
                    assert(lexemes(ts) =~= seq![first] + lexemes(tail));
                }
            }
        }
        Ok(held)
    }

    /// The next token, or `None` where only `Eof` is left.
    pub fn next(&mut self) -> (r: Option<Result<Token, Error>>)
        requires
            old(self).wf(),
        ensures
            final(self).wf(),
            final(self).source() == old(self).source(),
            final(self).pending() <= old(self).pending(),
            old(self).finished() ==> r is None && final(self).ahead() == old(self).ahead()
                && final(self).position() == old(self).position() && final(self).stream() == old(self).stream(),
            !old(self).finished() ==> {
                &&& r is Some
                &&& r->Some_0 is Ok <==> old(self).stream().len() >= 2
                &&& r->Some_0 is Ok ==> final(self).stream() == old(self).stream().drop_first()
                &&& final(self).pending() < old(self).pending()
                &&& refilled(
                    old(self).source(),
                    old(self).position(),
                    final(self).position(),
                    old(self).ahead(),
                    final(self).ahead(),
                    r->Some_0 is Err,
                )
                &&& r->Some_0 is Ok ==> r->Some_0->Ok_0 == old(self).ahead()->Some_0
                &&& r->Some_0 is Err ==> r->Some_0->Err_0 is Scanner
            },
            final(self).line_read() == if !old(self).finished() && r->Some_0 is Ok {
                final(self).ahead()->Some_0.line
            } else {
                old(self).line_read()
            },
    {
        if self.done() {
            None
        } else {
            match self.scan_token() {
                Ok(Some(tok)) => Some(Ok(tok)),
                Ok(None) => None,
                Err(e) => Some(Err(e)),
            }
        }
    }

    /// All tokens that are left, without the closing `Eof`, or the first
    /// error.
    pub fn scan_tokens(&mut self) -> (r: Result<Vec<Token>, Error>)
        requires
            old(self).wf(),
        ensures
            final(self).wf(),
            final(self).source() == old(self).source(),
            r is Ok ==> final(self).finished() && old(self).stream() == Seq::new(
                r->Ok_0@.len(),
                |i: int| Lexeme { kind: r->Ok_0@[i].kind.kind(), text: r->Ok_0@[i].kind.text() },
            ) + final(self).stream(),
            r is Ok ==> forall|i: int|
                0 <= i < r->Ok_0@.len() ==> (#[trigger] r->Ok_0@[i]).kind.kind() != Kind::Eof,
            r is Err ==> r->Err_0 is Scanner && old(self).stream().len() > 0 && forall|i: int|
                0 <= i < old(self).stream().len() ==> (#[trigger] old(self).stream()[i]).kind
                    != Kind::Eof,
    {
        let mut out: Vec<Token> = Vec::new();
        assert(Seq::new(
            out@.len(),
            |i: int| Lexeme { kind: out@[i].kind.kind(), text: out@[i].kind.text() },
        ) + self.stream() =~= old(self).stream());
        loop
            invariant
                self.wf(),
                self.source() == old(self).source(),
                old(self).stream() == Seq::new(
                    out@.len(),
                    |i: int| Lexeme { kind: out@[i].kind.kind(), text: out@[i].kind.text() },
                ) + self.stream(),
                forall|i: int| 0 <= i < out@.len() ==> (#[trigger] out@[i]).kind.kind() != Kind::Eof,
            decreases self.pending(),
        {
            let ghost before = Seq::new(
                out@.len(),
                |i: int| Lexeme { kind: out@[i].kind.kind(), text: out@[i].kind.text() },
            );
            let ghost rest = self.stream();
            proof {
                self.stream_starts_ahead();
            }
            match self.next() {
                None => {
                    return Ok(out);
                },
                Some(Ok(tok)) => {
                    out.push(tok);
                    assert(Seq::new(
                        out@.len(),
                        |i: int| Lexeme { kind: out@[i].kind.kind(), text: out@[i].kind.text() },
                    ) =~= before.push(rest[0]));
                    assert(before + rest =~= before.push(rest[0]) + self.stream());
                },
                Some(Err(e)) => {
                    assert(rest.len() == 1);
                    assert(old(self).stream() =~= before.push(rest[0]));
                    return Err(e);
                },
            }
        }
    }
}

} // verus!
