//! The scanner of the bytecode path: source text to tokens, one at a time.

use vstd::prelude::*;
use crate::text::chars_of;
use crate::text::decimal;
use crate::text::decimal_text;
use crate::text::spells;
use crate::text::text_of;

verus! {

/// Why the first character of a token does not settle its kind alone.
#[derive(Clone, Copy, Debug, PartialEq, Eq, Structural)]
pub enum MatchError {
    /// One kind if `=` follows, another if not.
    MaybeWithNext { yes: TokenType, no: TokenType },
    /// The start of an identifier or keyword.
    Ident(char),
    Number,
    String,
    Eof,
    /// No token starts with this character.
    Error,
}

/// A place in the source where no token could be read.
#[derive(Clone, Copy, Debug, PartialEq, Eq, Structural)]
pub struct ScannerError {
    pub line: usize,
    pub index: usize,
}

impl ScannerError {
    pub fn new(line: usize, index: usize) -> (r: ScannerError)
        ensures
            r.line == line,
            r.index == index,
    {
        ScannerError { line, index }
    }

    pub open spec fn text(self) -> Seq<char> {
        "Scanner Error line: "@ + decimal(self.line as nat) + " index: "@ + decimal(
            self.index as nat,
        )
    }

    pub fn to_string(&self) -> (r: String)
        ensures
            r@ == self.text(),
    {
        let line = decimal_text(self.line);
        let index = decimal_text(self.index);
        String::from_str("Scanner Error line: ").concat(line.as_str()).concat(" index: ").concat(
            index.as_str(),
        )
    }
}

#[derive(Clone, Copy, Debug, PartialEq, Eq, Structural)]
pub enum TokenType {
    LeftParen,
    RightParen,
    LeftBrace,
    RightBrace,
    Comma,
    Period,
    Minus,
    Plus,
    Semi,
    Slash,
    Star,
    Bang,
    BangEq,
    Eq,
    EqEq,
    Greater,
    GreaterEq,
    Less,
    LessEq,
    Ident,
    String,
    Number,
    And,
    Class,
    Else,
    False,
    For,
    Fun,
    If,
    Nil,
    Or,
    Print,
    Return,
    Super,
    This,
    True,
    Var,
    While,
    Eof,
}

/// What the scanner passes over between tokens.
#[derive(Clone, Copy, Debug, PartialEq, Eq, Structural)]
pub enum Ignoreable {
    Comment,
    Whitespace,
}

pub open spec fn is_digit(c: char) -> bool {
    '0' <= c && c <= '9'
}

/// A letter of the ASCII alphabet or an underscore.
pub open spec fn is_alpha(c: char) -> bool {
    ('a' <= c && c <= 'z') || ('A' <= c && c <= 'Z') || c == '_'
}

pub open spec fn is_space(c: char) -> bool {
    c == ' ' || c == '\t' || c == '\r' || c == '\n'
}

/// What a token that starts with `ch` is, as far as `ch` alone tells.
pub open spec fn classify(ch: char) -> Result<TokenType, MatchError> {
    if ch == '(' {
        Ok(TokenType::LeftParen)
    } else if ch == ')' {
        Ok(TokenType::RightParen)
    } else if ch == '{' {
        Ok(TokenType::LeftBrace)
    } else if ch == '}' {
        Ok(TokenType::RightBrace)
    } else if ch == ',' {
        Ok(TokenType::Comma)
    } else if ch == '.' {
        Ok(TokenType::Period)
    } else if ch == '-' {
        Ok(TokenType::Minus)
    } else if ch == '+' {
        Ok(TokenType::Plus)
    } else if ch == ';' {
        Ok(TokenType::Semi)
    } else if ch == '/' {
        Ok(TokenType::Slash)
    } else if ch == '*' {
        Ok(TokenType::Star)
    } else if ch == '!' {
        Err(MatchError::MaybeWithNext { yes: TokenType::BangEq, no: TokenType::Bang })
    } else if ch == '=' {
        Err(MatchError::MaybeWithNext { yes: TokenType::EqEq, no: TokenType::Eq })
    } else if ch == '>' {
        Err(MatchError::MaybeWithNext { yes: TokenType::GreaterEq, no: TokenType::Greater })
    } else if ch == '<' {
        Err(MatchError::MaybeWithNext { yes: TokenType::LessEq, no: TokenType::Less })
    } else if ch == '"' {
        Err(MatchError::String)
    } else if is_digit(ch) {
        Err(MatchError::Number)
    } else if is_alpha(ch) {
        Err(MatchError::Ident(ch))
    } else {
        Err(MatchError::Error)
    }
}

/// The keyword that `word` spells, or `Ident` where it spells none.
pub open spec fn word_kind(word: Seq<char>) -> TokenType {
    if word == "and"@ {
        TokenType::And
    } else if word == "class"@ {
        TokenType::Class
    } else if word == "else"@ {
        TokenType::Else
    } else if word == "false"@ {
        TokenType::False
    } else if word == "for"@ {
        TokenType::For
    } else if word == "fun"@ {
        TokenType::Fun
    } else if word == "if"@ {
        TokenType::If
    } else if word == "nil"@ {
        TokenType::Nil
    } else if word == "or"@ {
        TokenType::Or
    } else if word == "print"@ {
        TokenType::Print
    } else if word == "return"@ {
        TokenType::Return
    } else if word == "super"@ {
        TokenType::Super
    } else if word == "this"@ {
        TokenType::This
    } else if word == "true"@ {
        TokenType::True
    } else if word == "var"@ {
        TokenType::Var
    } else if word == "while"@ {
        TokenType::While
    } else {
        TokenType::Ident
    }
}

/// The number of line feeds in `src[..pos]`.
pub open spec fn newlines(src: Seq<char>, pos: int) -> nat
    decreases pos,
{
    if pos <= 0 || pos > src.len() {
        0
    } else {
        newlines(src, pos - 1) + if src[pos - 1] == '\n' {
            1nat
        } else {
            0nat
        }
    }
}

/// The line that position `pos` lies on, counted from one and capped at the
/// largest `usize`.
pub open spec fn line_at(src: Seq<char>, pos: int) -> usize {
    if 1 + newlines(src, pos) <= usize::MAX {
        (1 + newlines(src, pos)) as usize
    } else {
        usize::MAX
    }
}

/// The first position from `pos` on that starts a token or ends the source:
/// white space is passed over, and so is a comment, which runs from `//`
/// through the end of its line. `in_comment` says whether `pos` lies in one.
pub open spec fn skip(src: Seq<char>, pos: int, in_comment: bool) -> int
    decreases src.len() - pos,
{
    if pos < 0 || pos >= src.len() {
        pos
    } else if in_comment {
        skip(src, pos + 1, src[pos] != '\n')
    } else if is_space(src[pos]) {
        skip(src, pos + 1, false)
    } else if src[pos] == '/' && pos + 1 < src.len() && src[pos + 1] == '/' {
        skip(src, pos + 2, true)
    } else {
        pos
    }
}

/// The end of the run of digits that starts at `pos`.
pub open spec fn digits_end(src: Seq<char>, pos: int) -> int
    decreases src.len() - pos,
{
    if pos < 0 || pos >= src.len() || !is_digit(src[pos]) {
        pos
    } else {
        digits_end(src, pos + 1)
    }
}

/// The end of the run of letters, digits and underscores that starts at `pos`.
pub open spec fn word_end(src: Seq<char>, pos: int) -> int
    decreases src.len() - pos,
{
    if pos < 0 || pos >= src.len() || !(is_alpha(src[pos]) || is_digit(src[pos])) {
        pos
    } else {
        word_end(src, pos + 1)
    }
}

/// The position of the first `"` from `pos` on, or the length of the source
/// where there is none.
pub open spec fn quote_at(src: Seq<char>, pos: int) -> int
    decreases src.len() - pos,
{
    if pos < 0 || pos >= src.len() || src[pos] == '"' {
        pos
    } else {
        quote_at(src, pos + 1)
    }
}

/// The end of the number that starts at `pos`: digits, and a fraction where
/// a point and a digit follow them.
pub open spec fn number_end(src: Seq<char>, pos: int) -> int {
    let whole = digits_end(src, pos);
    if whole + 1 < src.len() && src[whole] == '.' && is_digit(src[whole + 1]) {
        digits_end(src, whole + 1)
    } else {
        whole
    }
}

/// What stands at a position where a token has to start.
pub enum Lexed {
    /// A token of this kind, which ends before `end`.
    Token { kind: TokenType, end: int },
    /// No token: an unknown character, or a string without its closing
    /// quote. Scanning goes on at `end`.
    Fail { end: int },
}

/// The token that starts at `start`, a position that `skip` stopped at.
pub open spec fn lex(src: Seq<char>, start: int) -> Lexed {
    if start < 0 || start >= src.len() {
        Lexed::Token { kind: TokenType::Eof, end: start }
    } else {
        match classify(src[start]) {
            Ok(kind) => Lexed::Token { kind, end: start + 1 },
            Err(MatchError::MaybeWithNext { yes, no }) => {
                if start + 1 < src.len() && src[start + 1] == '=' {
                    Lexed::Token { kind: yes, end: start + 2 }
                } else {
                    Lexed::Token { kind: no, end: start + 1 }
                }
            },
            Err(MatchError::Ident(_)) => {
                let end = word_end(src, start + 1);
                Lexed::Token { kind: word_kind(src.subrange(start, end)), end }
            },
            Err(MatchError::String) => {
                let quote = quote_at(src, start + 1);
                if quote < src.len() {
                    Lexed::Token { kind: TokenType::String, end: quote + 1 }
                } else {
                    Lexed::Fail { end: src.len() as int }
                }
            },
            Err(MatchError::Number) => Lexed::Token {
                kind: TokenType::Number,
                end: number_end(src, start),
            },
            Err(_) => Lexed::Fail { end: start + 1 },
        }
    }
}

impl TokenType {
    /// Classifies a token by its first character.
    pub fn try_from(ch: char) -> (r: Result<TokenType, MatchError>)
        ensures
            r == classify(ch),
    {
        if ch == '(' {
            Ok(TokenType::LeftParen)
        } else if ch == ')' {
            Ok(TokenType::RightParen)
        } else if ch == '{' {
            Ok(TokenType::LeftBrace)
        } else if ch == '}' {
            Ok(TokenType::RightBrace)
        } else if ch == ',' {
            Ok(TokenType::Comma)
        } else if ch == '.' {
            Ok(TokenType::Period)
        } else if ch == '-' {
            Ok(TokenType::Minus)
        } else if ch == '+' {
            Ok(TokenType::Plus)
        } else if ch == ';' {
            Ok(TokenType::Semi)
        } else if ch == '/' {
            Ok(TokenType::Slash)
        } else if ch == '*' {
            Ok(TokenType::Star)
        } else if ch == '!' {
            Err(MatchError::MaybeWithNext { yes: TokenType::BangEq, no: TokenType::Bang })
        } else if ch == '=' {
            Err(MatchError::MaybeWithNext { yes: TokenType::EqEq, no: TokenType::Eq })
        } else if ch == '>' {
            Err(MatchError::MaybeWithNext { yes: TokenType::GreaterEq, no: TokenType::Greater })
        } else if ch == '<' {
            Err(MatchError::MaybeWithNext { yes: TokenType::LessEq, no: TokenType::Less })
        } else if ch == '"' {
            Err(MatchError::String)
        } else if digit(ch) {
            Err(MatchError::Number)
        } else if alpha(ch) {
            Err(MatchError::Ident(ch))
        } else {
            Err(MatchError::Error)
        }
    }
}

pub fn digit(c: char) -> (r: bool)
    ensures
        r == is_digit(c),
{
    '0' <= c && c <= '9'
}

pub fn alpha(c: char) -> (r: bool)
    ensures
        r == is_alpha(c),
{
    ('a' <= c && c <= 'z') || ('A' <= c && c <= 'Z') || c == '_'
}

pub fn space(c: char) -> (r: bool)
    ensures
        r == is_space(c),
{
    c == ' ' || c == '\t' || c == '\r' || c == '\n'
}

/// One token: its kind, the text it was read from, and the line it ends on.
#[derive(Debug)]
pub struct Token {
    pub kind: TokenType,
    pub slice: String,
    pub line: usize,
}

/// What a token holds.
pub struct Tok {
    pub kind: TokenType,
    pub text: Seq<char>,
    pub line: usize,
}

impl View for Token {
    type V = Tok;

    open spec fn view(&self) -> Tok {
        Tok { kind: self.kind, text: self.slice@, line: self.line }
    }
}

impl Clone for Token {
    fn clone(&self) -> (r: Token)
        ensures
            r == *self,
    {
        Token { kind: self.kind, slice: self.slice.clone(), line: self.line }
    }
}

/// The tokens that a scanner at position `pos` hands out, up to and with
/// the closing `Eof`. Where the source holds something that is no token,
/// the tokens end in front of it, without `Eof`.
pub open spec fn token_stream(src: Seq<char>, pos: int) -> Seq<Tok>
    decreases src.len() - pos,
{
    let start = skip(src, pos, false);
    match lex(src, start) {
        Lexed::Token { kind, end } => {
            let t = Tok { kind, text: src.subrange(start, end), line: line_at(src, end) };
            if kind == TokenType::Eof || end <= pos || end > src.len() {
                seq![t]
            } else {
                seq![t] + token_stream(src, end)
            }
        },
        Lexed::Fail { .. } => Seq::empty(),
    }
}

/// Whether a sequence of tokens is closed by `Eof`.
pub open spec fn terminated(s: Seq<Tok>) -> bool {
    s.len() >= 1 && s.last().kind == TokenType::Eof
}

impl Token {
    pub fn eof(line: usize) -> (r: Token)
        ensures
            r.kind == TokenType::Eof,
            r.slice@ == Seq::<char>::empty(),
            r.line == line,
    {
        Token { kind: TokenType::Eof, slice: String::new(), line }
    }

    pub fn new(kind: TokenType, slice: &str, line: usize) -> (r: Token)
        ensures
            r.kind == kind,
            r.slice@ == slice@,
            r.line == line,
    {
        Token { kind, slice: String::from_str(slice), line }
    }

    pub fn equals(&self, other: &Token) -> (r: bool)
        ensures
            r == (self.kind == other.kind && self.slice@ == other.slice@ && self.line
                == other.line),
    {
        self.kind == other.kind && self.slice == other.slice && self.line == other.line
    }
}

impl PartialEq for Token {
    fn eq(&self, other: &Token) -> (r: bool) {
        self.equals(other)
    }
}

impl vstd::std_specs::cmp::PartialEqSpecImpl for Token {
    open spec fn obeys_eq_spec() -> bool {
        true
    }

    open spec fn eq_spec(&self, other: &Token) -> bool {
        self.kind == other.kind && self.slice@ == other.slice@ && self.line == other.line
    }
}

/// Reads tokens from a source text, one at a time.
pub struct Scanner {
    chars: Vec<char>,
    pub line: usize,
    found_eof: bool,
    cursor: usize,
}

proof fn newlines_step(src: Seq<char>, pos: int)
    requires
        0 <= pos < src.len(),
    ensures
        newlines(src, pos + 1) == newlines(src, pos) + if src[pos] == '\n' {
            1nat
        } else {
            0nat
        },
        newlines(src, pos) <= pos,
    decreases pos,
{
    if pos > 0 {
        newlines_step(src, pos - 1);
    }
}

impl Scanner {
    /// The text that is scanned.
    pub closed spec fn source(&self) -> Seq<char> {
        self.chars@
    }

    /// How many characters have been read.
    pub closed spec fn position(&self) -> int {
        self.cursor as int
    }

    /// The line of the current position.
    pub closed spec fn line_number(&self) -> usize {
        self.line
    }

    /// Whether the closing `Eof` token has been handed out.
    pub closed spec fn finished(&self) -> bool {
        self.found_eof
    }

    /// The position lies within the source, and `line` is the line of it.
    pub closed spec fn wf(&self) -> bool {
        &&& self.cursor <= self.chars@.len()
        &&& self.line == line_at(self.chars@, self.cursor as int)
    }

    /// An upper bound on the calls of `next` that still return a token.
    pub open spec fn remaining(&self) -> nat {
        (self.source().len() - self.position() + if self.finished() {
            0int
        } else {
            1int
        }) as nat
    }

    pub fn new(s: &str) -> (r: Scanner)
        ensures
            r.wf(),
            r.source() == s@,
            r.position() == 0,
            !r.finished(),
            r.line_number() == 1,
    {
        Scanner { chars: chars_of(s), line: 1, found_eof: false, cursor: 0 }
    }

    /// Whether the closing `Eof` token has been handed out.
    pub fn is_finished(&self) -> (r: bool)
        ensures
            r == self.finished(),
    {
        self.found_eof
    }

    /// How many characters have been read.
    pub fn offset(&self) -> (r: usize)
        ensures
            r == self.position(),
    {
        self.cursor
    }

    /// Whether white space or a comment starts at the current position.
    fn check_for_ignorable(&self) -> (r: Option<Ignoreable>)
        requires
            self.wf(),
        ensures
            r == (if self.position() >= self.source().len() {
                None
            } else if is_space(self.source()[self.position()]) {
                Some(Ignoreable::Whitespace)
            } else if self.source()[self.position()] == '/' && self.position() + 1
                < self.source().len() && self.source()[self.position() + 1] == '/' {
                Some(Ignoreable::Comment)
            } else {
                None
            }),
    {
        if self.cursor >= self.chars.len() {
            None
        } else if space(self.chars[self.cursor]) {
            Some(Ignoreable::Whitespace)
        } else if self.chars[self.cursor] == '/' && self.cursor + 1 < self.chars.len()
            && self.chars[self.cursor + 1] == '/' {
            Some(Ignoreable::Comment)
        } else {
            None
        }
    }

    /// Moves one character on and keeps count of the lines.
    fn advance(&mut self)
        requires
            old(self).wf(),
            old(self).position() < old(self).source().len(),
        ensures
            final(self).wf(),
            final(self).source() == old(self).source(),
            final(self).position() == old(self).position() + 1,
            final(self).finished() == old(self).finished(),
    {
        proof {
            newlines_step(self.chars@, self.cursor as int);
        }
        assert(self.cursor < self.chars.len());
        if self.chars[self.cursor] == '\n' && self.line < usize::MAX {
            self.line += 1;
        }
        self.cursor += 1;
    }

    /// Passes over white space and comments.
    fn skip_whitespace(&mut self)
        requires
            old(self).wf(),
        ensures
            final(self).wf(),
            final(self).source() == old(self).source(),
            final(self).finished() == old(self).finished(),
            final(self).position() == skip(old(self).source(), old(self).position(), false),
            old(self).position() <= final(self).position(),
    {
        let mut in_comment = false;
        loop
            invariant
                self.wf(),
                self.source() == old(self).source(),
                self.finished() == old(self).finished(),
                old(self).position() <= self.position(),
                skip(old(self).source(), old(self).position(), false) == skip(
                    self.source(),
                    self.position(),
                    in_comment,
                ),
            ensures
                self.position() == skip(old(self).source(), old(self).position(), false),
            decreases self.source().len() - self.position(),
        {
            if in_comment {
                if self.cursor >= self.chars.len() {
                    break ;
                }
                in_comment = self.chars[self.cursor] != '\n';
                self.advance();
            } else {
                match self.check_for_ignorable() {
                    Some(Ignoreable::Whitespace) => {
                        self.advance();
                    },
                    Some(Ignoreable::Comment) => {
                        self.advance();
                        self.advance();
                        in_comment = true;
                    },
                    None => {
                        break ;
                    },
                }
            }
        }
    }

    /// The token from `start` to the current position.
    fn token(&self, kind: TokenType, start: usize) -> (r: Token)
        requires
            self.wf(),
            start <= self.position(),
        ensures
            r.kind == kind,
            r.slice@ == self.source().subrange(start as int, self.position()),
            r.line == self.line,
    {
        Token { kind, slice: text_of(&self.chars, start, self.cursor), line: self.line }
    }

    /// What the character at the current position starts.
    fn start_token(&self) -> (r: Result<TokenType, MatchError>)
        requires
            self.wf(),
        ensures
            r == (if self.position() >= self.source().len() {
                Err(MatchError::Eof)
            } else {
                classify(self.source()[self.position()])
            }),
    {
        if self.cursor >= self.chars.len() {
            Err(MatchError::Eof)
        } else {
            TokenType::try_from(self.chars[self.cursor])
        }
    }

    /// Moves on to the end of the run of digits.
    fn take_digits(&mut self)
        requires
            old(self).wf(),
        ensures
            final(self).wf(),
            final(self).source() == old(self).source(),
            final(self).finished() == old(self).finished(),
            final(self).position() == digits_end(old(self).source(), old(self).position()),
            old(self).position() <= final(self).position(),
    {
        while self.cursor < self.chars.len() && digit(self.chars[self.cursor])
            invariant
                self.wf(),
                self.source() == old(self).source(),
                self.finished() == old(self).finished(),
                old(self).position() <= self.position(),
                digits_end(old(self).source(), old(self).position()) == digits_end(
                    self.source(),
                    self.position(),
                ),
            decreases self.source().len() - self.position(),
        {
            self.advance();
        }
    }

    /// Reads a number: digits, and a fraction where a point and a digit
    /// follow.
    fn number(&mut self) -> (r: Token)
        requires
            old(self).wf(),
        ensures
            final(self).wf(),
            final(self).source() == old(self).source(),
            final(self).finished() == old(self).finished(),
            final(self).position() == number_end(old(self).source(), old(self).position()),
            old(self).position() <= final(self).position(),
            r.kind == TokenType::Number,
            r.slice@ == old(self).source().subrange(old(self).position(), final(self).position()),
            r.line == final(self).line,
    {
        let start = self.cursor;
        self.take_digits();
        if self.cursor < self.chars.len() && self.chars.len() - self.cursor > 1
            && self.chars[self.cursor] == '.' && digit(self.chars[self.cursor + 1]) {
            self.advance();
            self.take_digits();
        }
        self.token(TokenType::Number, start)
    }

    /// Reads a string, whose opening quote stands at the current position,
    /// through its closing quote.
    fn string(&mut self) -> (r: Result<Token, ScannerError>)
        requires
            old(self).wf(),
            old(self).position() < old(self).source().len(),
        ensures
            final(self).wf(),
            final(self).source() == old(self).source(),
            final(self).finished() == old(self).finished(),
            old(self).position() < final(self).position(),
            ({
                let quote = quote_at(old(self).source(), old(self).position() + 1);
                if quote < old(self).source().len() {
                    &&& final(self).position() == quote + 1
                    &&& r is Ok
                    &&& r->Ok_0.kind == TokenType::String
                    &&& r->Ok_0.slice@ == old(self).source().subrange(
                        old(self).position(),
                        quote + 1,
                    )
                    &&& r->Ok_0.line == final(self).line
                } else {
                    &&& final(self).position() == old(self).source().len()
                    &&& r == Err::<Token, ScannerError>(
                        ScannerError { line: old(self).line, index: old(self).cursor },
                    )
                }
            }),
    {
        let start = self.cursor;
        let line = self.line;
        self.advance();
        while self.cursor < self.chars.len() && self.chars[self.cursor] != '"'
            invariant
                self.wf(),
                self.source() == old(self).source(),
                self.finished() == old(self).finished(),
                old(self).position() < self.position(),
                quote_at(old(self).source(), old(self).position() + 1) == quote_at(
                    self.source(),
                    self.position(),
                ),
            decreases self.source().len() - self.position(),
        {
            self.advance();
        }
        if self.cursor < self.chars.len() {
            self.advance();
            Ok(self.token(TokenType::String, start))
        } else {
            Err(ScannerError::new(line, start))
        }
    }

    /// The kind of a word that can only be the keyword `word`.
    fn single_option_keyword(&self, word: &str, start: usize, kind: TokenType) -> (r: TokenType)
        requires
            self.wf(),
            start <= self.position(),
        ensures
            r == (if self.source().subrange(start as int, self.position()) == word@ {
                kind
            } else {
                TokenType::Ident
            }),
    {
        if spells(&self.chars, start, self.cursor, word) {
            kind
        } else {
            self.fallback_ident()
        }
    }

    fn fallback_ident(&self) -> (r: TokenType)
        ensures
            r == TokenType::Ident,
    {
        TokenType::Ident
    }

    /// The kind of a word that starts with `f`.
    fn f_keyword(&self, start: usize) -> (r: TokenType)
        requires
            self.wf(),
            start < self.position(),
            self.source()[start as int] == 'f',
        ensures
            r == word_kind(self.source().subrange(start as int, self.position())),
    {
        proof {
            keyword_letters();
        }
        let ghost word = self.source().subrange(start as int, self.position());
        assert(word[0] == 'f');
        assert(word.len() == self.cursor - start);
        if self.cursor - start < 2 {
            return self.fallback_ident();
        }
        assert(word[1] == self.source()[start + 1]);
        let second = self.chars[start + 1];
        if second == 'a' {
            self.single_option_keyword("false", start, TokenType::False)
        } else if second == 'o' {
            self.single_option_keyword("for", start, TokenType::For)
        } else if second == 'u' {
            self.single_option_keyword("fun", start, TokenType::Fun)
        } else {
            self.fallback_ident()
        }
    }

    /// The kind of a word that starts with `t`.
    fn t_keyword(&self, start: usize) -> (r: TokenType)
        requires
            self.wf(),
            start < self.position(),
            self.source()[start as int] == 't',
        ensures
            r == word_kind(self.source().subrange(start as int, self.position())),
    {
        proof {
            keyword_letters();
        }
        let ghost word = self.source().subrange(start as int, self.position());
        assert(word[0] == 't');
        assert(word.len() == self.cursor - start);
        if self.cursor - start < 2 {
            return self.fallback_ident();
        }
        assert(word[1] == self.source()[start + 1]);
        let second = self.chars[start + 1];
        if second == 'h' {
            self.single_option_keyword("this", start, TokenType::This)
        } else if second == 'r' {
            self.single_option_keyword("true", start, TokenType::True)
        } else {
            self.fallback_ident()
        }
    }

    /// Reads an identifier or keyword whose first character is `first`: the
    /// whole word first, then its kind by the letters it starts with.
    fn ident(&mut self, first: char) -> (r: Token)
        requires
            old(self).wf(),
            old(self).position() < old(self).source().len(),
            old(self).source()[old(self).position()] == first,
        ensures
            final(self).wf(),
            final(self).source() == old(self).source(),
            final(self).finished() == old(self).finished(),
            final(self).position() == word_end(old(self).source(), old(self).position() + 1),
            old(self).position() < final(self).position(),
            r.kind == word_kind(
                old(self).source().subrange(old(self).position(), final(self).position()),
            ),
            r.slice@ == old(self).source().subrange(old(self).position(), final(self).position()),
            r.line == final(self).line,
    {
        let start = self.cursor;
        self.advance();
        while self.cursor < self.chars.len() && (alpha(self.chars[self.cursor]) || digit(
            self.chars[self.cursor],
        ))
            invariant
                self.wf(),
                self.source() == old(self).source(),
                self.finished() == old(self).finished(),
                old(self).position() < self.position(),
                word_end(old(self).source(), old(self).position() + 1) == word_end(
                    self.source(),
                    self.position(),
                ),
            decreases self.source().len() - self.position(),
        {
            self.advance();
        }
        proof {
            keyword_letters();
        }
        let ghost word = self.source().subrange(start as int, self.position());
        assert(word[0] == first);
        let kind = if first == 'a' {
            self.single_option_keyword("and", start, TokenType::And)
        } else if first == 'c' {
            self.single_option_keyword("class", start, TokenType::Class)
        } else if first == 'e' {
            self.single_option_keyword("else", start, TokenType::Else)
        } else if first == 'f' {
            self.f_keyword(start)
        } else if first == 'i' {
            self.single_option_keyword("if", start, TokenType::If)
        } else if first == 'n' {
            self.single_option_keyword("nil", start, TokenType::Nil)
        } else if first == 'o' {
            self.single_option_keyword("or", start, TokenType::Or)
        } else if first == 'p' {
            self.single_option_keyword("print", start, TokenType::Print)
        } else if first == 'r' {
            self.single_option_keyword("return", start, TokenType::Return)
        } else if first == 's' {
            self.single_option_keyword("super", start, TokenType::Super)
        } else if first == 't' {
            self.t_keyword(start)
        } else if first == 'v' {
            self.single_option_keyword("var", start, TokenType::Var)
        } else if first == 'w' {
            self.single_option_keyword("while", start, TokenType::While)
        } else {
            self.fallback_ident()
        };
        self.token(kind, start)
    }

    /// Reads the next token, after what can be ignored in front of it.
    fn next_token(&mut self) -> (r: Result<Token, ScannerError>)
        requires
            old(self).wf(),
        ensures
            final(self).wf(),
            final(self).source() == old(self).source(),
            final(self).finished() == old(self).finished(),
            old(self).position() <= final(self).position(),
            scanned(old(self).source(), old(self).position(), final(self).position(), r),
    {
        self.skip_whitespace();
        let start = self.cursor;
        assert(self.source().subrange(start as int, start as int) =~= Seq::<char>::empty());
        match self.start_token() {
            Ok(kind) => {
                self.advance();
                Ok(self.token(kind, start))
            },
            Err(MatchError::Eof) => Ok(Token::eof(self.line)),
            Err(MatchError::MaybeWithNext { yes, no }) => {
                self.advance();
                let kind = if self.cursor < self.chars.len() && self.chars[self.cursor]
                    == '=' {
                    self.advance();
                    yes
                } else {
                    no
                };
                Ok(self.token(kind, start))
            },
            Err(MatchError::Ident(first)) => Ok(self.ident(first)),
            Err(MatchError::String) => self.string(),
            Err(MatchError::Error) => {
                let e = ScannerError::new(self.line, self.cursor);
                self.advance();
                Err(e)
            },
            Err(MatchError::Number) => Ok(self.number()),
        }
    }

    /// The next token, or `None` once the closing `Eof` has been handed out.
    pub fn next(&mut self) -> (r: Option<Result<Token, ScannerError>>)
        requires
            old(self).wf(),
        ensures
            final(self).wf(),
            final(self).source() == old(self).source(),
            old(self).finished() ==> r is None && final(self).position() == old(self).position()
                && final(self).finished(),
            !old(self).finished() ==> r is Some && scanned(
                old(self).source(),
                old(self).position(),
                final(self).position(),
                r->Some_0,
            ) && final(self).finished() == (r->Some_0 is Ok && r->Some_0->Ok_0.kind
                == TokenType::Eof) && final(self).remaining() < old(self).remaining(),
    {
        if self.found_eof {
            None
        } else {
            let r = self.next_token();
            match &r {
                Ok(tok) => {
                    if tok.kind == TokenType::Eof {
                        self.found_eof = true;
                    }
                },
                Err(_) => {},
            }
            proof {
                scanned_moves(old(self).source(), old(self).position(), self.position(), r);
            }
            Some(r)
        }
    }

    /// The tokens that the scanner still hands out, up to and with the
    /// closing `Eof`; they end without it where something is no token.
    pub open spec fn ahead(&self) -> Seq<Tok> {
        if self.finished() {
            Seq::empty()
        } else {
            token_stream(self.source(), self.position())
        }
    }

    /// All tokens up to and with the closing `Eof`, or the first error.
    pub fn scan_all(&mut self) -> (r: Result<Vec<Token>, ScannerError>)
        requires
            old(self).wf(),
        ensures
            final(self).wf(),
            final(self).source() == old(self).source(),
            r is Ok ==> final(self).finished(),
            r is Ok <==> old(self).finished() || terminated(old(self).ahead()),
            r is Ok ==> r->Ok_0@.len() == old(self).ahead().len() && forall|i: int|
                0 <= i < r->Ok_0@.len() ==> (#[trigger] r->Ok_0@[i])@ == old(self).ahead()[i],
    {
        let mut out: Vec<Token> = Vec::new();
        assert(Seq::new(out@.len(), |i: int| out@[i]@) + self.ahead() =~= old(self).ahead());
        loop
            invariant
                self.wf(),
                self.source() == old(self).source(),
                old(self).ahead() == Seq::new(out@.len(), |i: int| out@[i]@) + self.ahead(),
                !self.finished() ==> forall|i: int|
                    0 <= i < out@.len() ==> (#[trigger] out@[i]).kind != TokenType::Eof,
                old(self).finished() ==> self.finished(),
                self.finished() && !old(self).finished() ==> out@.len() > 0 && out@.last().kind
                    == TokenType::Eof,
            decreases self.remaining(),
        {
            let ghost before = Seq::new(out@.len(), |i: int| out@[i]@);
            let ghost rest = self.ahead();
            let ghost from = self.position();
            proof {
                position_in_source(self);
            }
            match self.next() {
                None => {
                    assert(old(self).ahead() =~= before);
                    return Ok(out);
                },
                Some(Ok(tok)) => {
                    proof {
                        position_in_source(self);
                        scanned_heads_stream(self.source(), from, self.position(), Ok(tok));
                    }
                    out.push(tok);
                    assert(Seq::new(out@.len(), |i: int| out@[i]@) =~= before.push(tok@));
                    assert(before + rest =~= before.push(tok@) + self.ahead());
                },
                Some(Err(e)) => {
                    proof {
                        position_in_source(self);
                        scanned_heads_stream(self.source(), from, self.position(), Err(e));
                        assert(old(self).ahead() =~= before);
                    }
                    return Err(e);
                },
            }
        }
    }
}

/// How one call of the scanner relates the position before it, the position
/// after it and what it returns: it passes over what can be ignored, and
/// then reads the token that starts there. A token carries its text and the
/// line it ends on; an error carries line and index of where it starts.
pub open spec fn scanned(
    src: Seq<char>,
    from: int,
    to: int,
    r: Result<Token, ScannerError>,
) -> bool {
    let start = skip(src, from, false);
    match lex(src, start) {
        Lexed::Token { kind, end } => {
            &&& to == end
            &&& r is Ok
            &&& r->Ok_0.kind == kind
            &&& r->Ok_0.slice@ == src.subrange(start, end)
            &&& r->Ok_0.line == line_at(src, end)
        },
        Lexed::Fail { end } => {
            &&& to == end
            &&& r is Err
            &&& r->Err_0.line == line_at(src, start)
            &&& r->Err_0.index == start
        },
    }
}

/// The position of a scanner that is in order lies within its source.
pub proof fn position_in_source(s: &Scanner)
    requires
        s.wf(),
    ensures
        0 <= s.position() <= s.source().len(),
{
}

/// A token that was read ends where its text ends, and its text is as long
/// as the stretch of source it was read from.
pub proof fn scanned_span(src: Seq<char>, from: int, to: int, r: Result<Token, ScannerError>)
    requires
        0 <= from <= to <= src.len(),
        scanned(src, from, to, r),
        r is Ok,
    ensures
        r->Ok_0.slice@.len() == to - skip(src, from, false),
        from <= skip(src, from, false) <= to,
{
    let start = skip(src, from, false);
    skip_bounds(src, from, false);
    if 0 <= start < src.len() {
        match classify(src[start]) {
            Err(MatchError::Ident(_)) => {
                word_end_bounds(src, start + 1);
            },
            Err(MatchError::Number) => {
                digits_end_bounds(src, start);
                digits_end_bounds(src, digits_end(src, start) + 1);
            },
            Err(MatchError::String) => {
                quote_at_bounds(src, start + 1);
            },
            _ => {},
        }
    }
}

/// What one call of the scanner returns is the first of the tokens that lie
/// ahead of it, and the tokens that then lie ahead are the rest; where it
/// returns an error, no tokens lie ahead.
pub proof fn scanned_heads_stream(src: Seq<char>, from: int, to: int, r: Result<Token, ScannerError>)
    requires
        0 <= from <= to <= src.len(),
        scanned(src, from, to, r),
    ensures
        r is Err ==> token_stream(src, from) == Seq::<Tok>::empty(),
        r is Ok && r->Ok_0.kind == TokenType::Eof ==> token_stream(src, from) == seq![r->Ok_0@],
        r is Ok && r->Ok_0.kind != TokenType::Eof ==> token_stream(src, from) == seq![r->Ok_0@]
            + token_stream(src, to),
{
    scanned_moves(src, from, to, r);
}

/// Every call but the one that returns `Eof` reads at least one character.
proof fn scanned_moves(src: Seq<char>, from: int, to: int, r: Result<Token, ScannerError>)
    requires
        0 <= from <= to <= src.len(),
        scanned(src, from, to, r),
    ensures
        !(r is Ok && r->Ok_0.kind == TokenType::Eof) ==> from < to,
{
    let start = skip(src, from, false);
    skip_bounds(src, from, false);
    keyword_letters();
    if 0 <= start < src.len() {
        match classify(src[start]) {
            Err(MatchError::Ident(_)) => {
                word_end_bounds(src, start + 1);
                let end = word_end(src, start + 1);
                assert(src.subrange(start, end).len() > 0);
            },
            Err(MatchError::Number) => {
                digits_end_bounds(src, start);
                digits_end_bounds(src, digits_end(src, start) + 1);
            },
            Err(MatchError::String) => {
                quote_at_bounds(src, start + 1);
            },
            _ => {},
        }
    }
}

proof fn skip_bounds(src: Seq<char>, pos: int, in_comment: bool)
    requires
        0 <= pos <= src.len(),
    ensures
        pos <= skip(src, pos, in_comment) <= src.len(),
    decreases src.len() - pos,
{
    if pos < src.len() {
        if in_comment {
            skip_bounds(src, pos + 1, src[pos] != '\n');
        } else if is_space(src[pos]) {
            skip_bounds(src, pos + 1, false);
        } else if src[pos] == '/' && pos + 1 < src.len() && src[pos + 1] == '/' {
            skip_bounds(src, pos + 2, true);
        }
    }
}

proof fn quote_at_bounds(src: Seq<char>, pos: int)
    requires
        0 <= pos <= src.len(),
    ensures
        pos <= quote_at(src, pos) <= src.len(),
    decreases src.len() - pos,
{
    if pos < src.len() && src[pos] != '"' {
        quote_at_bounds(src, pos + 1);
    }
}

proof fn word_end_bounds(src: Seq<char>, pos: int)
    requires
        0 <= pos <= src.len(),
    ensures
        pos <= word_end(src, pos) <= src.len(),
    decreases src.len() - pos,
{
    if pos < src.len() && (is_alpha(src[pos]) || is_digit(src[pos])) {
        word_end_bounds(src, pos + 1);
    }
}

proof fn digits_end_bounds(src: Seq<char>, pos: int)
    requires
        0 <= pos,
    ensures
        pos <= digits_end(src, pos),
        pos <= src.len() ==> digits_end(src, pos) <= src.len(),
        pos < src.len() && is_digit(src[pos]) ==> pos < digits_end(src, pos),
    decreases src.len() - pos,
{
    if pos < src.len() && is_digit(src[pos]) {
        digits_end_bounds(src, pos + 1);
    }
}

/// The letters of the keywords.
proof fn keyword_letters()
    ensures
        "and"@ == seq!['a', 'n', 'd'],
        "class"@ == seq!['c', 'l', 'a', 's', 's'],
        "else"@ == seq!['e', 'l', 's', 'e'],
        "false"@ == seq!['f', 'a', 'l', 's', 'e'],
        "for"@ == seq!['f', 'o', 'r'],
        "fun"@ == seq!['f', 'u', 'n'],
        "if"@ == seq!['i', 'f'],
        "nil"@ == seq!['n', 'i', 'l'],
        "or"@ == seq!['o', 'r'],
        "print"@ == seq!['p', 'r', 'i', 'n', 't'],
        "return"@ == seq!['r', 'e', 't', 'u', 'r', 'n'],
        "super"@ == seq!['s', 'u', 'p', 'e', 'r'],
        "this"@ == seq!['t', 'h', 'i', 's'],
        "true"@ == seq!['t', 'r', 'u', 'e'],
        "var"@ == seq!['v', 'a', 'r'],
        "while"@ == seq!['w', 'h', 'i', 'l', 'e'],
{
    reveal_strlit("and");
    reveal_strlit("class");
    reveal_strlit("else");
    reveal_strlit("false");
    reveal_strlit("for");
    reveal_strlit("fun");
    reveal_strlit("if");
    reveal_strlit("nil");
    reveal_strlit("or");
    reveal_strlit("print");
    reveal_strlit("return");
    reveal_strlit("super");
    reveal_strlit("this");
    reveal_strlit("true");
    reveal_strlit("var");
    reveal_strlit("while");
    assert("and"@ =~= seq!['a', 'n', 'd']);
    assert("class"@ =~= seq!['c', 'l', 'a', 's', 's']);
    assert("else"@ =~= seq!['e', 'l', 's', 'e']);
    assert("false"@ =~= seq!['f', 'a', 'l', 's', 'e']);
    assert("for"@ =~= seq!['f', 'o', 'r']);
    assert("fun"@ =~= seq!['f', 'u', 'n']);
    assert("if"@ =~= seq!['i', 'f']);
    assert("nil"@ =~= seq!['n', 'i', 'l']);
    assert("or"@ =~= seq!['o', 'r']);
    assert("print"@ =~= seq!['p', 'r', 'i', 'n', 't']);
    assert("return"@ =~= seq!['r', 'e', 't', 'u', 'r', 'n']);
    assert("super"@ =~= seq!['s', 'u', 'p', 'e', 'r']);
    assert("this"@ =~= seq!['t', 'h', 'i', 's']);
    assert("true"@ =~= seq!['t', 'r', 'u', 'e']);
    assert("var"@ =~= seq!['v', 'a', 'r']);
    assert("while"@ =~= seq!['w', 'h', 'i', 'l', 'e']);
}

} // verus!
