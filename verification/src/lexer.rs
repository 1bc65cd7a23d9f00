//! The scanner: turns source bytes into a stream of tokens, one per call.
//!
//! The model is [`spec_scan`]: a function of the source bytes and a scan
//! position alone, giving either the next token together with the position
//! after it, or the fault. [`Lexer::next_token`] is proved to return exactly
//! that. Once the end of input is reached the position no longer moves, so
//! every further call yields `Eof` (see [`lemma_eof_idempotent`]).

use vstd::prelude::*;

use crate::error::{Error, ErrorKind};
use crate::span::Span;

verus! {

/// The kind tag of a lexical token.
#[derive(Debug, Copy, Clone, PartialEq, Eq, Structural)]
pub enum TokenKind {
    Plus,
    Minus,
    Star,
    Slash,
    Eq,
    EqEq,
    Not,
    Ne,
    Gt,
    Ge,
    Lt,
    Le,
    And,
    AndAnd,
    Or,
    OrOr,
    OpenParen,
    CloseParen,
    OpenBrace,
    CloseBrace,
    LArrow,
    Colon,
    Semicolon,
    If,
    Else,
    True,
    False,
    Let,
    Func,
    Return,
    Ident,
    Number,
    Eof,
}

/// A minimal lexical unit: a kind tag and the source range it covers.
#[derive(Debug, Copy, Clone, PartialEq, Eq, Structural)]
pub struct Token {
    pub kind: TokenKind,
    pub span: Span,
}

impl Token {
    /// A placeholder token, used before anything has been consumed.
    pub fn dummy() -> (t: Token)
        ensures
            t == (Token { kind: TokenKind::Eof, span: Span { lo: 0, hi: 0 } }),
    {
        Token { kind: TokenKind::Eof, span: Span::dummy() }
    }
}

/// The bytes the scanner skips between tokens: space, tab, line feed,
/// form feed, carriage return.
pub open spec fn is_ws_byte(c: u8) -> bool {
    c == 32 || c == 9 || c == 10 || c == 12 || c == 13
}

/// A decimal digit.
pub open spec fn is_digit_byte(c: u8) -> bool {
    48 <= c && c <= 57
}

/// An ASCII letter.
pub open spec fn is_alpha_byte(c: u8) -> bool {
    (65 <= c && c <= 90) || (97 <= c && c <= 122)
}

/// A byte that may continue an identifier: letter, digit or underscore.
pub open spec fn is_ident_byte(c: u8) -> bool {
    is_alpha_byte(c) || is_digit_byte(c) || c == 95
}

/// The first position at or after `i` that cannot continue an identifier.
pub open spec fn ident_end(src: Seq<u8>, i: int) -> int
    decreases src.len() - i,
{
    if i < 0 || i >= src.len() || !is_ident_byte(src[i]) {
        i
    } else {
        ident_end(src, i + 1)
    }
}

/// The first position at or after `i` that is not a decimal digit.
pub open spec fn digits_end(src: Seq<u8>, i: int) -> int
    decreases src.len() - i,
{
    if i < 0 || i >= src.len() || !is_digit_byte(src[i]) {
        i
    } else {
        digits_end(src, i + 1)
    }
}

/// The token kind of an identifier-shaped lexeme: one of the fixed keywords,
/// or `Ident` for anything else.
pub open spec fn keyword_kind(s: Seq<u8>) -> TokenKind {
    if s.len() == 2 && s[0] == 105 && s[1] == 102 {  // "if"
        TokenKind::If
    } else if s.len() == 4 && s[0] == 101 && s[1] == 108 && s[2] == 115 && s[3] == 101 {  // "else"
        TokenKind::Else
    } else if s.len() == 4 && s[0] == 116 && s[1] == 114 && s[2] == 117 && s[3] == 101 {  // "true"
        TokenKind::True
    } else if s.len() == 5 && s[0] == 102 && s[1] == 97 && s[2] == 108 && s[3] == 115 && s[4]
        == 101 {  // "false"
        TokenKind::False
    } else if s.len() == 3 && s[0] == 108 && s[1] == 101 && s[2] == 116 {  // "let"
        TokenKind::Let
    } else if s.len() == 2 && s[0] == 102 && s[1] == 110 {  // "fn"
        TokenKind::Func
    } else if s.len() == 6 && s[0] == 114 && s[1] == 101 && s[2] == 116 && s[3] == 117 && s[4]
        == 114 && s[5] == 110 {  // "return"
        TokenKind::Return
    } else {
        TokenKind::Ident
    }
}

/// The span `[lo, hi)` written from mathematical offsets.
pub open spec fn span_at(lo: int, hi: int) -> Span {
    Span { lo: lo as usize, hi: hi as usize }
}

/// The token that marks the end of the input.
pub open spec fn eof_token(src: Seq<u8>) -> Token {
    Token { kind: TokenKind::Eof, span: span_at(src.len() as int, src.len() as int) }
}

/// A one-byte token starting at `pos`.
pub open spec fn single_token(kind: TokenKind, pos: int) -> Result<(Token, int), Error> {
    Ok((Token { kind, span: span_at(pos, pos + 1) }, pos + 1))
}

/// A token of one byte at `pos`, extended to two bytes when the byte
/// `snd` follows: `-` and `->`, `=` and `==`, and their kin.
pub open spec fn double_or(
    src: Seq<u8>,
    pos: int,
    snd: u8,
    long: TokenKind,
    short: TokenKind,
) -> Result<(Token, int), Error> {
    if pos + 1 < src.len() && src[pos + 1] == snd {
        Ok((Token { kind: long, span: span_at(pos, pos + 2) }, pos + 2))
    } else {
        single_token(short, pos)
    }
}

/// The scanner's model: the next token of `src` at scan position `pos`,
/// together with the position just after it; or the fault, when the first
/// non-whitespace byte starts no token. Scanning at or past the end of the
/// input yields `Eof` at the end position, so the model makes `Eof` a fixed
/// point of scanning.
#[verifier::opaque]
pub open spec fn spec_scan(src: Seq<u8>, pos: int) -> Result<(Token, int), Error>
    decreases src.len() - pos,
{
    if pos < 0 || pos >= src.len() {
        Ok((eof_token(src), src.len() as int))
    } else if is_ws_byte(src[pos]) {
        spec_scan(src, pos + 1)
    } else {
        let c = src[pos];
        if c == 43 {  // '+'
            single_token(TokenKind::Plus, pos)
        } else if c == 45 {  // '-' or "->"
            double_or(src, pos, 62, TokenKind::LArrow, TokenKind::Minus)
        } else if c == 42 {  // '*'
            single_token(TokenKind::Star, pos)
        } else if c == 47 {  // '/'
            single_token(TokenKind::Slash, pos)
        } else if c == 40 {  // '('
            single_token(TokenKind::OpenParen, pos)
        } else if c == 41 {  // ')'
            single_token(TokenKind::CloseParen, pos)
        } else if c == 123 {  // '{'
            single_token(TokenKind::OpenBrace, pos)
        } else if c == 125 {  // '}'
            single_token(TokenKind::CloseBrace, pos)
        } else if c == 58 {  // ':'
            single_token(TokenKind::Colon, pos)
        } else if c == 59 {  // ';'
            single_token(TokenKind::Semicolon, pos)
        } else if c == 61 {  // '=' or "=="
            double_or(src, pos, 61, TokenKind::EqEq, TokenKind::Eq)
        } else if c == 33 {  // '!' or "!="
            double_or(src, pos, 61, TokenKind::Ne, TokenKind::Not)
        } else if c == 62 {  // '>' or ">="
            double_or(src, pos, 61, TokenKind::Ge, TokenKind::Gt)
        } else if c == 60 {  // '<' or "<="
            double_or(src, pos, 61, TokenKind::Le, TokenKind::Lt)
        } else if c == 38 {  // '&' or "&&"
            double_or(src, pos, 38, TokenKind::AndAnd, TokenKind::And)
        } else if c == 124 {  // '|' or "||"
            double_or(src, pos, 124, TokenKind::OrOr, TokenKind::Or)
        } else if is_alpha_byte(c) {
            let end = ident_end(src, pos + 1);
            Ok(
                (
                    Token {
                        kind: keyword_kind(src.subrange(pos, end)),
                        span: span_at(pos, end),
                    },
                    end,
                ),
            )
        } else if is_digit_byte(c) {
            let end = digits_end(src, pos + 1);
            Ok((Token { kind: TokenKind::Number, span: span_at(pos, end) }, end))
        } else {
            Err(Error { kind: ErrorKind::UnexpectedByte(c), span: span_at(pos, pos + 1) })
        }
    }
}

/// Once the input is exhausted, scanning is a fixed point: from the end
/// position it yields `Eof` at that same end position, so every further
/// call to the scanner returns `Eof` again.
pub proof fn lemma_eof_idempotent(src: Seq<u8>)
    ensures
        spec_scan(src, src.len() as int) == Ok::<(Token, int), Error>(
            (eof_token(src), src.len() as int),
        ),
{
    reveal(spec_scan);
}

pub proof fn lemma_ident_end_bounds(src: Seq<u8>, i: int)
    requires
        0 <= i <= src.len(),
    ensures
        i <= ident_end(src, i) <= src.len(),
    decreases src.len() - i,
{
    if i < src.len() && is_ident_byte(src[i]) {
        lemma_ident_end_bounds(src, i + 1);
    }
}

pub proof fn lemma_digits_end_bounds(src: Seq<u8>, i: int)
    requires
        0 <= i <= src.len(),
    ensures
        i <= digits_end(src, i) <= src.len(),
    decreases src.len() - i,
{
    if i < src.len() && is_digit_byte(src[i]) {
        lemma_digits_end_bounds(src, i + 1);
    }
}

/// Scanning never moves backwards, never leaves the input, consumes at
/// least one byte for every token but `Eof`, and yields `Eof` exactly at
/// the end of the input.
pub proof fn lemma_scan_bounds(src: Seq<u8>, pos: int)
    ensures
        0 <= pos <= src.len() ==> (match spec_scan(src, pos) {
            Ok((t, p)) => pos <= p <= src.len() && (t.kind != TokenKind::Eof ==> pos < p) && (
            t.kind == TokenKind::Eof ==> p == src.len()),
            Err(_) => true,
        }),
    decreases src.len() - pos,
{
    reveal(spec_scan);
    if 0 <= pos < src.len() {
        let c = src[pos];
        if is_ws_byte(c) {
            lemma_scan_bounds(src, pos + 1);
        } else if is_alpha_byte(c) {
            lemma_ident_end_bounds(src, pos + 1);
        } else if is_digit_byte(c) {
            lemma_digits_end_bounds(src, pos + 1);
        }
    }
}

fn is_ws(c: u8) -> (b: bool)
    ensures
        b == is_ws_byte(c),
{
    c == 32 || c == 9 || c == 10 || c == 12 || c == 13
}

fn is_digit(c: u8) -> (b: bool)
    ensures
        b == is_digit_byte(c),
{
    48 <= c && c <= 57
}

fn is_alpha(c: u8) -> (b: bool)
    ensures
        b == is_alpha_byte(c),
{
    (65 <= c && c <= 90) || (97 <= c && c <= 122)
}

fn is_ident(c: u8) -> (b: bool)
    ensures
        b == is_ident_byte(c),
{
    is_alpha(c) || is_digit(c) || c == 95
}

/// The pull-based scanner: the source bytes, the start offset of the token
/// being scanned, and the current scan offset.
pub struct Lexer {
    source: Vec<u8>,
    start: usize,
    pos: usize,
}

impl Lexer {
    /// The source bytes being scanned.
    pub closed spec fn src(&self) -> Seq<u8> {
        self.source@
    }

    /// The current scan offset.
    pub closed spec fn pos(&self) -> usize {
        self.pos
    }

    /// The scanner never leaves the source range.
    pub closed spec fn wf(&self) -> bool {
        self.start <= self.pos <= self.source.len()
    }

    pub fn new(source: Vec<u8>) -> (l: Lexer)
        ensures
            l.wf(),
            l.src() == source@,
            l.pos() == 0,
    {
        Lexer { source, start: 0, pos: 0 }
    }

    /// The source bytes, for reading a token's lexeme out of its span.
    pub fn source(&self) -> (s: &Vec<u8>)
        ensures
            s@ == self.src(),
    {
        &self.source
    }

    /// What well-formedness guarantees a caller: the scan position never
    /// leaves the source, whose length fits a machine word.
    pub proof fn wf_bounds(&self)
        requires
            self.wf(),
        ensures
            self.pos() <= self.src().len(),
            self.src().len() <= usize::MAX,
    {
        assert(vstd::std_specs::vec::spec_vec_len(&self.source) == self.source@.len()) by {
            vstd::std_specs::vec::axiom_spec_len(&self.source);
        }
    }

    fn eof(&self) -> (b: bool)
        ensures
            b == (self.pos >= self.source.len()),
    {
        self.pos >= self.source.len()
    }

    fn peek_char(&self) -> (c: u8)
        ensures
            c == (if self.pos < self.source@.len() {
                self.source@[self.pos as int]
            } else {
                0u8
            }),
    {
        if self.pos < self.source.len() {
            self.source[self.pos]
        } else {
            0
        }
    }

    fn advance(&mut self)
        ensures
            final(self).source == old(self).source,
            final(self).start == old(self).start,
            final(self).pos == (if old(self).pos < old(self).source.len() {
                old(self).pos + 1
            } else {
                old(self).pos as int
            }),
    {
        if !self.eof() {
            self.pos = self.pos + 1;
        }
    }

    fn next_char(&mut self) -> (c: u8)
        ensures
            final(self).source == old(self).source,
            final(self).start == old(self).start,
            c == (if old(self).pos < old(self).source@.len() {
                old(self).source@[old(self).pos as int]
            } else {
                0u8
            }),
            final(self).pos == (if old(self).pos < old(self).source.len() {
                old(self).pos + 1
            } else {
                old(self).pos as int
            }),
    {
        let c = self.peek_char();
        self.advance();
        c
    }

    /// Consumes the byte `c` when it is next, for the one byte of lookahead
    /// that two-character operators need.
    fn eat(&mut self, c: u8) -> (b: bool)
        requires
            c != 0,
        ensures
            final(self).source == old(self).source,
            final(self).start == old(self).start,
            b == (old(self).pos < old(self).source@.len() && old(self).source@[old(
                self,
            ).pos as int] == c),
            final(self).pos == (if b {
                old(self).pos + 1
            } else {
                old(self).pos as int
            }),
    {
        if self.peek_char() == c {
            self.advance();
            true
        } else {
            false
        }
    }

    fn span(&self) -> (s: Span)
        ensures
            s == (Span { lo: self.start, hi: self.pos }),
    {
        Span::new(self.start, self.pos)
    }

    fn token(&self, kind: TokenKind) -> (t: Token)
        ensures
            t == (Token { kind, span: Span { lo: self.start, hi: self.pos } }),
    {
        Token { kind, span: self.span() }
    }

    /// Scans the rest of an identifier-shaped lexeme and classifies it
    /// against the fixed keyword set.
    fn ident_or_kw(&mut self) -> (t: Token)
        requires
            old(self).wf(),
        ensures
            final(self).wf(),
            final(self).source == old(self).source,
            final(self).start == old(self).start,
            final(self).pos as int == ident_end(old(self).source@, old(self).pos as int),
            t == (Token {
                kind: keyword_kind(
                    old(self).source@.subrange(
                        old(self).start as int,
                        ident_end(old(self).source@, old(self).pos as int),
                    ),
                ),
                span: Span {
                    lo: old(self).start,
                    hi: ident_end(old(self).source@, old(self).pos as int) as usize,
                },
            }),
    {
        while self.pos < self.source.len() && is_ident(self.source[self.pos])
            invariant
                self.wf(),
                self.source == old(self).source,
                self.start == old(self).start,
                ident_end(self.source@, self.pos as int) == ident_end(
                    old(self).source@,
                    old(self).pos as int,
                ),
            decreases self.source.len() - self.pos,
        {
            self.pos = self.pos + 1;
        }
        let kind = kw_lookup(&self.source, self.start, self.pos);
        self.token(kind)
    }

    /// Scans the rest of a run of decimal digits.
    fn number(&mut self) -> (t: Token)
        requires
            old(self).wf(),
        ensures
            final(self).wf(),
            final(self).source == old(self).source,
            final(self).start == old(self).start,
            final(self).pos as int == digits_end(old(self).source@, old(self).pos as int),
            t == (Token {
                kind: TokenKind::Number,
                span: Span {
                    lo: old(self).start,
                    hi: digits_end(old(self).source@, old(self).pos as int) as usize,
                },
            }),
    {
        while self.pos < self.source.len() && is_digit(self.source[self.pos])
            invariant
                self.wf(),
                self.source == old(self).source,
                self.start == old(self).start,
                digits_end(self.source@, self.pos as int) == digits_end(
                    old(self).source@,
                    old(self).pos as int,
                ),
            decreases self.source.len() - self.pos,
        {
            self.pos = self.pos + 1;
        }
        self.token(TokenKind::Number)
    }

    /// Skips whitespace, then scans and classifies the next token by
    /// maximal munch on its first byte. Returns exactly what the model
    /// [`spec_scan`] says, the fault included.
    pub fn next_token(&mut self) -> (r: Result<Token, Error>)
        requires
            old(self).wf(),
        ensures
            final(self).wf(),
            final(self).src() == old(self).src(),
            (match r {
                Ok(t) => spec_scan(old(self).src(), old(self).pos() as int) == Ok::<
                    (Token, int),
                    Error,
                >((t, final(self).pos() as int)),
                Err(e) => spec_scan(old(self).src(), old(self).pos() as int) == Err::<
                    (Token, int),
                    Error,
                >(e) && final(self).pos() == e.span.hi,
            }),
    {
        proof {
            reveal(spec_scan);
        }
        while !self.eof()
            invariant
                self.wf(),
                self.source == old(self).source,
                spec_scan(old(self).source@, old(self).pos as int) == spec_scan(
                    self.source@,
                    self.pos as int,
                ),
            decreases self.source.len() - self.pos,
        {
            proof {
                reveal(spec_scan);
            }
            self.start = self.pos;
            let c = self.next_char();
            if is_ws(c) {
                continue ;
            }
            let r = if c == 43 {
                Ok(self.token(TokenKind::Plus))
            } else if c == 45 {
                if self.eat(62) {
                    Ok(self.token(TokenKind::LArrow))
                } else {
                    Ok(self.token(TokenKind::Minus))
                }
            } else if c == 42 {
                Ok(self.token(TokenKind::Star))
            } else if c == 47 {
                Ok(self.token(TokenKind::Slash))
            } else if c == 40 {
                Ok(self.token(TokenKind::OpenParen))
            } else if c == 41 {
                Ok(self.token(TokenKind::CloseParen))
            } else if c == 123 {
                Ok(self.token(TokenKind::OpenBrace))
            } else if c == 125 {
                Ok(self.token(TokenKind::CloseBrace))
            } else if c == 58 {
                Ok(self.token(TokenKind::Colon))
            } else if c == 59 {
                Ok(self.token(TokenKind::Semicolon))
            } else if c == 61 {
                if self.eat(61) {
                    Ok(self.token(TokenKind::EqEq))
                } else {
                    Ok(self.token(TokenKind::Eq))
                }
            } else if c == 33 {
                if self.eat(61) {
                    Ok(self.token(TokenKind::Ne))
                } else {
                    Ok(self.token(TokenKind::Not))
                }
            } else if c == 62 {
                if self.eat(61) {
                    Ok(self.token(TokenKind::Ge))
                } else {
                    Ok(self.token(TokenKind::Gt))
                }
            } else if c == 60 {
                if self.eat(61) {
                    Ok(self.token(TokenKind::Le))
                } else {
                    Ok(self.token(TokenKind::Lt))
                }
            } else if c == 38 {
                if self.eat(38) {
                    Ok(self.token(TokenKind::AndAnd))
                } else {
                    Ok(self.token(TokenKind::And))
                }
            } else if c == 124 {
                if self.eat(124) {
                    Ok(self.token(TokenKind::OrOr))
                } else {
                    Ok(self.token(TokenKind::Or))
                }
            } else if is_alpha(c) {
                Ok(self.ident_or_kw())
            } else if is_digit(c) {
                Ok(self.number())
            } else {
                Err(Error { kind: ErrorKind::UnexpectedByte(c), span: self.span() })
            };
            return r;
        }
        proof {
            reveal(spec_scan);
        }
        Ok(Token { kind: TokenKind::Eof, span: Span::new(self.source.len(), self.source.len()) })
    }
}

/// Every byte of `s` is a decimal digit.
pub open spec fn all_digits(s: Seq<u8>) -> bool {
    forall|k: int| 0 <= k < s.len() ==> is_digit_byte(#[trigger] s[k])
}

/// The numeric value of a run of decimal digits, most significant first.
/// The empty run counts as zero.
pub open spec fn digits_value(s: Seq<u8>) -> int
    decreases s.len(),
{
    if s.len() == 0 {
        0
    } else {
        10 * digits_value(s.drop_last()) + (s.last() - 48)
    }
}

pub proof fn lemma_digits_value_nonneg(s: Seq<u8>)
    requires
        all_digits(s),
    ensures
        digits_value(s) >= 0,
    decreases s.len(),
{
    if s.len() > 0 {
        assert(all_digits(s.drop_last()));
        lemma_digits_value_nonneg(s.drop_last());
    }
}

/// A run of digits is worth at least any of its prefixes: appending digits
/// never shrinks the value.
pub proof fn lemma_digits_value_prefix(s: Seq<u8>, k: int)
    requires
        all_digits(s),
        0 <= k <= s.len(),
    ensures
        0 <= digits_value(s.subrange(0, k)) <= digits_value(s),
    decreases s.len() - k,
{
    assert(all_digits(s.subrange(0, k)));
    lemma_digits_value_nonneg(s.subrange(0, k));
    if k < s.len() {
        assert(s.subrange(0, k + 1).drop_last() =~= s.subrange(0, k));
        assert(s.subrange(0, k + 1).last() == s[k]);
        lemma_digits_value_prefix(s, k + 1);
    } else {
        assert(s.subrange(0, k) =~= s);
    }
}

/// Every byte scanned past by `digits_end` is a digit.
pub proof fn lemma_digits_end_range(src: Seq<u8>, i: int)
    ensures
        forall|k: int| i <= k < digits_end(src, i) ==> is_digit_byte(#[trigger] src[k]),
    decreases src.len() - i,
{
    if 0 <= i < src.len() && is_digit_byte(src[i]) {
        lemma_digits_end_range(src, i + 1);
    }
}

/// Reads the digit run `src[lo..hi]` as a 32-bit signed integer, or reports
/// that its value is too large for one.
pub fn parse_i32_digits(src: &Vec<u8>, lo: usize, hi: usize) -> (r: Option<i32>)
    requires
        lo <= hi <= src@.len(),
        all_digits(src@.subrange(lo as int, hi as int)),
    ensures
        (match r {
            Some(n) => n >= 0 && n as int == digits_value(src@.subrange(lo as int, hi as int)),
            None => digits_value(src@.subrange(lo as int, hi as int)) > i32::MAX,
        }),
{
    let ghost s = src@.subrange(lo as int, hi as int);
    let mut acc: i32 = 0;
    let mut i: usize = lo;
    while i < hi
        invariant
            lo <= i <= hi <= src@.len(),
            s == src@.subrange(lo as int, hi as int),
            all_digits(s),
            acc >= 0,
            acc as int == digits_value(s.subrange(0, i - lo)),
        decreases hi - i,
    {
        proof {
            assert(s[i - lo] == src@[i as int]);
            assert(s.subrange(0, i - lo + 1).drop_last() =~= s.subrange(0, i - lo));
            assert(s.subrange(0, i - lo + 1).last() == s[i - lo]);
        }
        let d = src[i] - 48;
        let m = match acc.checked_mul(10) {
            Some(m) => m,
            None => {
                proof {
                    lemma_digits_value_prefix(s, i - lo + 1);
                }
                return None;
            },
        };
        let v = match m.checked_add(d as i32) {
            Some(v) => v,
            None => {
                proof {
                    lemma_digits_value_prefix(s, i - lo + 1);
                }
                return None;
            },
        };
        acc = v;
        i = i + 1;
    }
    proof {
        assert(s.subrange(0, hi - lo) =~= s);
    }
    Some(acc)
}

/// Classifies an identifier-shaped lexeme `src[lo..hi]` against the fixed
/// keyword set, byte for byte.
fn kw_lookup(src: &Vec<u8>, lo: usize, hi: usize) -> (k: TokenKind)
    requires
        lo <= hi <= src@.len(),
    ensures
        k == keyword_kind(src@.subrange(lo as int, hi as int)),
{
    let n = hi - lo;
    if n == 2 && src[lo] == 105 && src[lo + 1] == 102 {
        TokenKind::If
    } else if n == 4 && src[lo] == 101 && src[lo + 1] == 108 && src[lo + 2] == 115 && src[lo + 3]
        == 101 {
        TokenKind::Else
    } else if n == 4 && src[lo] == 116 && src[lo + 1] == 114 && src[lo + 2] == 117 && src[lo + 3]
        == 101 {
        TokenKind::True
    } else if n == 5 && src[lo] == 102 && src[lo + 1] == 97 && src[lo + 2] == 108 && src[lo + 3]
        == 115 && src[lo + 4] == 101 {
        TokenKind::False
    } else if n == 3 && src[lo] == 108 && src[lo + 1] == 101 && src[lo + 2] == 116 {
        TokenKind::Let
    } else if n == 2 && src[lo] == 102 && src[lo + 1] == 110 {
        TokenKind::Func
    } else if n == 6 && src[lo] == 114 && src[lo + 1] == 101 && src[lo + 2] == 116 && src[lo + 3]
        == 117 && src[lo + 4] == 114 && src[lo + 5] == 110 {
        TokenKind::Return
    } else {
        TokenKind::Ident
    }
}

} // verus!
