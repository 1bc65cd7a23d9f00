//! The recursive-descent parser: pulls tokens from the scanner with one
//! token of lookahead and builds an expression tree by precedence climbing.
//!
//! The grammar model is the `spec_*` family below: each function takes the
//! source bytes and a stream position (a byte offset at which the next
//! token begins) and gives either the parsed tree together with the
//! position after it, or the first fault, exactly as the parser behaves.
//! The executable methods are proved to return precisely what the model
//! says; the tree they build matches the model's tree node for node
//! ([`expr_matches`]).
//!
//! The grammar, ascending precedence: an expression is an `if`-form or an
//! equality; each binary tier (`==`/`!=`, the orderings, `+`/`-`, `*`/`/`)
//! is left-associative and folds into `Binary` nodes; `unary` admits one
//! `-`; `primary` is a number, `true`, `false`, a parenthesized expression
//! or a braced block. Statements inside a block are parsed shape only and
//! fault as unimplemented, so only the empty block parses.

use vstd::prelude::*;

use crate::ast::expr_matches;
use crate::ast::{BinOp, Block, Expr, ExprKind, ExprKindModel, ExprModel, Literal, Stmt, UnOp};
use crate::error::{Error, ErrorKind};
use crate::lexer::{
    all_digits, digits_value, is_digit_byte, is_ws_byte, lemma_digits_end_bounds,
    lemma_digits_end_range, lemma_scan_bounds, parse_i32_digits, spec_scan, Lexer, Token,
    TokenKind,
};
use crate::span::{spec_merge, Span};

verus! {

/// `q` is a position inside the source: the grammar model is used there.
pub open spec fn in_src(src: Seq<u8>, q: int) -> bool {
    0 <= q <= src.len()
}

/// A parse position advanced from `q` to `p`, kept inside the source: `p`
/// itself whenever `p` lies properly after `q` in range (every successful
/// scan or sub-parse lands there, so for those this changes nothing), and a
/// default inside the range otherwise. It makes the mutual recursion of the
/// grammar functions manifestly well founded.
pub open spec fn step_pos(src: Seq<u8>, q: int, p: int) -> int {
    if q < p <= src.len() {
        p
    } else if q + 1 <= src.len() {
        q + 1
    } else {
        src.len() as int
    }
}

/// Consuming the token at `q`: the parser moves past it and at once pulls
/// the token after it as the new lookahead, so a scanning fault there
/// surfaces at the consumption itself.
pub open spec fn spec_consume(src: Seq<u8>, q: int) -> Result<(Token, int), Error> {
    match spec_scan(src, q) {
        Err(e) => Err(e),
        Ok((t, p)) => match spec_scan(src, p) {
            Err(e) => Err(e),
            Ok(_) => Ok((t, p)),
        },
    }
}

/// Demanding the token kind `kind` at `q`: consumes it when it is next, and
/// faults naming what was expected and what was found otherwise.
pub open spec fn spec_expect(src: Seq<u8>, q: int, kind: TokenKind) -> Result<(Token, int), Error> {
    match spec_scan(src, q) {
        Err(e) => Err(e),
        Ok((t, _)) => {
            if t.kind == kind {
                spec_consume(src, q)
            } else {
                Err(
                    Error {
                        kind: ErrorKind::ExpectedButFound { expected: kind, found: t.kind },
                        span: t.span,
                    },
                )
            }
        },
    }
}

/// A `Number` token scanned at `pos` covers a nonempty digit run lying
/// inside the source, ending exactly at the scan position after the token.
pub proof fn lemma_scan_number(src: Seq<u8>, pos: int)
    requires
        0 <= pos <= src.len(),
        src.len() <= usize::MAX,
    ensures
        (match spec_scan(src, pos) {
            Ok((t, p)) => t.kind == TokenKind::Number ==> 0 <= t.span.lo < t.span.hi <= src.len()
                && t.span.hi as int == p && all_digits(
                src.subrange(t.span.lo as int, t.span.hi as int),
            ),
            Err(_) => true,
        }),
    decreases src.len() - pos,
{
    reveal(spec_scan);
    if pos < src.len() {
        let c = src[pos];
        if is_ws_byte(c) {
            lemma_scan_number(src, pos + 1);
        } else if is_digit_byte(c) {
            lemma_digits_end_bounds(src, pos + 1);
            lemma_digits_end_range(src, pos + 1);
            let hi = crate::lexer::digits_end(src, pos + 1);
            let s = src.subrange(pos, hi);
            assert forall|k: int| 0 <= k < s.len() implies is_digit_byte(#[trigger] s[k]) by {
                assert(s[k] == src[pos + k]);
            }
        }
    }
}

/// expr := 'if' if_expr | equality
pub open spec fn spec_parse_expr(src: Seq<u8>, q: int) -> Result<(ExprModel, int), Error>
    decreases src.len() - q, 10int
    when in_src(src, q)
    via spec_parse_expr_dec
{
    match spec_scan(src, q) {
        Err(e) => Err(e),
        Ok((t, _)) => {
            if t.kind == TokenKind::If {
                match spec_consume(src, q) {
                    Err(e) => Err(e),
                    Ok((_, p)) => spec_if_expr(src, step_pos(src, q, p), t.span),
                }
            } else {
                spec_equality(src, q)
            }
        },
    }
}

/// if_expr := expr '{' expr '}' 'else' '{' expr '}', entered with the `if`
/// token (whose span is `lo`) already consumed. Both branches are
/// mandatory; each unmet expectation faults at the offending token.
pub open spec fn spec_if_expr(src: Seq<u8>, q: int, lo: Span) -> Result<(ExprModel, int), Error>
    decreases src.len() - q, 11int
    when in_src(src, q)
{
    match spec_parse_expr(src, q) {
        Err(e) => Err(e),
        Ok((cond, q1)) => match spec_expect(src, q1, TokenKind::OpenBrace) {
            Err(e) => Err(e),
            Ok((_, p1)) => match spec_parse_expr(src, step_pos(src, q, p1)) {
                Err(e) => Err(e),
                Ok((then_branch, q2)) => match spec_expect(src, q2, TokenKind::CloseBrace) {
                    Err(e) => Err(e),
                    Ok((_, p2)) => match spec_expect(src, p2, TokenKind::Else) {
                        Err(e) => Err(e),
                        Ok((_, p3)) => match spec_expect(src, p3, TokenKind::OpenBrace) {
                            Err(e) => Err(e),
                            Ok((_, p4)) => match spec_parse_expr(src, step_pos(src, q, p4)) {
                                Err(e) => Err(e),
                                Ok((else_branch, q3)) => match spec_expect(
                                    src,
                                    q3,
                                    TokenKind::CloseBrace,
                                ) {
                                    Err(e) => Err(e),
                                    Ok((t4, p5)) => Ok(
                                        (
                                            ExprModel {
                                                kind: ExprKindModel::If(
                                                    Box::new(cond),
                                                    Box::new(then_branch),
                                                    Box::new(else_branch),
                                                ),
                                                span: spec_merge(lo, t4.span),
                                            },
                                            p5,
                                        ),
                                    ),
                                },
                            },
                        },
                    },
                },
            },
        },
    }
}

/// equality := comparison (('!='|'==') comparison)*
pub open spec fn spec_equality(src: Seq<u8>, q: int) -> Result<(ExprModel, int), Error>
    decreases src.len() - q, 9int
    when in_src(src, q)
{
    match spec_comparison(src, q) {
        Err(e) => Err(e),
        Ok((left, q1)) => spec_equality_rest(src, left, step_pos(src, q, q1)),
    }
}

/// The left-associative fold of the equality tier: while `!=` or `==` is
/// next, consume it, parse the next comparison, and fold into a `Binary`
/// node spanning both operands.
pub open spec fn spec_equality_rest(src: Seq<u8>, left: ExprModel, q: int) -> Result<
    (ExprModel, int),
    Error,
>
    decreases src.len() - q, 8int
    when in_src(src, q)
    via spec_equality_rest_dec
{
    match spec_scan(src, q) {
        Err(e) => Err(e),
        Ok((t, _)) => {
            if t.kind == TokenKind::Ne || t.kind == TokenKind::EqEq {
                let op = if t.kind == TokenKind::Ne {
                    BinOp::Ne
                } else {
                    BinOp::Eq
                };
                match spec_consume(src, q) {
                    Err(e) => Err(e),
                    Ok((_, p)) => match spec_comparison(src, step_pos(src, q, p)) {
                        Err(e) => Err(e),
                        Ok((right, q2)) => {
                            let merged = ExprModel {
                                kind: ExprKindModel::Binary(op, Box::new(left), Box::new(right)),
                                span: spec_merge(left.span, right.span),
                            };
                            spec_equality_rest(src, merged, step_pos(src, q, q2))
                        },
                    },
                }
            } else {
                Ok((left, q))
            }
        },
    }
}

/// comparison := addition (('>='|'>'|'<='|'<') addition)*
pub open spec fn spec_comparison(src: Seq<u8>, q: int) -> Result<(ExprModel, int), Error>
    decreases src.len() - q, 7int
    when in_src(src, q)
{
    match spec_addition(src, q) {
        Err(e) => Err(e),
        Ok((left, q1)) => spec_comparison_rest(src, left, step_pos(src, q, q1)),
    }
}

/// The left-associative fold of the comparison tier.
pub open spec fn spec_comparison_rest(src: Seq<u8>, left: ExprModel, q: int) -> Result<
    (ExprModel, int),
    Error,
>
    decreases src.len() - q, 6int
    when in_src(src, q)
    via spec_comparison_rest_dec
{
    match spec_scan(src, q) {
        Err(e) => Err(e),
        Ok((t, _)) => {
            if t.kind == TokenKind::Ge || t.kind == TokenKind::Gt || t.kind == TokenKind::Le
                || t.kind == TokenKind::Lt {
                let op = if t.kind == TokenKind::Ge {
                    BinOp::Ge
                } else if t.kind == TokenKind::Gt {
                    BinOp::Gt
                } else if t.kind == TokenKind::Le {
                    BinOp::Le
                } else {
                    BinOp::Lt
                };
                match spec_consume(src, q) {
                    Err(e) => Err(e),
                    Ok((_, p)) => match spec_addition(src, step_pos(src, q, p)) {
                        Err(e) => Err(e),
                        Ok((right, q2)) => {
                            let merged = ExprModel {
                                kind: ExprKindModel::Binary(op, Box::new(left), Box::new(right)),
                                span: spec_merge(left.span, right.span),
                            };
                            spec_comparison_rest(src, merged, step_pos(src, q, q2))
                        },
                    },
                }
            } else {
                Ok((left, q))
            }
        },
    }
}

/// addition := multiplication (('+'|'-') multiplication)*
pub open spec fn spec_addition(src: Seq<u8>, q: int) -> Result<(ExprModel, int), Error>
    decreases src.len() - q, 5int
    when in_src(src, q)
{
    match spec_multiplication(src, q) {
        Err(e) => Err(e),
        Ok((left, q1)) => spec_addition_rest(src, left, step_pos(src, q, q1)),
    }
}

/// The left-associative fold of the additive tier.
pub open spec fn spec_addition_rest(src: Seq<u8>, left: ExprModel, q: int) -> Result<
    (ExprModel, int),
    Error,
>
    decreases src.len() - q, 4int
    when in_src(src, q)
    via spec_addition_rest_dec
{
    match spec_scan(src, q) {
        Err(e) => Err(e),
        Ok((t, _)) => {
            if t.kind == TokenKind::Plus || t.kind == TokenKind::Minus {
                let op = if t.kind == TokenKind::Plus {
                    BinOp::Add
                } else {
                    BinOp::Sub
                };
                match spec_consume(src, q) {
                    Err(e) => Err(e),
                    Ok((_, p)) => match spec_multiplication(src, step_pos(src, q, p)) {
                        Err(e) => Err(e),
                        Ok((right, q2)) => {
                            let merged = ExprModel {
                                kind: ExprKindModel::Binary(op, Box::new(left), Box::new(right)),
                                span: spec_merge(left.span, right.span),
                            };
                            spec_addition_rest(src, merged, step_pos(src, q, q2))
                        },
                    },
                }
            } else {
                Ok((left, q))
            }
        },
    }
}

/// multiplication := unary (('*'|'/') unary)*
pub open spec fn spec_multiplication(src: Seq<u8>, q: int) -> Result<(ExprModel, int), Error>
    decreases src.len() - q, 3int
    when in_src(src, q)
{
    match spec_unary(src, q) {
        Err(e) => Err(e),
        Ok((left, q1)) => spec_multiplication_rest(src, left, step_pos(src, q, q1)),
    }
}

/// The left-associative fold of the multiplicative tier.
pub open spec fn spec_multiplication_rest(src: Seq<u8>, left: ExprModel, q: int) -> Result<
    (ExprModel, int),
    Error,
>
    decreases src.len() - q, 2int
    when in_src(src, q)
    via spec_multiplication_rest_dec
{
    match spec_scan(src, q) {
        Err(e) => Err(e),
        Ok((t, _)) => {
            if t.kind == TokenKind::Star || t.kind == TokenKind::Slash {
                let op = if t.kind == TokenKind::Star {
                    BinOp::Mul
                } else {
                    BinOp::Div
                };
                match spec_consume(src, q) {
                    Err(e) => Err(e),
                    Ok((_, p)) => match spec_unary(src, step_pos(src, q, p)) {
                        Err(e) => Err(e),
                        Ok((right, q2)) => {
                            let merged = ExprModel {
                                kind: ExprKindModel::Binary(op, Box::new(left), Box::new(right)),
                                span: spec_merge(left.span, right.span),
                            };
                            spec_multiplication_rest(src, merged, step_pos(src, q, q2))
                        },
                    },
                }
            } else {
                Ok((left, q))
            }
        },
    }
}

/// unary := '-' primary | primary; a `-` node spans from the sign through
/// its operand.
pub open spec fn spec_unary(src: Seq<u8>, q: int) -> Result<(ExprModel, int), Error>
    decreases src.len() - q, 1int
    when in_src(src, q)
{
    match spec_scan(src, q) {
        Err(e) => Err(e),
        Ok((t, _)) => {
            if t.kind == TokenKind::Minus {
                match spec_consume(src, q) {
                    Err(e) => Err(e),
                    Ok((_, p)) => match spec_primary(src, step_pos(src, q, p)) {
                        Err(e) => Err(e),
                        Ok((operand, q1)) => Ok(
                            (
                                ExprModel {
                                    kind: ExprKindModel::Unary(UnOp::Neg, Box::new(operand)),
                                    span: spec_merge(t.span, operand.span),
                                },
                                q1,
                            ),
                        ),
                    },
                }
            } else {
                spec_primary(src, q)
            }
        },
    }
}

/// primary := NUMBER | 'true' | 'false' | '(' expr ')' | '{' block '}'.
/// A numeric literal is the token's exact digit run read as a 32-bit
/// signed integer; a value that does not fit faults at the literal. Any
/// other token in primary position faults as unexpected.
pub open spec fn spec_primary(src: Seq<u8>, q: int) -> Result<(ExprModel, int), Error>
    decreases src.len() - q, 0int
    when in_src(src, q)
    via spec_primary_dec
{
    match spec_scan(src, q) {
        Err(e) => Err(e),
        Ok((t, _)) => {
            if t.kind == TokenKind::Number {
                match spec_consume(src, q) {
                    Err(e) => Err(e),
                    Ok((_, p)) => {
                        let s = src.subrange(t.span.lo as int, t.span.hi as int);
                        if digits_value(s) > i32::MAX {
                            Err(Error { kind: ErrorKind::NumberTooLarge, span: t.span })
                        } else {
                            Ok(
                                (
                                    ExprModel {
                                        kind: ExprKindModel::Literal(
                                            Literal::Num(digits_value(s) as i32),
                                        ),
                                        span: t.span,
                                    },
                                    p,
                                ),
                            )
                        }
                    },
                }
            } else if t.kind == TokenKind::OpenParen {
                match spec_consume(src, q) {
                    Err(e) => Err(e),
                    Ok((_, p)) => match spec_parse_expr(src, step_pos(src, q, p)) {
                        Err(e) => Err(e),
                        Ok((inner, q1)) => match spec_expect(src, q1, TokenKind::CloseParen) {
                            Err(e) => Err(e),
                            Ok((t2, p2)) => Ok(
                                (
                                    ExprModel {
                                        kind: ExprKindModel::Grouping(Box::new(inner)),
                                        span: spec_merge(t.span, t2.span),
                                    },
                                    p2,
                                ),
                            ),
                        },
                    },
                }
            } else if t.kind == TokenKind::True || t.kind == TokenKind::False {
                match spec_consume(src, q) {
                    Err(e) => Err(e),
                    Ok((_, p)) => Ok(
                        (
                            ExprModel {
                                kind: ExprKindModel::Literal(
                                    Literal::Bool(t.kind == TokenKind::True),
                                ),
                                span: t.span,
                            },
                            p,
                        ),
                    ),
                }
            } else if t.kind == TokenKind::OpenBrace {
                match spec_consume(src, q) {
                    Err(e) => Err(e),
                    Ok((_, p)) => match spec_block(src, step_pos(src, q, p)) {
                        Err(e) => Err(e),
                        Ok((close, p2)) => Ok(
                            (
                                ExprModel {
                                    kind: ExprKindModel::Block(Seq::empty()),
                                    span: spec_merge(t.span, close),
                                },
                                p2,
                            ),
                        ),
                    },
                }
            } else {
                Err(Error { kind: ErrorKind::UnexpectedToken(t.kind), span: t.span })
            }
        },
    }
}

/// block := stmt* '}', entered with `{` already consumed. Statement
/// execution is out of this core: any statement faults as unimplemented,
/// so only the empty block succeeds, yielding the closing brace's span and
/// the position after it. A missing `}` faults at the end of input.
pub open spec fn spec_block(src: Seq<u8>, q: int) -> Result<(Span, int), Error> {
    match spec_scan(src, q) {
        Err(e) => Err(e),
        Ok((t, _)) => {
            if t.kind == TokenKind::CloseBrace {
                match spec_consume(src, q) {
                    Err(e) => Err(e),
                    Ok((_, p)) => Ok((t.span, p)),
                }
            } else if t.kind == TokenKind::Eof {
                Err(
                    Error {
                        kind: ErrorKind::ExpectedButFound {
                            expected: TokenKind::CloseBrace,
                            found: TokenKind::Eof,
                        },
                        span: t.span,
                    },
                )
            } else {
                Err(spec_parse_stmt(src, q))
            }
        },
    }
}

/// Statement parsing is out of this core: it faults as unimplemented at
/// the statement's first token.
pub open spec fn spec_parse_stmt(src: Seq<u8>, q: int) -> Error {
    match spec_scan(src, q) {
        Err(e) => e,
        Ok((t, _)) => Error { kind: ErrorKind::UnimplementedFeature, span: t.span },
    }
}

/// The whole boundary in one call: the tree of the expression that opens
/// the source text, or the first fault met while reaching it. Trailing
/// input after that expression is left unread, but its first token is
/// pulled as lookahead, so a scanning fault there still surfaces.
pub open spec fn spec_parse(src: Seq<u8>) -> Result<ExprModel, Error> {
    match spec_parse_expr(src, 0) {
        Ok((m, _)) => Ok(m),
        Err(e) => Err(e),
    }
}

#[via_fn]
proof fn spec_parse_expr_dec(src: Seq<u8>, q: int) {
    lemma_scan_bounds(src, q);
}

#[via_fn]
proof fn spec_equality_rest_dec(src: Seq<u8>, left: ExprModel, q: int) {
    lemma_scan_bounds(src, q);
}

#[via_fn]
proof fn spec_comparison_rest_dec(src: Seq<u8>, left: ExprModel, q: int) {
    lemma_scan_bounds(src, q);
}

#[via_fn]
proof fn spec_addition_rest_dec(src: Seq<u8>, left: ExprModel, q: int) {
    lemma_scan_bounds(src, q);
}

#[via_fn]
proof fn spec_multiplication_rest_dec(src: Seq<u8>, left: ExprModel, q: int) {
    lemma_scan_bounds(src, q);
}

#[via_fn]
proof fn spec_primary_dec(src: Seq<u8>, q: int) {
    lemma_scan_bounds(src, q);
}

/// Parses the source text into a tree: exactly the model [`spec_parse`],
/// tree and fault alike.
pub fn parse(source: Vec<u8>) -> (r: Result<Expr, Error>)
    ensures
        (match spec_parse(source@) {
            Ok(m) => r matches Ok(e) && expr_matches(e, m),
            Err(er) => r == Err::<Expr, Error>(er),
        }),
{
    let mut parser = match Parser::new(source) {
        Ok(p) => p,
        Err(e) => {
            return Err(e);
        },
    };
    parser.parse_expr()
}

/// The recursive-descent consumer of the token stream: the scanner, one
/// token of lookahead, the most recently consumed token, and the stream
/// position the lookahead was scanned at.
pub struct Parser {
    lexer: Lexer,
    token: Token,
    prev: Token,
    cur: Ghost<int>,
}

impl Parser {
    /// The source bytes being parsed.
    pub closed spec fn src(&self) -> Seq<u8> {
        self.lexer.src()
    }

    /// The stream position before the current lookahead token.
    pub closed spec fn pos(&self) -> int {
        self.cur@
    }

    /// The current lookahead token.
    pub closed spec fn lookahead(&self) -> Token {
        self.token
    }

    /// The most recently consumed token.
    pub closed spec fn prev_tok(&self) -> Token {
        self.prev
    }

    /// The lookahead token is exactly what scanning at the stream position
    /// yields, with the scanner standing just after it.
    pub closed spec fn wf(&self) -> bool {
        &&& self.lexer.wf()
        &&& 0 <= self.cur@ <= self.src().len()
        &&& spec_scan(self.src(), self.cur@) == Ok::<(Token, int), Error>(
            (self.token, self.lexer.pos() as int),
        )
    }

    /// How much input is left: the unscanned bytes, plus one for a pending
    /// non-`Eof` lookahead. Every consumed token strictly shrinks it.
    pub closed spec fn measure(&self) -> int {
        self.src().len() - self.lexer.pos() + if self.token.kind == TokenKind::Eof {
            0int
        } else {
            1int
        }
    }

    /// Scans the first token of `source` as lookahead; faults exactly when
    /// that token does.
    pub fn new(source: Vec<u8>) -> (r: Result<Parser, Error>)
        ensures
            (match r {
                Ok(p) => p.wf() && p.src() == source@ && p.pos() == 0,
                Err(e) => spec_scan(source@, 0) == Err::<(Token, int), Error>(e),
            }),
    {
        let mut lexer = Lexer::new(source);
        match lexer.next_token() {
            Ok(t) => Ok(Parser { lexer, token: t, prev: Token::dummy(), cur: Ghost(0) }),
            Err(e) => Err(e),
        }
    }

    fn check(&self, kind: TokenKind) -> (b: bool)
        ensures
            b == (self.lookahead().kind == kind),
    {
        self.token.kind == kind
    }

    fn eof(&self) -> (b: bool)
        ensures
            b == (self.lookahead().kind == TokenKind::Eof),
    {
        self.check(TokenKind::Eof)
    }

    /// Consumes the lookahead and pulls the token after it; faults exactly
    /// when scanning the new lookahead does.
    fn advance(&mut self) -> (r: Result<(), Error>)
        requires
            old(self).wf(),
            old(self).lookahead().kind != TokenKind::Eof,
        ensures
            final(self).src() == old(self).src(),
            (match r {
                Ok(_) => final(self).wf() && spec_consume(old(self).src(), old(self).pos()) == Ok::<(Token, int), Error>((old(self).lookahead(), final(self).pos())) && final(self).prev_tok() == old(self).lookahead() && old(self).pos() < final(self).pos() <= old(self).src().len() && final(self).measure() < old(self).measure(),
                Err(e) => spec_consume(old(self).src(), old(self).pos()) == Err::<(Token, int), Error>(e),
            }),
    {
        proof {
            lemma_scan_bounds(self.src(), self.pos());
        }
        self.prev = self.token;
        let ghost newcur = self.lexer.pos() as int;
        match self.lexer.next_token() {
            Ok(t) => {
                self.token = t;
                self.cur = Ghost(newcur);
                proof {
                    lemma_scan_bounds(self.src(), newcur);
                }
                Ok(())
            },
            Err(e) => Err(e),
        }
    }

    /// Consumes the lookahead when it has the given kind; reports whether
    /// it did.
    fn eat(&mut self, kind: TokenKind) -> (r: Result<bool, Error>)
        requires
            old(self).wf(),
            kind != TokenKind::Eof,
        ensures
            final(self).src() == old(self).src(),
            (match r {
                Ok(b) => b == (old(self).lookahead().kind == kind) && (b ==> final(self).wf() && spec_consume(old(self).src(), old(self).pos()) == Ok::<(Token, int), Error>((old(self).lookahead(), final(self).pos())) && final(self).prev_tok() == old(self).lookahead() && old(self).pos() < final(self).pos() <= old(self).src().len() && final(self).measure() < old(self).measure()) && (!b ==> *final(self) == *old(self)),
                Err(e) => old(self).lookahead().kind == kind && spec_consume(old(self).src(), old(self).pos()) == Err::<(Token, int), Error>(e),
            }),
    {
        if self.check(kind) {
            match self.advance() {
                Ok(()) => Ok(true),
                Err(e) => Err(e),
            }
        } else {
            Ok(false)
        }
    }

    /// Demands the given token kind: consumes it and returns it, or faults
    /// naming what was expected and what was found. Exactly
    /// [`spec_expect`].
    fn expect(&mut self, kind: TokenKind) -> (r: Result<Token, Error>)
        requires
            old(self).wf(),
            kind != TokenKind::Eof,
        ensures
            final(self).src() == old(self).src(),
            (match r {
                Ok(t) => t == old(self).lookahead() && final(self).wf() && spec_expect(old(self).src(), old(self).pos(), kind) == Ok::<(Token, int), Error>((t, final(self).pos())) && final(self).prev_tok() == t && old(self).pos() < final(self).pos() <= old(self).src().len() && final(self).measure() < old(self).measure(),
                Err(e) => spec_expect(old(self).src(), old(self).pos(), kind) == Err::<(Token, int), Error>(e),
            }),
    {
        let t = self.token;
        if self.check(kind) {
            match self.advance() {
                Ok(()) => Ok(t),
                Err(e) => Err(e),
            }
        } else {
            Err(
                Error {
                    kind: ErrorKind::ExpectedButFound { expected: kind, found: t.kind },
                    span: t.span,
                },
            )
        }
    }

    /// Statement parsing is out of this core: always faults as
    /// unimplemented, at the current token.
    pub fn parse_stmt(&mut self) -> (r: Result<Stmt, Error>)
        requires
            old(self).wf(),
        ensures
            *final(self) == *old(self),
            r == Err::<Stmt, Error>(spec_parse_stmt(old(self).src(), old(self).pos())),
    {
        Err(Error { kind: ErrorKind::UnimplementedFeature, span: self.token.span })
    }

    /// Parses one expression: exactly the grammar model
    /// [`spec_parse_expr`], tree, end position and fault alike.
    #[verifier::rlimit(60)]
    pub fn parse_expr(&mut self) -> (r: Result<Expr, Error>)
        requires
            old(self).wf(),
        ensures
            final(self).src() == old(self).src(),
            (match spec_parse_expr(old(self).src(), old(self).pos()) {
                Ok((m, p)) => (r matches Ok(e) && expr_matches(e, m)) && final(self).wf() && final(self).pos() == p && old(self).pos() < p <= old(self).src().len() && final(self).measure() < old(self).measure(),
                Err(er) => r == Err::<Expr, Error>(er),
            }),
        decreases self.measure(), 10int,
    {
        let ghost src = self.src();
        let ghost q0 = self.pos();
        let ghost t0 = self.token;
        proof {
            self.lexer.wf_bounds();
            assert(self.measure() >= 0);
            lemma_scan_bounds(src, q0);
        }
        match self.eat(TokenKind::If) {
            Err(e) => {
                proof {
                    assert(spec_parse_expr(src, q0) == Err::<(ExprModel, int), Error>(e));
                }
                Err(e)
            },
            Ok(true) => {
                let ghost pa = self.pos();
                proof {
                    self.lexer.wf_bounds();
                    assert(self.measure() >= 0);
                    assert(self.measure() < old(self).measure());
                    assert(step_pos(src, q0, pa) == pa);
                }
                let r = self.if_expr();
                proof {
                    assert(spec_parse_expr(src, q0) == spec_if_expr(src, pa, t0.span));
                }
                r
            },
            Ok(false) => {
                let r = self.equality();
                proof {
                    assert(spec_parse_expr(src, q0) == spec_equality(src, q0));
                }
                r
            },
        }
    }

    /// The `if` form, entered with `if` just consumed; see
    /// [`spec_if_expr`].
    #[verifier::rlimit(60)]
    fn if_expr(&mut self) -> (r: Result<Expr, Error>)
        requires
            old(self).wf(),
        ensures
            final(self).src() == old(self).src(),
            (match spec_if_expr(old(self).src(), old(self).pos(), old(self).prev_tok().span) {
                Ok((m, p)) => (r matches Ok(e) && expr_matches(e, m)) && final(self).wf() && final(self).pos() == p && old(self).pos() < p <= old(self).src().len() && final(self).measure() < old(self).measure(),
                Err(er) => r == Err::<Expr, Error>(er),
            }),
        decreases self.measure(), 11int,
    {
        let ghost src = self.src();
        let ghost q0 = self.pos();
        let lo = self.prev.span;
        proof {
            self.lexer.wf_bounds();
            assert(self.measure() >= 0);
        }
        let cond = match self.parse_expr() {
            Ok(e) => e,
            Err(e) => {
                proof {
                    assert(spec_if_expr(src, q0, lo) == Err::<(ExprModel, int), Error>(e));
                }
                return Err(e);
            },
        };
        let ghost cm = spec_parse_expr(src, q0)->Ok_0.0;
        let ghost q1 = self.pos();
        proof {
            assert(spec_parse_expr(src, q0) == Ok::<(ExprModel, int), Error>((cm, q1)));
        }
        match self.expect(TokenKind::OpenBrace) {
            Ok(_) => (),
            Err(e) => {
                proof {
                    assert(spec_if_expr(src, q0, lo) == Err::<(ExprModel, int), Error>(e));
                }
                return Err(e);
            },
        };
        let ghost p1 = self.pos();
        proof {
            self.lexer.wf_bounds();
            assert(self.measure() >= 0);
            assert(self.measure() < old(self).measure());
            assert(step_pos(src, q0, p1) == p1);
        }
        let then_branch = match self.parse_expr() {
            Ok(e) => e,
            Err(e) => {
                proof {
                    assert(spec_if_expr(src, q0, lo) == Err::<(ExprModel, int), Error>(e));
                }
                return Err(e);
            },
        };
        let ghost tm = spec_parse_expr(src, p1)->Ok_0.0;
        let ghost q2 = self.pos();
        proof {
            assert(spec_parse_expr(src, p1) == Ok::<(ExprModel, int), Error>((tm, q2)));
        }
        match self.expect(TokenKind::CloseBrace) {
            Ok(_) => (),
            Err(e) => {
                proof {
                    assert(spec_if_expr(src, q0, lo) == Err::<(ExprModel, int), Error>(e));
                }
                return Err(e);
            },
        };
        match self.expect(TokenKind::Else) {
            Ok(_) => (),
            Err(e) => {
                proof {
                    assert(spec_if_expr(src, q0, lo) == Err::<(ExprModel, int), Error>(e));
                }
                return Err(e);
            },
        };
        match self.expect(TokenKind::OpenBrace) {
            Ok(_) => (),
            Err(e) => {
                proof {
                    assert(spec_if_expr(src, q0, lo) == Err::<(ExprModel, int), Error>(e));
                }
                return Err(e);
            },
        };
        let ghost p4 = self.pos();
        proof {
            self.lexer.wf_bounds();
            assert(self.measure() >= 0);
            assert(self.measure() < old(self).measure());
            assert(step_pos(src, q0, p4) == p4);
        }
        let else_branch = match self.parse_expr() {
            Ok(e) => e,
            Err(e) => {
                proof {
                    assert(spec_if_expr(src, q0, lo) == Err::<(ExprModel, int), Error>(e));
                }
                return Err(e);
            },
        };
        let ghost em = spec_parse_expr(src, p4)->Ok_0.0;
        let ghost q3 = self.pos();
        proof {
            assert(spec_parse_expr(src, p4) == Ok::<(ExprModel, int), Error>((em, q3)));
        }
        let t4 = match self.expect(TokenKind::CloseBrace) {
            Ok(t) => t,
            Err(e) => {
                proof {
                    assert(spec_if_expr(src, q0, lo) == Err::<(ExprModel, int), Error>(e));
                }
                return Err(e);
            },
        };
        let span = lo.to(t4.span);
        let result = Expr {
            kind: ExprKind::If(Box::new(cond), Box::new(then_branch), Box::new(else_branch)),
            span,
        };
        proof {
            let m = ExprModel {
                kind: ExprKindModel::If(Box::new(cm), Box::new(tm), Box::new(em)),
                span: spec_merge(lo, t4.span),
            };
            assert(spec_if_expr(src, q0, lo) == Ok::<(ExprModel, int), Error>((m, self.pos())));
            assert(expr_matches(result, m));
        }
        Ok(result)
    }

    /// The equality tier; see [`spec_equality`].
    #[verifier::rlimit(60)]
    #[verifier::loop_isolation(false)]
    fn equality(&mut self) -> (r: Result<Expr, Error>)
        requires
            old(self).wf(),
        ensures
            final(self).src() == old(self).src(),
            (match spec_equality(old(self).src(), old(self).pos()) {
                Ok((m, p)) => (r matches Ok(e) && expr_matches(e, m)) && final(self).wf() && final(self).pos() == p && old(self).pos() < p <= old(self).src().len() && final(self).measure() < old(self).measure(),
                Err(er) => r == Err::<Expr, Error>(er),
            }),
        decreases self.measure(), 9int,
    {
        let ghost src = self.src();
        let ghost q0 = self.pos();
        proof {
            self.lexer.wf_bounds();
            assert(self.measure() >= 0);
        }
        let mut left = match self.comparison() {
            Ok(e) => e,
            Err(e) => {
                proof {
                    assert(spec_equality(src, q0) == Err::<(ExprModel, int), Error>(e));
                }
                return Err(e);
            },
        };
        let ghost mut lm = spec_comparison(src, q0)->Ok_0.0;
        proof {
            assert(spec_comparison(src, q0) == Ok::<(ExprModel, int), Error>((lm, self.pos())));
            assert(step_pos(src, q0, self.pos()) == self.pos());
            assert(spec_equality(src, q0) == spec_equality_rest(src, lm, self.pos()));
        }
        while self.check(TokenKind::Ne) || self.check(TokenKind::EqEq)
            invariant
                self.wf(),
                src == old(self).src(),
                q0 == old(self).pos(),
                self.src() == src,
                0 <= q0 <= src.len(),
                q0 < self.pos() <= src.len(),
                self.measure() < old(self).measure(),
                expr_matches(left, lm),
                spec_equality(src, q0) == spec_equality_rest(src, lm, self.pos()),
            decreases self.measure(),
        {
            let ghost qa = self.pos();
            let ghost lma = lm;
            proof {
                self.lexer.wf_bounds();
                assert(self.measure() >= 0);
                lemma_scan_bounds(src, qa);
            }
            let op = if self.check(TokenKind::Ne) {
                BinOp::Ne
            } else {
                BinOp::Eq
            };
            match self.advance() {
                Ok(()) => (),
                Err(e) => {
                    proof {
                        assert(spec_equality_rest(src, lma, qa) == Err::<(ExprModel, int), Error>(e));
                    }
                    return Err(e);
                },
            };
            let ghost pa = self.pos();
            proof {
                self.lexer.wf_bounds();
                assert(self.measure() >= 0);
                assert(self.measure() < old(self).measure());
                assert(step_pos(src, qa, pa) == pa);
            }
            let right = match self.comparison() {
                Ok(e) => e,
                Err(e) => {
                    proof {
                        assert(spec_comparison(src, pa) == Err::<(ExprModel, int), Error>(e));
                        assert(spec_equality_rest(src, lma, qa) == Err::<(ExprModel, int), Error>(e));
                    }
                    return Err(e);
                },
            };
            let ghost rm = spec_comparison(src, pa)->Ok_0.0;
            let span = left.span.to(right.span);
            left = Expr { kind: ExprKind::Binary(op, Box::new(left), Box::new(right)), span };
            proof {
                lm =
                ExprModel {
                    kind: ExprKindModel::Binary(op, Box::new(lma), Box::new(rm)),
                    span: spec_merge(lma.span, rm.span),
                };
                self.lexer.wf_bounds();
                assert(spec_comparison(src, pa) == Ok::<(ExprModel, int), Error>((rm, self.pos())));
                assert(step_pos(src, qa, self.pos()) == self.pos());
                assert(spec_equality_rest(src, lma, qa) == spec_equality_rest(src, lm, self.pos()));
                assert(expr_matches(left, lm));
            }
        }
        proof {
            assert(spec_equality_rest(src, lm, self.pos()) == Ok::<(ExprModel, int), Error>((lm, self.pos())));
        }
        Ok(left)
    }

    /// The comparison tier; see [`spec_comparison`].
    #[verifier::rlimit(60)]
    #[verifier::loop_isolation(false)]
    fn comparison(&mut self) -> (r: Result<Expr, Error>)
        requires
            old(self).wf(),
        ensures
            final(self).src() == old(self).src(),
            (match spec_comparison(old(self).src(), old(self).pos()) {
                Ok((m, p)) => (r matches Ok(e) && expr_matches(e, m)) && final(self).wf() && final(self).pos() == p && old(self).pos() < p <= old(self).src().len() && final(self).measure() < old(self).measure(),
                Err(er) => r == Err::<Expr, Error>(er),
            }),
        decreases self.measure(), 7int,
    {
        let ghost src = self.src();
        let ghost q0 = self.pos();
        proof {
            self.lexer.wf_bounds();
            assert(self.measure() >= 0);
        }
        let mut left = match self.addition() {
            Ok(e) => e,
            Err(e) => {
                proof {
                    assert(spec_comparison(src, q0) == Err::<(ExprModel, int), Error>(e));
                }
                return Err(e);
            },
        };
        let ghost mut lm = spec_addition(src, q0)->Ok_0.0;
        proof {
            assert(spec_addition(src, q0) == Ok::<(ExprModel, int), Error>((lm, self.pos())));
            assert(step_pos(src, q0, self.pos()) == self.pos());
            assert(spec_comparison(src, q0) == spec_comparison_rest(src, lm, self.pos()));
        }
        while self.check(TokenKind::Ge) || self.check(TokenKind::Gt) || self.check(TokenKind::Le)
            || self.check(TokenKind::Lt)
            invariant
                self.wf(),
                src == old(self).src(),
                q0 == old(self).pos(),
                self.src() == src,
                0 <= q0 <= src.len(),
                q0 < self.pos() <= src.len(),
                self.measure() < old(self).measure(),
                expr_matches(left, lm),
                spec_comparison(src, q0) == spec_comparison_rest(src, lm, self.pos()),
            decreases self.measure(),
        {
            let ghost qa = self.pos();
            let ghost lma = lm;
            proof {
                self.lexer.wf_bounds();
                assert(self.measure() >= 0);
                lemma_scan_bounds(src, qa);
            }
            let op = if self.check(TokenKind::Ge) {
                BinOp::Ge
            } else if self.check(TokenKind::Gt) {
                BinOp::Gt
            } else if self.check(TokenKind::Le) {
                BinOp::Le
            } else {
                BinOp::Lt
            };
            match self.advance() {
                Ok(()) => (),
                Err(e) => {
                    proof {
                        assert(spec_comparison_rest(src, lma, qa) == Err::<(ExprModel, int), Error>(e));
                    }
                    return Err(e);
                },
            };
            let ghost pa = self.pos();
            proof {
                self.lexer.wf_bounds();
                assert(self.measure() >= 0);
                assert(self.measure() < old(self).measure());
                assert(step_pos(src, qa, pa) == pa);
            }
            let right = match self.addition() {
                Ok(e) => e,
                Err(e) => {
                    proof {
                        assert(spec_addition(src, pa) == Err::<(ExprModel, int), Error>(e));
                        assert(spec_comparison_rest(src, lma, qa) == Err::<(ExprModel, int), Error>(e));
                    }
                    return Err(e);
                },
            };
            let ghost rm = spec_addition(src, pa)->Ok_0.0;
            let span = left.span.to(right.span);
            left = Expr { kind: ExprKind::Binary(op, Box::new(left), Box::new(right)), span };
            proof {
                lm =
                ExprModel {
                    kind: ExprKindModel::Binary(op, Box::new(lma), Box::new(rm)),
                    span: spec_merge(lma.span, rm.span),
                };
                self.lexer.wf_bounds();
                assert(spec_addition(src, pa) == Ok::<(ExprModel, int), Error>((rm, self.pos())));
                assert(step_pos(src, qa, self.pos()) == self.pos());
                assert(spec_comparison_rest(src, lma, qa) == spec_comparison_rest(src, lm, self.pos()));
                assert(expr_matches(left, lm));
            }
        }
        proof {
            assert(spec_comparison_rest(src, lm, self.pos()) == Ok::<(ExprModel, int), Error>((lm, self.pos())));
        }
        Ok(left)
    }

    /// The additive tier; see [`spec_addition`].
    #[verifier::rlimit(60)]
    #[verifier::loop_isolation(false)]
    fn addition(&mut self) -> (r: Result<Expr, Error>)
        requires
            old(self).wf(),
        ensures
            final(self).src() == old(self).src(),
            (match spec_addition(old(self).src(), old(self).pos()) {
                Ok((m, p)) => (r matches Ok(e) && expr_matches(e, m)) && final(self).wf() && final(self).pos() == p && old(self).pos() < p <= old(self).src().len() && final(self).measure() < old(self).measure(),
                Err(er) => r == Err::<Expr, Error>(er),
            }),
        decreases self.measure(), 5int,
    {
        let ghost src = self.src();
        let ghost q0 = self.pos();
        proof {
            self.lexer.wf_bounds();
            assert(self.measure() >= 0);
        }
        let mut left = match self.multiplication() {
            Ok(e) => e,
            Err(e) => {
                proof {
                    assert(spec_addition(src, q0) == Err::<(ExprModel, int), Error>(e));
                }
                return Err(e);
            },
        };
        let ghost mut lm = spec_multiplication(src, q0)->Ok_0.0;
        proof {
            assert(spec_multiplication(src, q0) == Ok::<(ExprModel, int), Error>((lm, self.pos())));
            assert(step_pos(src, q0, self.pos()) == self.pos());
            assert(spec_addition(src, q0) == spec_addition_rest(src, lm, self.pos()));
        }
        while self.check(TokenKind::Plus) || self.check(TokenKind::Minus)
            invariant
                self.wf(),
                src == old(self).src(),
                q0 == old(self).pos(),
                self.src() == src,
                0 <= q0 <= src.len(),
                q0 < self.pos() <= src.len(),
                self.measure() < old(self).measure(),
                expr_matches(left, lm),
                spec_addition(src, q0) == spec_addition_rest(src, lm, self.pos()),
            decreases self.measure(),
        {
            let ghost qa = self.pos();
            let ghost lma = lm;
            proof {
                self.lexer.wf_bounds();
                assert(self.measure() >= 0);
                lemma_scan_bounds(src, qa);
            }
            let op = if self.check(TokenKind::Plus) {
                BinOp::Add
            } else {
                BinOp::Sub
            };
            match self.advance() {
                Ok(()) => (),
                Err(e) => {
                    proof {
                        assert(spec_addition_rest(src, lma, qa) == Err::<(ExprModel, int), Error>(e));
                    }
                    return Err(e);
                },
            };
            let ghost pa = self.pos();
            proof {
                self.lexer.wf_bounds();
                assert(self.measure() >= 0);
                assert(self.measure() < old(self).measure());
                assert(step_pos(src, qa, pa) == pa);
            }
            let right = match self.multiplication() {
                Ok(e) => e,
                Err(e) => {
                    proof {
                        assert(spec_multiplication(src, pa) == Err::<(ExprModel, int), Error>(e));
                        assert(spec_addition_rest(src, lma, qa) == Err::<(ExprModel, int), Error>(e));
                    }
                    return Err(e);
                },
            };
            let ghost rm = spec_multiplication(src, pa)->Ok_0.0;
            let span = left.span.to(right.span);
            left = Expr { kind: ExprKind::Binary(op, Box::new(left), Box::new(right)), span };
            proof {
                lm =
                ExprModel {
                    kind: ExprKindModel::Binary(op, Box::new(lma), Box::new(rm)),
                    span: spec_merge(lma.span, rm.span),
                };
                self.lexer.wf_bounds();
                assert(spec_multiplication(src, pa) == Ok::<(ExprModel, int), Error>((rm, self.pos())));
                assert(step_pos(src, qa, self.pos()) == self.pos());
                assert(spec_addition_rest(src, lma, qa) == spec_addition_rest(src, lm, self.pos()));
                assert(expr_matches(left, lm));
            }
        }
        proof {
            assert(spec_addition_rest(src, lm, self.pos()) == Ok::<(ExprModel, int), Error>((lm, self.pos())));
        }
        Ok(left)
    }

    /// The multiplicative tier; see [`spec_multiplication`].
    #[verifier::rlimit(60)]
    #[verifier::loop_isolation(false)]
    fn multiplication(&mut self) -> (r: Result<Expr, Error>)
        requires
            old(self).wf(),
        ensures
            final(self).src() == old(self).src(),
            (match spec_multiplication(old(self).src(), old(self).pos()) {
                Ok((m, p)) => (r matches Ok(e) && expr_matches(e, m)) && final(self).wf() && final(self).pos() == p && old(self).pos() < p <= old(self).src().len() && final(self).measure() < old(self).measure(),
                Err(er) => r == Err::<Expr, Error>(er),
            }),
        decreases self.measure(), 3int,
    {
        let ghost src = self.src();
        let ghost q0 = self.pos();
        proof {
            self.lexer.wf_bounds();
            assert(self.measure() >= 0);
        }
        let mut left = match self.unary() {
            Ok(e) => e,
            Err(e) => {
                proof {
                    assert(spec_multiplication(src, q0) == Err::<(ExprModel, int), Error>(e));
                }
                return Err(e);
            },
        };
        let ghost mut lm = spec_unary(src, q0)->Ok_0.0;
        proof {
            assert(spec_unary(src, q0) == Ok::<(ExprModel, int), Error>((lm, self.pos())));
            assert(step_pos(src, q0, self.pos()) == self.pos());
            assert(spec_multiplication(src, q0) == spec_multiplication_rest(src, lm, self.pos()));
        }
        while self.check(TokenKind::Star) || self.check(TokenKind::Slash)
            invariant
                self.wf(),
                src == old(self).src(),
                q0 == old(self).pos(),
                self.src() == src,
                0 <= q0 <= src.len(),
                q0 < self.pos() <= src.len(),
                self.measure() < old(self).measure(),
                expr_matches(left, lm),
                spec_multiplication(src, q0) == spec_multiplication_rest(src, lm, self.pos()),
            decreases self.measure(),
        {
            let ghost qa = self.pos();
            let ghost lma = lm;
            proof {
                self.lexer.wf_bounds();
                assert(self.measure() >= 0);
                lemma_scan_bounds(src, qa);
            }
            let op = if self.check(TokenKind::Star) {
                BinOp::Mul
            } else {
                BinOp::Div
            };
            match self.advance() {
                Ok(()) => (),
                Err(e) => {
                    proof {
                        assert(spec_multiplication_rest(src, lma, qa) == Err::<(ExprModel, int), Error>(e));
                    }
                    return Err(e);
                },
            };
            let ghost pa = self.pos();
            proof {
                self.lexer.wf_bounds();
                assert(self.measure() >= 0);
                assert(self.measure() < old(self).measure());
                assert(step_pos(src, qa, pa) == pa);
            }
            let right = match self.unary() {
                Ok(e) => e,
                Err(e) => {
                    proof {
                        assert(spec_unary(src, pa) == Err::<(ExprModel, int), Error>(e));
                        assert(spec_multiplication_rest(src, lma, qa) == Err::<(ExprModel, int), Error>(e));
                    }
                    return Err(e);
                },
            };
            let ghost rm = spec_unary(src, pa)->Ok_0.0;
            let span = left.span.to(right.span);
            left = Expr { kind: ExprKind::Binary(op, Box::new(left), Box::new(right)), span };
            proof {
                lm =
                ExprModel {
                    kind: ExprKindModel::Binary(op, Box::new(lma), Box::new(rm)),
                    span: spec_merge(lma.span, rm.span),
                };
                self.lexer.wf_bounds();
                assert(spec_unary(src, pa) == Ok::<(ExprModel, int), Error>((rm, self.pos())));
                assert(step_pos(src, qa, self.pos()) == self.pos());
                assert(spec_multiplication_rest(src, lma, qa) == spec_multiplication_rest(src, lm, self.pos()));
                assert(expr_matches(left, lm));
            }
        }
        proof {
            assert(spec_multiplication_rest(src, lm, self.pos()) == Ok::<(ExprModel, int), Error>((lm, self.pos())));
        }
        Ok(left)
    }

    /// The unary tier; see [`spec_unary`].
    #[verifier::rlimit(60)]
    fn unary(&mut self) -> (r: Result<Expr, Error>)
        requires
            old(self).wf(),
        ensures
            final(self).src() == old(self).src(),
            (match spec_unary(old(self).src(), old(self).pos()) {
                Ok((m, p)) => (r matches Ok(e) && expr_matches(e, m)) && final(self).wf() && final(self).pos() == p && old(self).pos() < p <= old(self).src().len() && final(self).measure() < old(self).measure(),
                Err(er) => r == Err::<Expr, Error>(er),
            }),
        decreases self.measure(), 1int,
    {
        let ghost src = self.src();
        let ghost q0 = self.pos();
        let t0 = self.token;
        proof {
            self.lexer.wf_bounds();
            assert(self.measure() >= 0);
            lemma_scan_bounds(src, q0);
        }
        match self.eat(TokenKind::Minus) {
            Err(e) => {
                proof {
                    assert(spec_unary(src, q0) == Err::<(ExprModel, int), Error>(e));
                }
                Err(e)
            },
            Ok(true) => {
                let ghost pa = self.pos();
                proof {
                    self.lexer.wf_bounds();
                    assert(self.measure() >= 0);
                    assert(self.measure() < old(self).measure());
                    assert(step_pos(src, q0, pa) == pa);
                }
                let operand = match self.primary() {
                    Ok(e) => e,
                    Err(e) => {
                        proof {
                            assert(spec_primary(src, pa) == Err::<(ExprModel, int), Error>(e));
                            assert(spec_unary(src, q0) == Err::<(ExprModel, int), Error>(e));
                        }
                        return Err(e);
                    },
                };
                let ghost om = spec_primary(src, pa)->Ok_0.0;
                let span = t0.span.to(operand.span);
                let result = Expr { kind: ExprKind::Unary(UnOp::Neg, Box::new(operand)), span };
                proof {
                    let m = ExprModel {
                        kind: ExprKindModel::Unary(UnOp::Neg, Box::new(om)),
                        span: spec_merge(t0.span, om.span),
                    };
                    assert(spec_primary(src, pa) == Ok::<(ExprModel, int), Error>((om, self.pos())));
                    assert(spec_unary(src, q0) == Ok::<(ExprModel, int), Error>((m, self.pos())));
                    assert(expr_matches(result, m));
                }
                Ok(result)
            },
            Ok(false) => {
                let r = self.primary();
                proof {
                    assert(spec_unary(src, q0) == spec_primary(src, q0));
                }
                r
            },
        }
    }

    /// The primary tier; see [`spec_primary`].
    #[verifier::rlimit(60)]
    fn primary(&mut self) -> (r: Result<Expr, Error>)
        requires
            old(self).wf(),
        ensures
            final(self).src() == old(self).src(),
            (match spec_primary(old(self).src(), old(self).pos()) {
                Ok((m, p)) => (r matches Ok(e) && expr_matches(e, m)) && final(self).wf() && final(self).pos() == p && old(self).pos() < p <= old(self).src().len() && final(self).measure() < old(self).measure(),
                Err(er) => r == Err::<Expr, Error>(er),
            }),
        decreases self.measure(), 0int,
    {
        let ghost src = self.src();
        let ghost q0 = self.pos();
        let t0 = self.token;
        proof {
            self.lexer.wf_bounds();
            assert(self.measure() >= 0);
            lemma_scan_bounds(src, q0);
            lemma_scan_number(src, q0);
        }
        if self.check(TokenKind::Number) {
            let t = self.token;
            match self.advance() {
                Ok(()) => (),
                Err(e) => {
                    proof {
                        assert(spec_primary(src, q0) == Err::<(ExprModel, int), Error>(e));
                    }
                    return Err(e);
                },
            };
            let ghost s = src.subrange(t.span.lo as int, t.span.hi as int);
            match parse_i32_digits(self.lexer.source(), t.span.lo, t.span.hi) {
                Some(v) => {
                    let result = Expr { kind: ExprKind::Literal(Literal::Num(v)), span: t.span };
                    proof {
                        let m = ExprModel {
                            kind: ExprKindModel::Literal(Literal::Num(digits_value(s) as i32)),
                            span: t.span,
                        };
                        assert(spec_primary(src, q0) == Ok::<(ExprModel, int), Error>((m, self.pos())));
                        assert(expr_matches(result, m));
                    }
                    Ok(result)
                },
                None => {
                    let e = Error { kind: ErrorKind::NumberTooLarge, span: t.span };
                    proof {
                        assert(spec_primary(src, q0) == Err::<(ExprModel, int), Error>(e));
                    }
                    Err(e)
                },
            }
        } else if self.check(TokenKind::OpenParen) {
            let t = self.token;
            match self.advance() {
                Ok(()) => (),
                Err(e) => {
                    proof {
                        assert(spec_primary(src, q0) == Err::<(ExprModel, int), Error>(e));
                    }
                    return Err(e);
                },
            };
            let ghost pa = self.pos();
            proof {
                self.lexer.wf_bounds();
                assert(self.measure() >= 0);
                assert(self.measure() < old(self).measure());
                assert(step_pos(src, q0, pa) == pa);
            }
            let inner = match self.parse_expr() {
                Ok(e) => e,
                Err(e) => {
                    proof {
                        assert(spec_parse_expr(src, pa) == Err::<(ExprModel, int), Error>(e));
                        assert(spec_primary(src, q0) == Err::<(ExprModel, int), Error>(e));
                    }
                    return Err(e);
                },
            };
            let ghost im = spec_parse_expr(src, pa)->Ok_0.0;
            let ghost q1 = self.pos();
            proof {
                assert(spec_parse_expr(src, pa) == Ok::<(ExprModel, int), Error>((im, q1)));
            }
            let t2 = match self.expect(TokenKind::CloseParen) {
                Ok(t2) => t2,
                Err(e) => {
                    proof {
                        assert(spec_expect(src, q1, TokenKind::CloseParen) == Err::<(Token, int), Error>(e));
                        assert(spec_primary(src, q0) == Err::<(ExprModel, int), Error>(e));
                    }
                    return Err(e);
                },
            };
            let span = t.span.to(t2.span);
            let result = Expr { kind: ExprKind::Grouping(Box::new(inner)), span };
            proof {
                let m = ExprModel {
                    kind: ExprKindModel::Grouping(Box::new(im)),
                    span: spec_merge(t.span, t2.span),
                };
                assert(spec_primary(src, q0) == Ok::<(ExprModel, int), Error>((m, self.pos())));
                assert(expr_matches(result, m));
            }
            Ok(result)
        } else if self.check(TokenKind::True) || self.check(TokenKind::False) {
            let t = self.token;
            let v = self.check(TokenKind::True);
            match self.advance() {
                Ok(()) => (),
                Err(e) => {
                    proof {
                        assert(spec_primary(src, q0) == Err::<(ExprModel, int), Error>(e));
                    }
                    return Err(e);
                },
            };
            let result = Expr { kind: ExprKind::Literal(Literal::Bool(v)), span: t.span };
            proof {
                let m = ExprModel {
                    kind: ExprKindModel::Literal(Literal::Bool(t0.kind == TokenKind::True)),
                    span: t.span,
                };
                assert(spec_primary(src, q0) == Ok::<(ExprModel, int), Error>((m, self.pos())));
                assert(expr_matches(result, m));
            }
            Ok(result)
        } else if self.check(TokenKind::OpenBrace) {
            let t = self.token;
            match self.advance() {
                Ok(()) => (),
                Err(e) => {
                    proof {
                        assert(spec_primary(src, q0) == Err::<(ExprModel, int), Error>(e));
                    }
                    return Err(e);
                },
            };
            let ghost pa = self.pos();
            proof {
                self.lexer.wf_bounds();
                assert(self.measure() >= 0);
                assert(self.measure() < old(self).measure());
                assert(step_pos(src, q0, pa) == pa);
            }
            let b = match self.block() {
                Ok(b) => b,
                Err(e) => {
                    proof {
                        assert(spec_block(src, pa) == Err::<(Span, int), Error>(e));
                        assert(spec_primary(src, q0) == Err::<(ExprModel, int), Error>(e));
                    }
                    return Err(e);
                },
            };
            let span = t.span.to(self.prev.span);
            let result = Expr { kind: ExprKind::Block(b), span };
            proof {
                let close = spec_block(src, pa)->Ok_0.0;
                assert(spec_block(src, pa) == Ok::<(Span, int), Error>((close, self.pos())));
                let m = ExprModel {
                    kind: ExprKindModel::Block(Seq::empty()),
                    span: spec_merge(t.span, close),
                };
                assert(spec_primary(src, q0) == Ok::<(ExprModel, int), Error>((m, self.pos())));
                assert(expr_matches(result, m));
            }
            Ok(result)
        } else {
            let e = Error { kind: ErrorKind::UnexpectedToken(t0.kind), span: t0.span };
            proof {
                assert(spec_primary(src, q0) == Err::<(ExprModel, int), Error>(e));
            }
            Err(e)
        }
    }

    /// The inside of a braced block, entered with `{` just consumed; see
    /// [`spec_block`]. Only the empty block can succeed, statement
    /// execution being out of this core.
    #[verifier::rlimit(60)]
    #[verifier::loop_isolation(false)]
    fn block(&mut self) -> (r: Result<Block, Error>)
        requires
            old(self).wf(),
        ensures
            final(self).src() == old(self).src(),
            (match spec_block(old(self).src(), old(self).pos()) {
                Ok((close, p)) => (r matches Ok(b) && b.stmts@ == Seq::<Stmt>::empty()) && final(self).wf() && final(self).pos() == p && old(self).pos() < p <= old(self).src().len() && final(self).measure() < old(self).measure() && final(self).prev_tok().span == close,
                Err(er) => r == Err::<Block, Error>(er),
            }),
        decreases self.measure(), 13int,
    {
        let ghost src = self.src();
        let ghost q0 = self.pos();
        let ghost t0 = self.token;
        proof {
            self.lexer.wf_bounds();
            assert(self.measure() >= 0);
        }
        let mut stmts: Vec<Stmt> = Vec::new();
        while !self.eof() && !self.check(TokenKind::CloseBrace)
            invariant
                self.wf(),
                src == old(self).src(),
                q0 == old(self).pos(),
                t0 == old(self).lookahead(),
                self.src() == src,
                self.pos() == q0,
                self.lookahead() == t0,
                self.measure() == old(self).measure(),
                stmts@ == Seq::<Stmt>::empty(),
            decreases self.measure(),
        {
            let stmt = match self.parse_stmt() {
                Ok(s) => s,
                Err(e) => {
                    proof {
                        assert(spec_block(src, q0) == Err::<(Span, int), Error>(e));
                    }
                    return Err(e);
                },
            };
            stmts.push(stmt);
        }
        proof {
            lemma_scan_bounds(src, q0);
        }
        match self.eat(TokenKind::CloseBrace) {
            Err(e) => {
                proof {
                    assert(spec_block(src, q0) == Err::<(Span, int), Error>(e));
                }
                Err(e)
            },
            Ok(true) => {
                let result = Block { stmts };
                proof {
                    assert(spec_block(src, q0) == Ok::<(Span, int), Error>((t0.span, self.pos())));
                }
                Ok(result)
            },
            Ok(false) => {
                let e = Error {
                    kind: ErrorKind::ExpectedButFound {
                        expected: TokenKind::CloseBrace,
                        found: TokenKind::Eof,
                    },
                    span: self.token.span,
                };
                proof {
                    assert(self.lookahead().kind == TokenKind::Eof);
                    assert(spec_block(src, q0) == Err::<(Span, int), Error>(e));
                }
                Err(e)
            },
        }
    }
}

} // verus!
