//! Typed faults. Every malformed input or semantic mismatch is reported as
//! an [`Error`] carrying the kind of fault and the source range it arose at;
//! nothing in this library panics.

use vstd::prelude::*;

use crate::lexer::TokenKind;
use crate::span::Span;

verus! {

/// The tag of a runtime [`crate::eval::Value`], used to report mismatches.
#[derive(Debug, Copy, Clone, PartialEq, Eq, Structural)]
pub enum ValueKind {
    Num,
    Bool,
}

/// What went wrong.
#[derive(Debug, Copy, Clone, PartialEq, Eq, Structural)]
pub enum ErrorKind {
    /// The scanner met a byte that starts no token.
    UnexpectedByte(u8),
    /// The parser needed one token kind and saw another.
    ExpectedButFound { expected: TokenKind, found: TokenKind },
    /// The parser saw a token that starts no primary expression.
    UnexpectedToken(TokenKind),
    /// The construct is parsed but has no semantics in this core.
    UnimplementedFeature,
    /// An operand had the wrong runtime tag.
    TypeMismatch { expected: ValueKind, found: ValueKind },
    /// The right operand of `/` was zero.
    DivisionByZero,
    /// A numeric literal does not fit in a 32-bit signed integer.
    NumberTooLarge,
    /// An arithmetic result does not fit in a 32-bit signed integer.
    ArithmeticOverflow,
}

/// A fault, with the source range it arose at.
#[derive(Debug, Copy, Clone, PartialEq, Eq, Structural)]
pub struct Error {
    pub kind: ErrorKind,
    pub span: Span,
}

} // verus!
