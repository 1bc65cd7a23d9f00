//! The evaluator: a strict, tree-walking interpreter turning an expression
//! tree into a runtime [`Value`].
//!
//! The model is [`spec_eval`]: a mathematical function from a tree to its
//! value or its fault. [`Eval::eval_expr`] is proved to return exactly that.
//! Arithmetic whose result does not fit a 32-bit signed integer faults as
//! an overflow, division by zero faults in kind, and every type mismatch
//! names the tag that was expected and the tag that was found; each fault
//! carries the span of the expression it arose at. A conditional evaluates
//! only the selected branch (see [`lemma_if_ignores_unselected`]); a block
//! faults as unimplemented, statement execution being out of this core.

use vstd::pervasive::unreached;
use vstd::prelude::*;

use crate::ast::{BinOp, Expr, ExprKind, Literal, UnOp};
use crate::error::{Error, ErrorKind, ValueKind};
use crate::span::Span;

verus! {

/// A runtime value: the only representation the evaluator produces.
#[derive(Debug, Copy, Clone, PartialEq, Eq, Structural)]
pub enum Value {
    Num(i32),
    Bool(bool),
}

/// The tag of a value, as faults report it.
pub open spec fn kind_of(v: Value) -> ValueKind {
    match v {
        Value::Num(_) => ValueKind::Num,
        Value::Bool(_) => ValueKind::Bool,
    }
}

/// Integer division truncated toward zero, the host semantics of `/`.
pub open spec fn div_toward_zero(a: int, d: int) -> int
    recommends
        d != 0,
{
    if a == 0 {
        0
    } else if a > 0 && d > 0 {
        a / d
    } else if a < 0 && d < 0 {
        (a * -1) / (d * -1)
    } else if a < 0 {
        ((a * -1) / d) * -1
    } else {
        (a / (d * -1)) * -1
    }
}

/// What a binary operator yields on two already-evaluated operands, or the
/// fault, at `span`: the four arithmetic operators demand numbers and fault
/// on a result outside the 32-bit signed range (for `/`, on a zero divisor
/// first); `==` and `!=` demand operands of one tag and compare them; the
/// four orderings demand numbers and compare them.
pub open spec fn spec_apply_binary(op: BinOp, lv: Value, rv: Value, span: Span) -> Result<
    Value,
    Error,
> {
    match op {
        BinOp::Add | BinOp::Sub | BinOp::Mul | BinOp::Div => spec_arith(op, lv, rv, span),
        BinOp::Ne | BinOp::Eq => spec_equality_test(op, lv, rv, span),
        BinOp::Ge | BinOp::Gt | BinOp::Le | BinOp::Lt => spec_compare(op, lv, rv, span),
    }
}

/// The arithmetic tier of [`spec_apply_binary`]: `+ - * /` on numbers.
pub open spec fn spec_arith(op: BinOp, lv: Value, rv: Value, span: Span) -> Result<Value, Error>
    recommends
        op == BinOp::Add || op == BinOp::Sub || op == BinOp::Mul || op == BinOp::Div,
{
    match (lv, rv) {
        (Value::Num(a), Value::Num(b)) => {
            if op == BinOp::Div {
                if b == 0 {
                    Err(Error { kind: ErrorKind::DivisionByZero, span })
                } else {
                    let q = div_toward_zero(a as int, b as int);
                    if q < i32::MIN || q > i32::MAX {
                        Err(Error { kind: ErrorKind::ArithmeticOverflow, span })
                    } else {
                        Ok(Value::Num(q as i32))
                    }
                }
            } else {
                let full = if op == BinOp::Add {
                    a + b
                } else if op == BinOp::Sub {
                    a - b
                } else {
                    a * b
                };
                if full < i32::MIN || full > i32::MAX {
                    Err(Error { kind: ErrorKind::ArithmeticOverflow, span })
                } else {
                    Ok(Value::Num(full as i32))
                }
            }
        },
        _ => Err(
            Error {
                kind: ErrorKind::TypeMismatch { expected: ValueKind::Num, found: ValueKind::Bool },
                span,
            },
        ),
    }
}

/// The equality tier of [`spec_apply_binary`]: `==` and `!=` on operands of
/// one tag; operands of different tags fault naming both tags.
pub open spec fn spec_equality_test(op: BinOp, lv: Value, rv: Value, span: Span) -> Result<
    Value,
    Error,
>
    recommends
        op == BinOp::Ne || op == BinOp::Eq,
{
    if kind_of(lv) == kind_of(rv) {
        if op == BinOp::Eq {
            Ok(Value::Bool(lv == rv))
        } else {
            Ok(Value::Bool(lv != rv))
        }
    } else {
        Err(
            Error {
                kind: ErrorKind::TypeMismatch { expected: kind_of(lv), found: kind_of(rv) },
                span,
            },
        )
    }
}

/// The ordering tier of [`spec_apply_binary`]: `>= > <= <` on numbers.
pub open spec fn spec_compare(op: BinOp, lv: Value, rv: Value, span: Span) -> Result<Value, Error>
    recommends
        op == BinOp::Ge || op == BinOp::Gt || op == BinOp::Le || op == BinOp::Lt,
{
    match (lv, rv) {
        (Value::Num(a), Value::Num(b)) => Ok(
            Value::Bool(
                if op == BinOp::Ge {
                    a >= b
                } else if op == BinOp::Gt {
                    a > b
                } else if op == BinOp::Le {
                    a <= b
                } else {
                    a < b
                },
            ),
        ),
        _ => Err(
            Error {
                kind: ErrorKind::TypeMismatch { expected: ValueKind::Num, found: ValueKind::Bool },
                span,
            },
        ),
    }
}

/// The evaluator's model: the value of an expression tree, or its first
/// fault. Literals carry their value; negation demands a number and faults
/// on the one value whose negation does not fit; a binary node evaluates
/// its left operand, then its right, then applies the operator; a grouping
/// is its inner expression; a conditional demands a boolean condition and
/// is the value of exactly the selected branch; a block faults as
/// unimplemented.
pub open spec fn spec_eval(e: Expr) -> Result<Value, Error>
    decreases e,
{
    match e.kind {
        ExprKind::Literal(lit) => Ok(
            match lit {
                Literal::Bool(b) => Value::Bool(b),
                Literal::Num(n) => Value::Num(n),
            },
        ),
        ExprKind::Unary(op, inner) => match op {
            UnOp::Neg => match spec_eval(*inner) {
                Err(er) => Err(er),
                Ok(Value::Num(n)) => if n == i32::MIN {
                    Err(Error { kind: ErrorKind::ArithmeticOverflow, span: e.span })
                } else {
                    Ok(Value::Num((0 - n) as i32))
                },
                Ok(Value::Bool(_)) => Err(
                    Error {
                        kind: ErrorKind::TypeMismatch {
                            expected: ValueKind::Num,
                            found: ValueKind::Bool,
                        },
                        span: e.span,
                    },
                ),
            },
        },
        ExprKind::Binary(op, l, r) => match spec_eval(*l) {
            Err(er) => Err(er),
            Ok(lv) => match spec_eval(*r) {
                Err(er) => Err(er),
                Ok(rv) => spec_apply_binary(op, lv, rv, e.span),
            },
        },
        ExprKind::Grouping(inner) => spec_eval(*inner),
        ExprKind::If(c, t, el) => match spec_eval(*c) {
            Err(er) => Err(er),
            Ok(Value::Bool(true)) => spec_eval(*t),
            Ok(Value::Bool(false)) => spec_eval(*el),
            Ok(Value::Num(_)) => Err(
                Error {
                    kind: ErrorKind::TypeMismatch {
                        expected: ValueKind::Bool,
                        found: ValueKind::Num,
                    },
                    span: e.span,
                },
            ),
        },
        ExprKind::Block(_) => Err(Error { kind: ErrorKind::UnimplementedFeature, span: e.span }),
    }
}

/// A conditional node over the given parts.
pub open spec fn mk_if(c: Expr, t: Expr, e: Expr, span: Span) -> Expr {
    Expr { kind: ExprKind::If(Box::new(c), Box::new(t), Box::new(e)), span }
}

/// The unselected branch of a conditional is never evaluated: when the
/// condition comes out true, the conditional's value is the then-branch's
/// alone, whatever stands in the else-branch — and symmetrically when it
/// comes out false.
pub proof fn lemma_if_ignores_unselected(c: Expr, t: Expr, e: Expr, span: Span)
    ensures
        spec_eval(c) == Ok::<Value, Error>(Value::Bool(true)) ==> spec_eval(mk_if(c, t, e, span))
            == spec_eval(t),
        spec_eval(c) == Ok::<Value, Error>(Value::Bool(false)) ==> spec_eval(mk_if(c, t, e, span))
            == spec_eval(e),
{
}

fn kind_tag(v: Value) -> (k: ValueKind)
    ensures
        k == kind_of(v),
{
    match v {
        Value::Num(_) => ValueKind::Num,
        Value::Bool(_) => ValueKind::Bool,
    }
}

/// The tree-walking evaluator. It carries no state: evaluation is a pure
/// function of the tree, as [`spec_eval`] says.
pub struct Eval {}

impl Eval {
    pub fn new() -> (ev: Eval)
        ensures
            true,
    {
        Eval {  }
    }

    /// Evaluates a tree: exactly the model [`spec_eval`], value and fault
    /// alike.
    pub fn eval_expr(&mut self, expr: &Expr) -> (r: Result<Value, Error>)
        ensures
            r == spec_eval(*expr),
        decreases *expr,
    {
        match &expr.kind {
            ExprKind::Literal(lit) => Ok(
                match lit {
                    Literal::Bool(x) => Value::Bool(*x),
                    Literal::Num(x) => Value::Num(*x),
                },
            ),
            ExprKind::Unary(op, e) => match op {
                UnOp::Neg => match self.eval_expr(&**e)? {
                    Value::Num(n) => if n == i32::MIN {
                        Err(Error { kind: ErrorKind::ArithmeticOverflow, span: expr.span })
                    } else {
                        Ok(Value::Num(-n))
                    },
                    Value::Bool(_) => Err(
                        Error {
                            kind: ErrorKind::TypeMismatch {
                                expected: ValueKind::Num,
                                found: ValueKind::Bool,
                            },
                            span: expr.span,
                        },
                    ),
                },
            },
            ExprKind::Binary(op, l, r) => {
                let lv = self.eval_expr(&**l)?;
                let rv = self.eval_expr(&**r)?;
                match op {
                    BinOp::Add | BinOp::Sub | BinOp::Mul | BinOp::Div => self.eval_arith(
                        *op,
                        lv,
                        rv,
                        expr.span,
                    ),
                    BinOp::Ne | BinOp::Eq => {
                        if kind_tag(lv) == kind_tag(rv) {
                            if *op == BinOp::Eq {
                                Ok(Value::Bool(lv == rv))
                            } else {
                                Ok(Value::Bool(lv != rv))
                            }
                        } else {
                            Err(
                                Error {
                                    kind: ErrorKind::TypeMismatch {
                                        expected: kind_tag(lv),
                                        found: kind_tag(rv),
                                    },
                                    span: expr.span,
                                },
                            )
                        }
                    },
                    BinOp::Ge | BinOp::Gt | BinOp::Le | BinOp::Lt => self.eval_bool(
                        *op,
                        lv,
                        rv,
                        expr.span,
                    ),
                }
            },
            ExprKind::Grouping(e) => self.eval_expr(&**e),
            ExprKind::If(c, t, el) => match self.eval_expr(&**c)? {
                Value::Bool(true) => self.eval_expr(&**t),
                Value::Bool(false) => self.eval_expr(&**el),
                Value::Num(_) => Err(
                    Error {
                        kind: ErrorKind::TypeMismatch {
                            expected: ValueKind::Bool,
                            found: ValueKind::Num,
                        },
                        span: expr.span,
                    },
                ),
            },
            ExprKind::Block(_) => Err(
                Error { kind: ErrorKind::UnimplementedFeature, span: expr.span },
            ),
        }
    }

    /// The arithmetic operators on evaluated operands; see [`spec_arith`].
    fn eval_arith(&mut self, op: BinOp, lv: Value, rv: Value, span: Span) -> (r: Result<
        Value,
        Error,
    >)
        requires
            op == BinOp::Add || op == BinOp::Sub || op == BinOp::Mul || op == BinOp::Div,
        ensures
            r == spec_arith(op, lv, rv, span),
    {
        match (lv, rv) {
            (Value::Num(a), Value::Num(b)) => match op {
                BinOp::Add => match a.checked_add(b) {
                    Some(v) => Ok(Value::Num(v)),
                    None => Err(Error { kind: ErrorKind::ArithmeticOverflow, span }),
                },
                BinOp::Sub => match a.checked_sub(b) {
                    Some(v) => Ok(Value::Num(v)),
                    None => Err(Error { kind: ErrorKind::ArithmeticOverflow, span }),
                },
                BinOp::Mul => match a.checked_mul(b) {
                    Some(v) => Ok(Value::Num(v)),
                    None => Err(Error { kind: ErrorKind::ArithmeticOverflow, span }),
                },
                BinOp::Div => if b == 0 {
                    Err(Error { kind: ErrorKind::DivisionByZero, span })
                } else {
                    match a.checked_div(b) {
                        Some(v) => Ok(Value::Num(v)),
                        None => Err(Error { kind: ErrorKind::ArithmeticOverflow, span }),
                    }
                },
                _ => unreached(),
            },
            _ => Err(
                Error {
                    kind: ErrorKind::TypeMismatch {
                        expected: ValueKind::Num,
                        found: ValueKind::Bool,
                    },
                    span,
                },
            ),
        }
    }

    /// The ordering operators on evaluated operands; see [`spec_compare`].
    fn eval_bool(&mut self, op: BinOp, lv: Value, rv: Value, span: Span) -> (r: Result<
        Value,
        Error,
    >)
        requires
            op == BinOp::Ge || op == BinOp::Gt || op == BinOp::Le || op == BinOp::Lt,
        ensures
            r == spec_compare(op, lv, rv, span),
    {
        match (lv, rv) {
            (Value::Num(a), Value::Num(b)) => match op {
                BinOp::Ge => Ok(Value::Bool(a >= b)),
                BinOp::Gt => Ok(Value::Bool(a > b)),
                BinOp::Le => Ok(Value::Bool(a <= b)),
                BinOp::Lt => Ok(Value::Bool(a < b)),
                _ => unreached(),
            },
            _ => Err(
                Error {
                    kind: ErrorKind::TypeMismatch {
                        expected: ValueKind::Num,
                        found: ValueKind::Bool,
                    },
                    span,
                },
            ),
        }
    }
}

} // verus!
