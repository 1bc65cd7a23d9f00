//! The syntax tree: plain data produced by the parser and consumed by the
//! evaluator, each node carrying the source range it covers.
//!
//! Beside the executable tree stands its mathematical mirror: [`ExprModel`]
//! and its companions, the values a grammar model speaks of. The relation
//! [`expr_matches`] says that an executable tree and a mirror value are the
//! same tree, node for node and span for span.

use vstd::prelude::*;

use crate::span::Span;
use crate::symbol::Symbol;

verus! {

/// A statement: parsed shape only; no execution semantics exist in this core.
#[derive(Debug)]
pub struct Stmt {
    pub kind: StmtKind,
    pub span: Span,
}

/// An expression tree node.
#[derive(Debug)]
pub struct Expr {
    pub kind: ExprKind,
    pub span: Span,
}

#[derive(Debug)]
pub enum ExprKind {
    Unary(UnOp, Box<Expr>),
    Binary(BinOp, Box<Expr>, Box<Expr>),
    Grouping(Box<Expr>),
    Literal(Literal),
    If(Box<Expr>, Box<Expr>, Box<Expr>),
    Block(Block),
}

/// A binary operator, named by the surface token it comes from.
#[derive(Debug, Copy, Clone, PartialEq, Eq, Structural)]
pub enum BinOp {
    Add,
    Sub,
    Mul,
    Div,
    Ne,
    Eq,
    Ge,
    Gt,
    Le,
    Lt,
}

#[derive(Debug, Copy, Clone, PartialEq, Eq, Structural)]
pub enum UnOp {
    Neg,
}

#[derive(Debug, Copy, Clone, PartialEq, Eq, Structural)]
pub enum Literal {
    Bool(bool),
    Num(i32),
}

#[derive(Debug)]
pub enum StmtKind {
    Let { ident: Symbol, ty: Symbol, init: Option<Expr> },
    Assign { ident: Symbol, value: Expr },
    Expr(Expr),
    ExprWithoutSemi(Expr),
}

/// An ordered sequence of statements between braces.
#[derive(Debug)]
pub struct Block {
    pub stmts: Vec<Stmt>,
}

/// The mathematical mirror of [`Expr`]: what the grammar model produces.
pub struct ExprModel {
    pub kind: ExprKindModel,
    pub span: Span,
}

pub enum ExprKindModel {
    Unary(UnOp, Box<ExprModel>),
    Binary(BinOp, Box<ExprModel>, Box<ExprModel>),
    Grouping(Box<ExprModel>),
    Literal(Literal),
    If(Box<ExprModel>, Box<ExprModel>, Box<ExprModel>),
    Block(Seq<StmtModel>),
}

/// The mathematical mirror of [`Stmt`].
pub struct StmtModel {
    pub kind: StmtKindModel,
    pub span: Span,
}

pub enum StmtKindModel {
    Let { ident: Symbol, ty: Symbol, init: Option<ExprModel> },
    Assign { ident: Symbol, value: ExprModel },
    Expr(ExprModel),
    ExprWithoutSemi(ExprModel),
}

/// The executable tree `e` and the mirror value `m` are the same tree:
/// equal spans and matching kinds throughout.
pub open spec fn expr_matches(e: Expr, m: ExprModel) -> bool
    decreases e,
{
    e.span == m.span && match (e.kind, m.kind) {
        (ExprKind::Literal(a), ExprKindModel::Literal(b)) => a == b,
        (ExprKind::Unary(o1, e1), ExprKindModel::Unary(o2, m1)) => o1 == o2 && expr_matches(
            *e1,
            *m1,
        ),
        (ExprKind::Binary(o1, l1, r1), ExprKindModel::Binary(o2, l2, r2)) => o1 == o2
            && expr_matches(*l1, *l2) && expr_matches(*r1, *r2),
        (ExprKind::Grouping(e1), ExprKindModel::Grouping(m1)) => expr_matches(*e1, *m1),
        (ExprKind::If(c1, t1, e1), ExprKindModel::If(c2, t2, e2)) => expr_matches(*c1, *c2)
            && expr_matches(*t1, *t2) && expr_matches(*e1, *e2),
        (ExprKind::Block(b), ExprKindModel::Block(ms)) => b.stmts@.len() == ms.len() && (forall|
            i: int,
        |
            0 <= i < ms.len() ==> stmt_matches(#[trigger] b.stmts@[i], ms[i])),
        _ => false,
    }
}

/// The executable statement `s` and the mirror value `m` are the same
/// statement.
pub open spec fn stmt_matches(s: Stmt, m: StmtModel) -> bool
    decreases s,
{
    s.span == m.span && match (s.kind, m.kind) {
        (
            StmtKind::Let { ident: i1, ty: t1, init: n1 },
            StmtKindModel::Let { ident: i2, ty: t2, init: n2 },
        ) => i1 == i2 && t1 == t2 && match (n1, n2) {
            (None, None) => true,
            (Some(e), Some(me)) => expr_matches(e, me),
            _ => false,
        },
        (
            StmtKind::Assign { ident: i1, value: v1 },
            StmtKindModel::Assign { ident: i2, value: v2 },
        ) => i1 == i2 && expr_matches(v1, v2),
        (StmtKind::Expr(e), StmtKindModel::Expr(me)) => expr_matches(e, me),
        (StmtKind::ExprWithoutSemi(e), StmtKindModel::ExprWithoutSemi(me)) => expr_matches(e, me),
        _ => false,
    }
}

} // verus!
