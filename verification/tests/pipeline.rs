use pyret::ast::{BinOp, Expr, ExprKind, Literal, UnOp};
use pyret::error::{Error, ErrorKind, ValueKind};
use pyret::eval::{Eval, Value};
use pyret::lexer::TokenKind;
use pyret::parser::{parse, Parser};

fn parse_src(src: &[u8]) -> Expr {
    parse(src.to_vec()).expect("parse fault")
}

fn parse_err(src: &[u8]) -> Error {
    parse(src.to_vec()).expect_err("parse unexpectedly succeeded")
}

fn eval_src(src: &[u8]) -> Result<Value, Error> {
    let e = parse_src(src);
    Eval::new().eval_expr(&e)
}

fn num_of(e: &Expr) -> i32 {
    match &e.kind {
        ExprKind::Literal(Literal::Num(n)) => *n,
        other => panic!("expected a numeric literal, got {:?}", other),
    }
}

#[test]
fn precedence_mul_binds_tighter_than_add() {
    let e = parse_src(b"1 + 2 * 3");
    match &e.kind {
        ExprKind::Binary(BinOp::Add, l, r) => {
            assert_eq!(num_of(l), 1);
            match &r.kind {
                ExprKind::Binary(BinOp::Mul, rl, rr) => {
                    assert_eq!(num_of(rl), 2);
                    assert_eq!(num_of(rr), 3);
                },
                other => panic!("expected Mul on the right, got {:?}", other),
            }
        },
        other => panic!("expected Add at the root, got {:?}", other),
    }
    assert_eq!(eval_src(b"1 + 2 * 3"), Ok(Value::Num(7)));
}

#[test]
fn subtraction_is_left_associative() {
    let e = parse_src(b"8 - 3 - 2");
    match &e.kind {
        ExprKind::Binary(BinOp::Sub, l, r) => {
            assert!(matches!(&l.kind, ExprKind::Binary(BinOp::Sub, _, _)));
            assert_eq!(num_of(r), 2);
        },
        other => panic!("expected Sub at the root, got {:?}", other),
    }
    assert_eq!(eval_src(b"8 - 3 - 2"), Ok(Value::Num(3)));
}

#[test]
fn grouping_overrides_precedence() {
    let e = parse_src(b"(1 + 2) * 3");
    match &e.kind {
        ExprKind::Binary(BinOp::Mul, l, r) => {
            assert!(matches!(&l.kind, ExprKind::Grouping(_)));
            assert_eq!(num_of(r), 3);
        },
        other => panic!("expected Mul at the root, got {:?}", other),
    }
    assert_eq!(eval_src(b"(1 + 2) * 3"), Ok(Value::Num(9)));
}

#[test]
fn equality_chains_left() {
    let e = parse_src(b"2 == 2 == true");
    match &e.kind {
        ExprKind::Binary(BinOp::Eq, l, r) => {
            match &l.kind {
                ExprKind::Binary(BinOp::Eq, ll, lr) => {
                    assert_eq!(num_of(ll), 2);
                    assert_eq!(num_of(lr), 2);
                },
                other => panic!("expected Eq on the left, got {:?}", other),
            }
            assert!(matches!(&r.kind, ExprKind::Literal(Literal::Bool(true))));
        },
        other => panic!("expected Eq at the root, got {:?}", other),
    }
    assert_eq!(eval_src(b"2 == 2 == true"), Ok(Value::Bool(true)));
}

#[test]
fn conditional_takes_selected_branch_only() {
    assert_eq!(eval_src(b"if true { 1 } else { 2 }"), Ok(Value::Num(1)));
    assert_eq!(eval_src(b"if false { 1 } else { 2 }"), Ok(Value::Num(2)));
    // the unselected branch would fault if it were evaluated
    assert_eq!(eval_src(b"if true { 1 } else { 1 / 0 }"), Ok(Value::Num(1)));
    assert_eq!(eval_src(b"if false { true + 1 } else { 2 }"), Ok(Value::Num(2)));
}

#[test]
fn type_mismatches_fault() {
    match eval_src(b"-true") {
        Err(e) => assert_eq!(
            e.kind,
            ErrorKind::TypeMismatch { expected: ValueKind::Num, found: ValueKind::Bool }
        ),
        ok => panic!("negating a boolean gave {:?}", ok),
    }
    match eval_src(b"1 < true") {
        Err(e) => assert_eq!(
            e.kind,
            ErrorKind::TypeMismatch { expected: ValueKind::Num, found: ValueKind::Bool }
        ),
        ok => panic!("ordering against a boolean gave {:?}", ok),
    }
    match eval_src(b"1 == true") {
        Err(e) => assert_eq!(
            e.kind,
            ErrorKind::TypeMismatch { expected: ValueKind::Num, found: ValueKind::Bool }
        ),
        ok => panic!("equating a number with a boolean gave {:?}", ok),
    }
    match eval_src(b"if 1 { 2 } else { 3 }") {
        Err(e) => assert_eq!(
            e.kind,
            ErrorKind::TypeMismatch { expected: ValueKind::Bool, found: ValueKind::Num }
        ),
        ok => panic!("a numeric condition gave {:?}", ok),
    }
}

#[test]
fn malformed_input_faults_at_the_missing_token() {
    let e = parse_err(b"(1 + 2");
    assert_eq!(
        e.kind,
        ErrorKind::ExpectedButFound { expected: TokenKind::CloseParen, found: TokenKind::Eof }
    );
    assert_eq!((e.span.lo, e.span.hi), (6, 6));

    let e = parse_err(b"if true { 1 }");
    assert_eq!(
        e.kind,
        ErrorKind::ExpectedButFound { expected: TokenKind::Else, found: TokenKind::Eof }
    );

    let e = parse_err(b"{");
    assert_eq!(
        e.kind,
        ErrorKind::ExpectedButFound { expected: TokenKind::CloseBrace, found: TokenKind::Eof }
    );
}

#[test]
fn arithmetic_faults() {
    match eval_src(b"1 / 0") {
        Err(e) => assert_eq!(e.kind, ErrorKind::DivisionByZero),
        ok => panic!("dividing by zero gave {:?}", ok),
    }
    match eval_src(b"2147483647 + 1") {
        Err(e) => assert_eq!(e.kind, ErrorKind::ArithmeticOverflow),
        ok => panic!("overflowing addition gave {:?}", ok),
    }
    assert_eq!(eval_src(b"7 / 2"), Ok(Value::Num(3)));
    assert_eq!(eval_src(b"0 - 7 / 2"), Ok(Value::Num(-3)));
}

#[test]
fn numeric_literals_at_the_edge() {
    assert_eq!(eval_src(b"2147483647"), Ok(Value::Num(i32::MAX)));
    let e = parse_err(b"2147483648");
    assert_eq!(e.kind, ErrorKind::NumberTooLarge);
    assert_eq!((e.span.lo, e.span.hi), (0, 10));
    assert_eq!(eval_src(b"-5"), Ok(Value::Num(-5)));
}

#[test]
fn unary_negation_parses_and_spans() {
    let e = parse_src(b"-7");
    assert!(matches!(&e.kind, ExprKind::Unary(UnOp::Neg, _)));
    assert_eq!((e.span.lo, e.span.hi), (0, 2));
    assert_eq!(eval_src(b"-7"), Ok(Value::Num(-7)));
}

#[test]
fn blocks_parse_empty_and_fault_on_statements() {
    let e = parse_src(b"{ }");
    match &e.kind {
        ExprKind::Block(b) => assert_eq!(b.stmts.len(), 0),
        other => panic!("expected a block, got {:?}", other),
    }
    match eval_src(b"{ }") {
        Err(e) => assert_eq!(e.kind, ErrorKind::UnimplementedFeature),
        ok => panic!("evaluating a block gave {:?}", ok),
    }
    let e = parse_err(b"{ 1; }");
    assert_eq!(e.kind, ErrorKind::UnimplementedFeature);
}

#[test]
fn unexpected_tokens_fault() {
    let e = parse_err(b"1 + *");
    assert_eq!(e.kind, ErrorKind::UnexpectedToken(TokenKind::Star));
    let e = parse_err(b"1 $");
    assert_eq!(e.kind, ErrorKind::UnexpectedByte(b'$'));
}

#[test]
fn trailing_input_is_left_unread() {
    // the first expression parses; what follows its lookahead is untouched
    let e = parse_src(b"5 7");
    assert_eq!(num_of(&e), 5);
}

#[test]
fn parser_type_exposes_expression_and_statement_entries() {
    let mut p = Parser::new(b"1 + 1".to_vec()).expect("first token");
    let e = p.parse_expr().expect("parse fault");
    assert!(matches!(&e.kind, ExprKind::Binary(BinOp::Add, _, _)));
    let mut p = Parser::new(b"let x = 1;".to_vec()).expect("first token");
    let e = p.parse_stmt().expect_err("statements are unimplemented");
    assert_eq!(e.kind, ErrorKind::UnimplementedFeature);
}

#[test]
fn spans_cover_whole_constructs() {
    let e = parse_src(b"if true { 1 } else { 2 }");
    assert_eq!((e.span.lo, e.span.hi), (0, 24));
    let e = parse_src(b"(1 + 2) * 3");
    assert_eq!((e.span.lo, e.span.hi), (0, 11));
}
