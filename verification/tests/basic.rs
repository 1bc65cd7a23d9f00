use pyret::error::ErrorKind;
use pyret::lexer::{Lexer, Token, TokenKind};
use pyret::span::Span;
use pyret::symbol::{Interner, Symbol};

fn tokens_of(src: &[u8]) -> Vec<TokenKind> {
    let mut lexer = Lexer::new(src.to_vec());
    let mut out = Vec::new();
    loop {
        let t = lexer.next_token().expect("scan fault");
        let k = t.kind;
        out.push(k);
        if k == TokenKind::Eof {
            return out;
        }
    }
}

#[test]
fn span_merge_encloses_both() {
    let a = Span::new(3, 7);
    let b = Span::new(5, 12);
    let m = a.to(b);
    assert_eq!(m.lo, 3);
    assert_eq!(m.hi, 12);
    let n = b.to(a);
    assert_eq!(n.lo, 3);
    assert_eq!(n.hi, 12);
}

#[test]
fn span_merge_disjoint_and_nested() {
    let outer = Span::new(0, 20);
    let inner = Span::new(4, 6);
    let m = outer.to(inner);
    assert_eq!((m.lo, m.hi), (0, 20));
    let d1 = Span::new(1, 2);
    let d2 = Span::new(9, 11);
    let m2 = d1.to(d2);
    assert_eq!((m2.lo, m2.hi), (1, 11));
}

#[test]
fn dummy_span_and_token() {
    assert_eq!(Span::dummy().lo, 0);
    assert_eq!(Span::dummy().hi, 0);
    assert_eq!(Token::dummy().kind, TokenKind::Eof);
}

#[test]
fn lexer_scans_expression() {
    let ks = tokens_of(b"1 + 2 * 3");
    assert_eq!(
        ks,
        vec![
            TokenKind::Number,
            TokenKind::Plus,
            TokenKind::Number,
            TokenKind::Star,
            TokenKind::Number,
            TokenKind::Eof,
        ]
    );
}

#[test]
fn lexer_two_character_operators() {
    let ks = tokens_of(b"-> == != >= <= && || = ! > < & |");
    assert_eq!(
        ks,
        vec![
            TokenKind::LArrow,
            TokenKind::EqEq,
            TokenKind::Ne,
            TokenKind::Ge,
            TokenKind::Le,
            TokenKind::AndAnd,
            TokenKind::OrOr,
            TokenKind::Eq,
            TokenKind::Not,
            TokenKind::Gt,
            TokenKind::Lt,
            TokenKind::And,
            TokenKind::Or,
            TokenKind::Eof,
        ]
    );
}

#[test]
fn lexer_keywords_and_idents() {
    let ks = tokens_of(b"if else true false let fn return zebra if0");
    assert_eq!(
        ks,
        vec![
            TokenKind::If,
            TokenKind::Else,
            TokenKind::True,
            TokenKind::False,
            TokenKind::Let,
            TokenKind::Func,
            TokenKind::Return,
            TokenKind::Ident,
            TokenKind::Ident,
            TokenKind::Eof,
        ]
    );
}

#[test]
fn lexer_delimiters() {
    let ks = tokens_of(b"( ) { } : ;");
    assert_eq!(
        ks,
        vec![
            TokenKind::OpenParen,
            TokenKind::CloseParen,
            TokenKind::OpenBrace,
            TokenKind::CloseBrace,
            TokenKind::Colon,
            TokenKind::Semicolon,
            TokenKind::Eof,
        ]
    );
}

#[test]
fn lexer_token_spans() {
    let mut lexer = Lexer::new(b"  12 +x".to_vec());
    let t1 = lexer.next_token().unwrap();
    assert_eq!(t1.kind, TokenKind::Number);
    assert_eq!((t1.span.lo, t1.span.hi), (2, 4));
    let t2 = lexer.next_token().unwrap();
    assert_eq!(t2.kind, TokenKind::Plus);
    assert_eq!((t2.span.lo, t2.span.hi), (5, 6));
    let t3 = lexer.next_token().unwrap();
    assert_eq!(t3.kind, TokenKind::Ident);
    assert_eq!((t3.span.lo, t3.span.hi), (6, 7));
}

#[test]
fn lexer_eof_is_idempotent() {
    let mut lexer = Lexer::new(b"7".to_vec());
    assert_eq!(lexer.next_token().unwrap().kind, TokenKind::Number);
    for _ in 0..5 {
        let t = lexer.next_token().unwrap();
        assert_eq!(t.kind, TokenKind::Eof);
        assert_eq!((t.span.lo, t.span.hi), (1, 1));
    }
}

#[test]
fn lexer_rejects_unexpected_byte() {
    let mut lexer = Lexer::new(b"1 $ 2".to_vec());
    assert_eq!(lexer.next_token().unwrap().kind, TokenKind::Number);
    let e = lexer.next_token().unwrap_err();
    assert_eq!(e.kind, ErrorKind::UnexpectedByte(b'$'));
    assert_eq!((e.span.lo, e.span.hi), (2, 3));
}

#[test]
fn interning_same_content_twice_gives_same_handle() {
    let mut table = Interner::new();
    let a = Symbol::intern(&mut table, &b"alpha".to_vec());
    let b = Symbol::intern(&mut table, &b"beta".to_vec());
    let a2 = Symbol::intern(&mut table, &b"alpha".to_vec());
    assert_eq!(a, a2);
    assert_ne!(a, b);
    let b2 = Symbol::intern(&mut table, &b"beta".to_vec());
    assert_eq!(b, b2);
}

#[test]
fn interner_lookup_recovers_content() {
    let mut table = Interner::new();
    let first = Symbol::intern(&mut table, &b"first".to_vec());
    let second = Symbol::intern(&mut table, &b"second".to_vec());
    assert_eq!(table.lookup(0).as_slice(), b"first");
    assert_eq!(table.lookup(1).as_slice(), b"second");
    assert_eq!(table.content(first).as_slice(), b"first");
    assert_eq!(table.content(second).as_slice(), b"second");
}

#[test]
fn symbol_dummy_is_empty_content() {
    let mut table = Interner::new();
    let d = Symbol::dummy(&mut table);
    let d2 = Symbol::dummy(&mut table);
    assert_eq!(d, d2);
    assert_eq!(table.lookup(0).len(), 0);
}

#[test]
fn symbol_parse_reads_decimal() {
    let mut table = Interner::new();
    let n = Symbol::intern(&mut table, &b"1234".to_vec());
    assert_eq!(n.parse(&table), Some(1234));
    let zero = Symbol::intern(&mut table, &b"0".to_vec());
    assert_eq!(zero.parse(&table), Some(0));
    let max = Symbol::intern(&mut table, &b"2147483647".to_vec());
    assert_eq!(max.parse(&table), Some(i32::MAX));
}

#[test]
fn symbol_parse_reads_signed_numerals() {
    let mut table = Interner::new();
    let neg = Symbol::intern(&mut table, &b"-5".to_vec());
    assert_eq!(neg.parse(&table), Some(-5));
    let plus = Symbol::intern(&mut table, &b"+7".to_vec());
    assert_eq!(plus.parse(&table), Some(7));
    let min = Symbol::intern(&mut table, &b"-2147483648".to_vec());
    assert_eq!(min.parse(&table), Some(i32::MIN));
    let neg_zero = Symbol::intern(&mut table, &b"-0".to_vec());
    assert_eq!(neg_zero.parse(&table), Some(0));
}

#[test]
fn symbol_parse_rejects_bad_content() {
    let mut table = Interner::new();
    let over = Symbol::intern(&mut table, &b"2147483648".to_vec());
    assert_eq!(over.parse(&table), None);
    let under = Symbol::intern(&mut table, &b"-2147483649".to_vec());
    assert_eq!(under.parse(&table), None);
    let word = Symbol::intern(&mut table, &b"12a".to_vec());
    assert_eq!(word.parse(&table), None);
    let empty = Symbol::intern(&mut table, &b"".to_vec());
    assert_eq!(empty.parse(&table), None);
    let sign_alone = Symbol::intern(&mut table, &b"-".to_vec());
    assert_eq!(sign_alone.parse(&table), None);
    let double_sign = Symbol::intern(&mut table, &b"+-5".to_vec());
    assert_eq!(double_sign.parse(&table), None);
}
