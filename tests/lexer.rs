use flp_gsp::ast::{Expr, Span};
use flp_gsp::lexer::{tokens, LexError, Lexer, Token};
use flp_gsp::parser::{parse, ParseError};

fn kinds(s: &str) -> Vec<Token> {
    tokens(s).unwrap().into_iter().map(|(t, _)| t).collect()
}

#[test]
fn lexer_reads_symbols_strings_and_arrays() {
    assert_eq!(
        kinds("(`a` ? [ x , `y` ,]) &\r\n-"),
        vec![
            Token::GroupStart,
            Token::Str("a".into()),
            Token::In,
            Token::Array(vec!["x".into(), "`y`".into(), "".into()]),
            Token::GroupEnd,
            Token::And,
            Token::IsNone,
        ]
    );
    assert_eq!(kinds("[]"), vec![Token::Array(vec!["".into()])]);
}

#[test]
fn lexer_spans_are_byte_offsets() {
    let mut lexer = Lexer::new("(`\u{e9}`) (`ab`)");
    assert_eq!(lexer.next(), Some((Token::GroupStart, Span { lo: 0, hi: 1 })));
    assert_eq!(lexer.next(), Some((Token::Str("\u{e9}".into()), Span { lo: 1, hi: 5 })));
    assert_eq!(lexer.next(), Some((Token::GroupEnd, Span { lo: 5, hi: 6 })));
    assert_eq!(lexer.next(), Some((Token::GroupStart, Span { lo: 7, hi: 8 })));
    assert_eq!(lexer.next(), Some((Token::Str("ab".into()), Span { lo: 8, hi: 12 })));
    assert_eq!(lexer.next(), Some((Token::GroupEnd, Span { lo: 12, hi: 13 })));
    assert_eq!(lexer.next(), None);
    assert_eq!(lexer.next(), None);
}

#[test]
fn lexer_stops_at_unrecognized_characters() {
    assert_eq!(tokens("(`a` = `b`) # (`c` = `d`)"), Err(LexError { position: 12 }));
    let mut lexer = Lexer::new("(# )");
    assert_eq!(lexer.next(), Some((Token::GroupStart, Span { lo: 0, hi: 1 })));
    assert_eq!(lexer.next(), None);
    assert_eq!(lexer.next(), None);
    assert_eq!(tokens("\u{e9}"), Err(LexError { position: 0 }));
    assert_eq!(tokens("(`unclosed"), Err(LexError { position: 1 }));
    assert_eq!(tokens("( [open"), Err(LexError { position: 2 }));
}

#[test]
fn token_grammar_requires_groups() {
    let err = parse(&tokens("`age` > `18`").unwrap()).unwrap_err();
    assert_eq!(err, ParseError { index: 0, span: Some(Span { lo: 0, hi: 5 }) });
    let search = parse(&tokens("(`age` > `18`)").unwrap()).unwrap();
    assert_eq!(search.stmts.len(), 1);
    assert_eq!(search.stmts[0].node, Expr::Greater("age".into(), "18".into()));
    assert_eq!(search.stmts[0].span, Span { lo: 1, hi: 13 });
}

#[test]
fn token_grammar_lists_and_null_tests() {
    let search = parse(&tokens("(`sex` ? [male, Male])").unwrap()).unwrap();
    assert_eq!(search.stmts[0].node, Expr::In("sex".into(), vec!["male".into(), "Male".into()]));
    assert_eq!(search.stmts[0].span, Span { lo: 1, hi: 21 });
    let search = parse(&tokens("(`age` -)").unwrap()).unwrap();
    assert_eq!(search.stmts[0].node, Expr::IsNone("age".into()));
    assert_eq!(search.stmts[0].span, Span { lo: 1, hi: 8 });
    let err = parse(&tokens("(`a` ? `b`)").unwrap()).unwrap_err();
    assert_eq!(err.index, 3);
}

#[test]
fn token_grammar_shapes_and_errors() {
    let a = parse(&tokens("(`a` = `1` & (`b` = `2` | `c` = `3`))").unwrap()).unwrap();
    let b = parse(&tokens("((`a` = `1` & `b` = `2`) | `c` = `3`)").unwrap()).unwrap();
    assert_ne!(a, b);
    assert!(matches!(a.stmts[0].node, Expr::And(_, _)));
    assert!(matches!(b.stmts[0].node, Expr::Or(_, _)));
    assert_eq!(b.stmts[0].span, Span { lo: 0, hi: 37 });
    let two = parse(&tokens("(! `a` = `1`) (`b` ~ `2`)").unwrap()).unwrap();
    assert_eq!(two.stmts.len(), 2);
    assert!(matches!(two.stmts[0].node, Expr::Not(_)));
    assert_eq!(parse(&tokens("").unwrap()).unwrap().stmts.len(), 0);
    // a relation may not be wrapped twice
    let err = parse(&tokens("((`a` = `1`))").unwrap()).unwrap_err();
    assert_eq!(err.index, 6);
    // the input ends too soon
    let err = parse(&tokens("(`a` = `1`").unwrap()).unwrap_err();
    assert_eq!(err, ParseError { index: 4, span: None });
}
