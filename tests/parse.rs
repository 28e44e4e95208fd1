use flp_gsp::{Expression, Node};

#[test]
fn parsing_twice_gives_the_same_tree() {
    let s = r#"(((! "age" > "18") & ("sex" ? ["male", "Male"] | "sex" ~ "Female")) & "name" * "J?c*")"#;
    let a = Expression::try_from_str(s).unwrap();
    let b = Expression::try_from_str(s).unwrap();
    assert_eq!(a, b);
    assert!(Expression::try_from_str(r#"("a" = )"#).is_err());
    assert!(Expression::try_from_str(r#"("a" = )"#).is_err());
}

#[test]
fn comparisons_need_their_own_parentheses() {
    assert!(Expression::try_from_str(r#""age" > "18""#).is_err());
    let e = Expression::try_from_str(r#"("age" > "18")"#).unwrap();
    assert_eq!(e.node, Node::Greater("age".into(), "18".into()));
    assert!(Expression::try_from_str(r#"(("age" > "18"))"#).is_err());
    assert!(Expression::try_from_str(r#"("a" = "1" & "b" = "2" & "c" = "3")"#).is_err());
}

#[test]
fn grouping_decides_the_tree() {
    let a = Expression::try_from_str(r#"("a" = "1" & ("b" = "2" | "c" = "3"))"#).unwrap();
    let b = Expression::try_from_str(r#"(("a" = "1" & "b" = "2") | "c" = "3")"#).unwrap();
    assert_ne!(a, b);
    match a.node {
        Node::And(_, right) => assert!(matches!(right.node, Node::Or(_, _))),
        _ => panic!("expected a conjunction"),
    }
    match b.node {
        Node::Or(left, _) => assert!(matches!(left.node, Node::And(_, _))),
        _ => panic!("expected a disjunction"),
    }
}

#[test]
fn texts_arrays_and_escapes() {
    let e = Expression::try_from_str(r#"( "a\"b\\c" = "" )"#).unwrap();
    assert_eq!(e.node, Node::Equal("a\"b\\c".into(), "".into()));
    let e = Expression::try_from_str("(\"k\"\t?\t[ \"x\" ,\"y\"  ])").unwrap();
    assert_eq!(e.node, Node::Any("k".into(), vec!["x".into(), "y".into()]));
    let e = Expression::try_from_str(r#"("k" ? [])"#).unwrap();
    assert_eq!(e.node, Node::Any("k".into(), vec![]));
    assert!(Expression::try_from_str(r#"("k" ? ["x",])"#).is_err());
    assert!(Expression::try_from_str(r#"("a\q" = "1")"#).is_err());
    let e = Expression::try_from_str(r#"("k" -)"#).unwrap();
    assert_eq!(e.node, Node::Null("k".into()));
    let e = Expression::try_from_str(r#"(!("k" ~ "v"))"#).unwrap();
    assert!(matches!(e.node, Node::Not(_)));
    let e = Expression::try_from_str("(\"k\" $ \"v\") \t ").unwrap();
    assert_eq!(e.node, Node::Regex("k".into(), "v".into()));
}

#[test]
fn text_after_the_relation_is_rejected() {
    assert_eq!(
        Expression::try_from_str(r#"("a" = "1") junk"#),
        Err("cannot parse the search string".to_string())
    );
    assert!(Expression::try_from_str(r#"("a" = "1") ("b" = "2")"#).is_err());
}

#[test]
fn nesting_is_bounded() {
    let deep = format!("{}(\"a\" = \"1\"){}", "(!".repeat(100000), ")".repeat(100000));
    assert_eq!(Expression::try_from_str(&deep), Err("cannot parse the search string".to_string()));
    let ok = format!("{}(\"a\" = \"1\"){}", "(!".repeat(150), ")".repeat(150));
    assert!(Expression::try_from_str(&ok).is_ok());
    let too_deep = format!("{}(\"a\" = \"1\"){}", "(!".repeat(200), ")".repeat(200));
    assert!(Expression::try_from_str(&too_deep).is_err());
}
