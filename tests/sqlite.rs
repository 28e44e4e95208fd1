use flp_gsp::interpreter::sqlite::{interpret, Error, SqliteRenames, SqliteType, SqliteTypes};
use flp_gsp::values::Cause;
use flp_gsp::Expression;

#[test]
fn sqlite_test_sqlite() {
    let s = r#"((((! "age" -) & (! "age" > "18")) & ("sex" ? ["male", "Male"] | "sex" ~ "Female")) & "name" * "J?c*")"#;
    let expression = Expression::try_from_str(s).unwrap();

    let mut renames = SqliteRenames::new();
    renames.insert("name".into(), "t.name".into());
    renames.insert("sex".into(), "gender".into());

    let mut types = SqliteTypes::new();
    types.insert("age".into(), SqliteType::Integer(None));
    types.insert("sex".into(), SqliteType::Text(None));
    types.insert("name".into(), SqliteType::Text(None));

    let interpreted = interpret(&expression, &renames, &types).unwrap();
    let (clause, binds) = interpreted;

    assert_eq!(
        clause,
        "((((NOT age IS NULL) AND (NOT age > ?)) AND (gender IN (?, ?) OR gender LIKE ?)) AND t.name LIKE ?)"
    );
    assert_eq!(
        binds,
        vec![
            SqliteType::Integer(Some(18)),
            SqliteType::Text(Some("male".into())),
            SqliteType::Text(Some("Male".into())),
            SqliteType::Text(Some("Female".into())),
            SqliteType::Text(Some("J_c%".into()))
        ]
    );
}

#[test]
fn sqlite_empty_list_and_errors() {
    let renames = SqliteRenames::new();
    let mut types = SqliteTypes::new();
    types.insert("age".into(), SqliteType::Integer(None));
    types.insert("ok".into(), SqliteType::Boolean(None));
    let e = Expression::try_from_str(r#"("age" ? [])"#).unwrap();
    assert_eq!(interpret(&e, &renames, &types).unwrap(), ("FALSE".to_string(), vec![]));
    let e = Expression::try_from_str(r#"("age" = "abc")"#).unwrap();
    assert_eq!(
        interpret(&e, &renames, &types),
        Err(Error::TypeCoercion { field: "age".into(), kind: "Integer".into(), cause: Cause::Int })
    );
    let e = Expression::try_from_str(r#"("ok" = "false" | "age" ~ "1")"#).unwrap();
    assert_eq!(
        interpret(&e, &renames, &types).unwrap(),
        (
            "(ok = ? OR age LIKE ?)".to_string(),
            vec![SqliteType::Boolean(Some(false)), SqliteType::Integer(Some(1))]
        )
    );
}

#[test]
fn sqlite_permissive_reads_unknown_fields_as_text() {
    let renames = SqliteRenames::new();
    let types = SqliteTypes::new();
    let e = Expression::try_from_str(r#"("city" ? ["a", "b"])"#).unwrap();
    assert_eq!(
        flp_gsp::interpreter::sqlite::interpret_permissive(&e, &renames, &types).unwrap(),
        (
            "city IN (?, ?)".to_string(),
            vec![SqliteType::Text(Some("a".into())), SqliteType::Text(Some("b".into()))]
        )
    );
}

#[test]
fn sqlite_compiles_each_statement_of_a_search() {
    let mut renames = SqliteRenames::new();
    renames.insert("name".into(), "t.name".into());
    let mut types = SqliteTypes::new();
    types.insert("age".into(), SqliteType::Integer(None));
    types.insert("name".into(), SqliteType::Text(None));
    let toks = flp_gsp::lexer::tokens("(`age` > `18`) (`name` ? [a, b]) (! `name` -)").unwrap();
    let search = flp_gsp::parser::parse(&toks).unwrap();
    let out = flp_gsp::interpreter::sqlite::interpret_search(&search, &renames, &types).unwrap();
    assert_eq!(
        out,
        vec![
            ("age > ?".to_string(), vec![SqliteType::Integer(Some(18))]),
            (
                "t.name IN (?, ?)".to_string(),
                vec![SqliteType::Text(Some("a".into())), SqliteType::Text(Some("b".into()))]
            ),
            ("(NOT t.name IS NULL)".to_string(), vec![]),
        ]
    );
    let toks = flp_gsp::lexer::tokens("(`age` > `18`) (`city` = `x`)").unwrap();
    let search = flp_gsp::parser::parse(&toks).unwrap();
    assert_eq!(
        flp_gsp::interpreter::sqlite::interpret_search(&search, &renames, &types),
        Err(Error::UnknownField("city".into()))
    );
}
