use flp_gsp::interpreter::mysql::{interpret, Error, MysqlRenames, MysqlType, MysqlTypes};
use flp_gsp::values::{Cause, Date, Decimal};
use flp_gsp::Expression;

#[test]
fn test_mysql() {
    let s = r#"((((! "age" -) & (! "age" > "18")) & ("sex" ? ["male", "Male"] | "sex" ~ "Female")) & "name" * "J?c*")"#;
    let expression = Expression::try_from_str(s).unwrap();

    let mut renames = MysqlRenames::new();
    renames.insert("name".into(), "t.name".into());
    renames.insert("sex".into(), "gender".into());

    let mut types = MysqlTypes::new();
    types.insert("age".into(), MysqlType::Unsigned(None));
    types.insert("sex".into(), MysqlType::StringLike(None));
    types.insert("name".into(), MysqlType::StringLike(None));

    let interpreted = interpret(&expression, &renames, &types).unwrap();
    let (clause, binds) = interpreted;

    assert_eq!(
        clause,
        "((((NOT age IS NULL) AND (NOT age > ?)) AND (gender IN (?, ?) OR gender LIKE ?)) AND t.name LIKE ?)"
    );
    assert_eq!(
        binds,
        vec![
            MysqlType::Unsigned(Some(18)),
            MysqlType::StringLike(Some("male".into())),
            MysqlType::StringLike(Some("Male".into())),
            MysqlType::StringLike(Some("Female".into())),
            MysqlType::StringLike(Some("J_c%".into()))
        ]
    );
}

fn registry() -> (MysqlRenames, MysqlTypes) {
    let mut renames = MysqlRenames::new();
    renames.insert("name".into(), "t.name".into());
    renames.insert("sex".into(), "gender".into());
    let mut types = MysqlTypes::new();
    types.insert("age".into(), MysqlType::Unsigned(None));
    types.insert("sex".into(), MysqlType::StringLike(None));
    types.insert("name".into(), MysqlType::StringLike(None));
    types.insert("born".into(), MysqlType::Date(None));
    types.insert("seen".into(), MysqlType::TimeStamp(None));
    types.insert("price".into(), MysqlType::Decimal(None));
    types.insert("doc".into(), MysqlType::Json(None));
    types.insert("raw".into(), MysqlType::Binary(None));
    types.insert("ratio".into(), MysqlType::Double(None));
    types.insert("n".into(), MysqlType::Int(None));
    (renames, types)
}

fn compile(s: &str) -> Result<(String, Vec<MysqlType>), Error> {
    let (renames, types) = registry();
    interpret(&Expression::try_from_str(s).unwrap(), &renames, &types)
}

#[test]
fn mysql_example_without_null_branch() {
    let (clause, binds) = compile(
        r#"(((!("age">"18")) & ("sex"?["male","Male"] | "sex"~"Female")) & "name"*"J?c*")"#,
    )
    .unwrap();
    assert_eq!(
        clause,
        "(((NOT age > ?) AND (gender IN (?, ?) OR gender LIKE ?)) AND t.name LIKE ?)"
    );
    assert_eq!(
        binds,
        vec![
            MysqlType::Unsigned(Some(18)),
            MysqlType::StringLike(Some("male".into())),
            MysqlType::StringLike(Some("Male".into())),
            MysqlType::StringLike(Some("Female".into())),
            MysqlType::StringLike(Some("J_c%".into()))
        ]
    );
}

#[test]
fn mysql_grouping_changes_the_clause() {
    let (a, _) = compile(r#"("age" = "1" & ("sex" = "2" | "name" = "3"))"#).unwrap();
    let (b, _) = compile(r#"(("age" = "1" & "sex" = "2") | "name" = "3")"#).unwrap();
    assert_eq!(a, "(age = ? AND (gender = ? OR t.name = ?))");
    assert_eq!(b, "((age = ? AND gender = ?) OR t.name = ?)");
}

#[test]
fn mysql_empty_list_is_false() {
    let (clause, binds) = compile(r#"("age" ? [])"#).unwrap();
    assert_eq!(clause, "FALSE");
    assert!(binds.is_empty());
}

#[test]
fn mysql_regex_uses_regexp() {
    let (clause, binds) = compile(r#"("name" $ "^J")"#).unwrap();
    assert_eq!(clause, "t.name REGEXP ?");
    assert_eq!(binds, vec![MysqlType::StringLike(Some("^J".into()))]);
}

#[test]
fn mysql_errors() {
    assert_eq!(compile(r#"("city" = "x")"#), Err(Error::UnknownField("city".into())));
    assert_eq!(compile(r#"("city" -)"#), Err(Error::UnknownField("city".into())));
    assert_eq!(
        compile(r#"("n" = "abc")"#),
        Err(Error::TypeCoercion { field: "n".into(), kind: "Int".into(), cause: Cause::Int })
    );
    assert_eq!(
        compile(r#"("age" = "-1")"#),
        Err(Error::TypeCoercion { field: "age".into(), kind: "Unsigned".into(), cause: Cause::Int })
    );
    assert_eq!(
        compile(r#"("born" > "yesterday")"#),
        Err(Error::TypeCoercion { field: "born".into(), kind: "Date".into(), cause: Cause::Chrono })
    );
    assert_eq!(
        compile(r#"("ratio" > "x")"#),
        Err(Error::TypeCoercion { field: "ratio".into(), kind: "Double".into(), cause: Cause::Float })
    );
    // the first failure in the order of the text is reported
    assert_eq!(
        compile(r#"("n" = "abc" & "city" = "x")"#),
        Err(Error::TypeCoercion { field: "n".into(), kind: "Int".into(), cause: Cause::Int })
    );
}

#[test]
fn mysql_kinds() {
    let (_, binds) = compile(r#"("born" = "2020-01-02")"#).unwrap();
    assert_eq!(binds, vec![MysqlType::Date(Some(Date { year: 2020, month: 1, day: 2 }))]);
    let (_, binds) = compile(r#"("seen" = "1970-01-01T00:01:00Z")"#).unwrap();
    assert_eq!(
        binds,
        vec![MysqlType::TimeStamp(Some(flp_gsp::values::Timestamp { seconds: 60, nanos: 0 }))]
    );
    let (_, binds) = compile(r#"("price" = "1.50")"#).unwrap();
    assert_eq!(binds, vec![MysqlType::Decimal(Some(Decimal { mantissa: 150, scale: 2 }))]);
    let (_, binds) = compile(r#"("doc" = "{\"b\": [1, 2], \"a\": null}")"#).unwrap();
    assert_eq!(binds, vec![MysqlType::Json(Some("{\"a\":null,\"b\":[1,2]}".into()))]);
    let (_, binds) = compile(r#"("raw" = "é")"#).unwrap();
    assert_eq!(binds, vec![MysqlType::Binary(Some(vec![0xc3, 0xa9]))]);
    let (_, binds) = compile(r#"("ratio" = "2.5")"#).unwrap();
    assert_eq!(binds, vec![MysqlType::Double(Some("2.5".into()))]);
    let (_, binds) = compile(r#"("n" = "NULL")"#).unwrap();
    assert_eq!(binds, vec![MysqlType::Int(None)]);
    let (_, binds) = compile(r#"("name" = "none")"#).unwrap();
    assert_eq!(binds, vec![MysqlType::StringLike(None)]);
}

#[test]
fn mysql_replace_and_return() {
    assert_eq!(MysqlType::TinyInt(None).replace_and_return("-128"), Ok(MysqlType::TinyInt(Some(-128))));
    assert_eq!(MysqlType::TinyInt(None).replace_and_return("128"), Err(Cause::Int));
    assert_eq!(MysqlType::Bool(None).replace_and_return("true"), Ok(MysqlType::Bool(Some(true))));
    assert_eq!(MysqlType::Bool(None).replace_and_return("True"), Err(Cause::Bool));
    assert_eq!(
        MysqlType::BigUnsigned(None).replace_and_return("18446744073709551615"),
        Ok(MysqlType::BigUnsigned(Some(u64::MAX)))
    );
}

#[test]
fn mysql_permissive_reads_unknown_fields_as_strings() {
    let (renames, types) = registry();
    let e = Expression::try_from_str(r#"("city" = "Paris" & "n" > "3")"#).unwrap();
    assert_eq!(
        flp_gsp::interpreter::mysql::interpret_permissive(&e, &renames, &types).unwrap(),
        (
            "(city = ? AND n > ?)".to_string(),
            vec![MysqlType::StringLike(Some("Paris".into())), MysqlType::Int(Some(3))]
        )
    );
    assert_eq!(interpret(&e, &renames, &types), Err(Error::UnknownField("city".into())));
}
