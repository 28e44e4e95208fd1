use flp_gsp::interpreter::postgres::{interpret, PostgresRenames, PostgresType, PostgresTypes};
use flp_gsp::interpreter::postgres::interpret_from;
use flp_gsp::values::IpNet;
use flp_gsp::Expression;

#[test]
fn test_postgres() {
    let s = r#"((((! "age" -) & (! "age" > "18")) & ("sex" ? ["male", "Male"] | "sex" ~ "Female")) & "\"name\"" * "J?c*")"#;
    let expression = Expression::try_from_str(s).unwrap();
    println!("{:?}", expression);

    let mut renames = PostgresRenames::new();
    renames.insert("sex".into(), "gender".into());

    let mut types = PostgresTypes::new();
    types.insert("age".into(), PostgresType::Int(None));
    types.insert("sex".into(), PostgresType::StringLike(None));
    types.insert("\"name\"".into(), PostgresType::StringLike(None));

    let interpreted = interpret(&expression, &renames, &types, 1).unwrap();
    let (clause, binds) = interpreted;

    assert_eq!(
        clause,
        "((((NOT age IS NULL) AND (NOT age > $1)) AND (gender IN ($2, $3) OR gender ILIKE $4)) AND \"name\" ILIKE $5)"
    );
    assert_eq!(
        binds,
        vec![
            PostgresType::Int(Some(18)),
            PostgresType::StringLike(Some("male".into())),
            PostgresType::StringLike(Some("Male".into())),
            PostgresType::StringLike(Some("Female".into())),
            PostgresType::StringLike(Some("J_c%".into()))
        ]
    );
}

fn registry() -> (PostgresRenames, PostgresTypes) {
    let mut renames = PostgresRenames::new();
    renames.insert("name".into(), "t.name".into());
    renames.insert("sex".into(), "gender".into());
    let mut types = PostgresTypes::new();
    types.insert("age".into(), PostgresType::Int(None));
    types.insert("sex".into(), PostgresType::StringLike(None));
    types.insert("name".into(), PostgresType::StringLike(None));
    types.insert("id".into(), PostgresType::Uuid(None));
    types.insert("net".into(), PostgresType::INet(None));
    types.insert("flags".into(), PostgresType::VarBit(None));
    (renames, types)
}

#[test]
fn postgres_numbering_continues_from_index() {
    let s = r#"(((!("age">"18")) & ("sex"?["male","Male"] | "sex"~"Female")) & "name"*"J?c*")"#;
    let expression = Expression::try_from_str(s).unwrap();
    let (renames, types) = registry();
    let (first, _) = interpret(&expression, &renames, &types, 1).unwrap();
    assert_eq!(
        first,
        "(((NOT age > $1) AND (gender IN ($2, $3) OR gender ILIKE $4)) AND t.name ILIKE $5)"
    );
    let (second, binds) = interpret(&expression, &renames, &types, 6).unwrap();
    assert_eq!(
        second,
        "(((NOT age > $6) AND (gender IN ($7, $8) OR gender ILIKE $9)) AND t.name ILIKE $10)"
    );
    assert_eq!(binds.len(), 5);
}

#[test]
fn postgres_empty_list_and_kinds() {
    let (renames, types) = registry();
    let e = Expression::try_from_str(r#"("age" ? [])"#).unwrap();
    let (clause, binds) = interpret(&e, &renames, &types, 3).unwrap();
    assert_eq!(clause, "FALSE");
    assert!(binds.is_empty());
    let e = Expression::try_from_str(r#"("id" = "67e55044-10b1-426f-9247-bb680e5fe0c8")"#).unwrap();
    let (clause, binds) = interpret(&e, &renames, &types, 1).unwrap();
    assert_eq!(clause, "id = $1");
    assert_eq!(binds, vec![PostgresType::Uuid(Some(0x67e5504410b1426f9247bb680e5fe0c8))]);
    let e = Expression::try_from_str(r#"("net" = "10.0.0.0/8")"#).unwrap();
    let (_, binds) = interpret(&e, &renames, &types, 1).unwrap();
    assert_eq!(binds, vec![PostgresType::INet(Some(IpNet::V4(0x0a00_0000, 8)))]);
    let e = Expression::try_from_str(r#"("flags" = "1")"#).unwrap();
    let (_, binds) = interpret(&e, &renames, &types, 1).unwrap();
    assert_eq!(binds, vec![PostgresType::VarBit(Some(1))]);
    let e = Expression::try_from_str(r#"("id" = "not-a-uuid")"#).unwrap();
    assert!(interpret(&e, &renames, &types, 1).is_err());
}

#[test]
fn postgres_permissive_reads_unknown_fields_as_strings() {
    let (renames, types) = registry();
    let e = Expression::try_from_str(r#"("city" ~ "paris" | "city" -)"#).unwrap();
    let (clause, binds) =
        flp_gsp::interpreter::postgres::interpret_permissive(&e, &renames, &types, 4).unwrap();
    assert_eq!(clause, "(city ILIKE $4 OR city IS NULL)");
    assert_eq!(binds, vec![PostgresType::StringLike(Some("paris".into()))]);
    assert!(interpret(&e, &renames, &types, 4).is_err());
}

#[test]
fn postgres_counter_moves_past_the_last_number() {
    let (renames, types) = registry();
    let e = Expression::try_from_str(r#"("age" ? ["1", "2"] | "name" $ "^J")"#).unwrap();
    let mut next: usize = 3;
    let (clause, binds) = interpret_from(&e, &renames, &types, &mut next).unwrap();
    assert_eq!(clause, "(age IN ($3, $4) OR t.name ~ $5)");
    assert_eq!(binds.len(), 3);
    assert_eq!(next, 6);
    let (clause, _) = interpret_from(&e, &renames, &types, &mut next).unwrap();
    assert_eq!(clause, "(age IN ($6, $7) OR t.name ~ $8)");
    assert_eq!(next, 9);
    let bad = Expression::try_from_str(r#"("city" = "x")"#).unwrap();
    assert!(interpret_from(&bad, &renames, &types, &mut next).is_err());
    assert_eq!(next, 9);
}
