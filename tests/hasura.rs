use flp_gsp::interpreter::hasura::{interpret, Error, HasuraType, HasuraTypes};
use flp_gsp::Expression;

#[test]
fn hasura_test_sqlite() {
    let s = r#"(  (((! "age" -) & (! "age" > "18")) & ("sex" ? ["male", "Male"     ] | "sex" ~ "Female")) & "name" * "J?c*")"#;
    let expression = Expression::try_from_str(s).unwrap();

    let mut types = HasuraTypes::new();
    types.insert("age".into(), HasuraType::Integer);
    types.insert("sex".into(), HasuraType::StringLike);
    types.insert("name".into(), HasuraType::StringLike);

    let interpreted = interpret(&expression, &types).unwrap();
    let clause = interpreted;

    assert_eq!(
        clause,
        "{_and:[{_and:[{_and:[{_not:{age:{_is_null:true}}},{_not:{age:{_gt:18}}}]},{_or:[{sex:{_in:[\"male\",\"Male\"]}},{sex:{_ilike:\"Female\"}}]}]},{name:{_ilike:\"J_c%\"}}]}"
    );
}

fn types() -> HasuraTypes {
    let mut types = HasuraTypes::new();
    types.insert("age".into(), HasuraType::Integer);
    types.insert("name".into(), HasuraType::StringLike);
    types.insert("ok".into(), HasuraType::Boolean);
    types.insert("score".into(), HasuraType::Float);
    types
}

fn compile(s: &str) -> Result<String, Error> {
    interpret(&Expression::try_from_str(s).unwrap(), &types())
}

#[test]
fn hasura_literals_by_kind() {
    assert_eq!(compile(r#"("age" > "18")"#).unwrap(), "{age:{_gt:18}}");
    assert_eq!(compile(r#"("age" = "+007")"#).unwrap(), "{age:{_eq:7}}");
    assert_eq!(compile(r#"("age" < "-5")"#).unwrap(), "{age:{_lt:-5}}");
    assert_eq!(compile(r#"("name" * "J?c*")"#).unwrap(), "{name:{_ilike:\"J_c%\"}}");
    assert_eq!(compile(r#"("name" $ "^J.*")"#).unwrap(), "{name:{_regex:\"^J.*\"}}");
    assert_eq!(compile(r#"("ok" = "true")"#).unwrap(), "{ok:{_eq:true}}");
    assert_eq!(compile(r#"("score" > "1.5e3")"#).unwrap(), "{score:{_gt:1.5e3}}");
    assert_eq!(compile(r#"("age" ? [])"#).unwrap(), "{age:{_in:[]}}");
    assert_eq!(compile(r#"("age" ? ["1", "2"])"#).unwrap(), "{age:{_in:[1,2]}}");
    assert_eq!(
        compile(r#"(("age" > "1") | (! "name" -))"#).unwrap(),
        "{_or:[{age:{_gt:1}},{_not:{name:{_is_null:true}}}]}"
    );
}

#[test]
fn hasura_unknown_field() {
    assert_eq!(
        compile(r#"("age" > "18" & "city" = "Paris")"#),
        Err(Error::UnknownField("city".into()))
    );
    assert_eq!(compile(r#"("city" -)"#), Err(Error::UnknownField("city".into())));
    assert_eq!(compile(r#"("city" ? [])"#), Err(Error::UnknownField("city".into())));
}

#[test]
fn hasura_coercion_failures() {
    assert_eq!(
        compile(r#"("age" = "abc")"#),
        Err(Error::TypeCoercion { field: "age".into(), kind: HasuraType::Integer })
    );
    assert_eq!(
        compile(r#"("age" = "9223372036854775808")"#),
        Err(Error::TypeCoercion { field: "age".into(), kind: HasuraType::Integer })
    );
    assert_eq!(
        compile(r#"("ok" = "yes")"#),
        Err(Error::TypeCoercion { field: "ok".into(), kind: HasuraType::Boolean })
    );
    assert_eq!(
        compile(r#"("score" = "1.2.3")"#),
        Err(Error::TypeCoercion { field: "score".into(), kind: HasuraType::Float })
    );
    assert_eq!(
        compile(r#"("age" ? ["1", "x"])"#),
        Err(Error::TypeCoercion { field: "age".into(), kind: HasuraType::Integer })
    );
}

#[test]
fn hasura_type_to_string() {
    assert_eq!(HasuraType::Integer.to_hasura_string("0042"), Some("42".to_string()));
    assert_eq!(HasuraType::Integer.to_hasura_string("4 2"), None);
    assert_eq!(HasuraType::Float.to_hasura_string("inf"), Some("inf".to_string()));
    assert_eq!(HasuraType::Float.to_hasura_string(".5"), Some(".5".to_string()));
    assert_eq!(HasuraType::Float.to_hasura_string("."), None);
    assert_eq!(HasuraType::Boolean.to_hasura_string("false"), Some("false".to_string()));
    assert_eq!(HasuraType::StringLike.to_hasura_string("a"), Some("\"a\"".to_string()));
}
