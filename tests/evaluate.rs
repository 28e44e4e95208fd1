use flp_gsp::interpreter::evaluate::{
    interpret, EvaluatePairs, EvaluateRule, EvaluateRules, Equality, Order,
};
use flp_gsp::Expression;

struct Person {
    name: String,
    age: u8,
    sex: String,
}

fn person(name: &str, age: u8, sex: &str) -> Person {
    Person { name: name.into(), age, sex: sex.into() }
}

fn rules_with_numeric_age() -> EvaluateRules {
    let mut rules = EvaluateRules::new();
    rules.insert("name".into(), EvaluateRule::default());
    rules.insert("age".into(), {
        let mut rule = EvaluateRule::default();
        rule.is_greater_than = Order::Integer;
        rule.is_less_than = Order::Integer;
        rule
    });
    rules.insert("sex".into(), EvaluateRule::default());
    rules
}

fn pairs_of(p: &Person) -> EvaluatePairs {
    let mut pairs = EvaluatePairs::new();
    pairs.insert("name".into(), p.name.clone());
    pairs.insert("age".into(), p.age.to_string());
    pairs.insert("sex".into(), p.sex.clone());
    pairs
}

#[test]
fn test_evaluate() {
    let s = r#"(((! "age" > "18") & ("sex" ? ["male", "Male"] | "sex" ~ "Female")) & "name" * "J?c*")"#;
    let expression = Expression::try_from_str(s).unwrap();
    let rules = rules_with_numeric_age();

    let persons = vec![
        person("JacKkkk", 18, "Male"),
        person("Joc", 1, "Female"),
        person("jacKkkk", 18, "Male"),
        person("JacKkkkew", 20, "Male"),
        person("Jac", 5, "Other"),
    ];

    let names = persons
        .into_iter()
        .filter_map(|a| {
            if interpret(&expression, &rules, &pairs_of(&a)) {
                Some(a.name)
            } else {
                None
            }
        })
        .collect::<Vec<_>>();

    assert_eq!(names, vec!["JacKkkk", "Joc"]);
}

#[test]
fn test_invalid() {
    let s = r#"("="")"#;
    let expression = Expression::try_from_str(s);
    assert!(expression.is_err());
}

#[test]
fn evaluate_example_record_and_older_record() {
    let s = r#"(((!("age">"18")) & (("sex" ? [ "male","Male"] | "sex"~"Female"))) & "name"*"J?c*")"#;
    assert!(Expression::try_from_str(s).is_err());
    let s = r#"(((!("age">"18")) & ("sex" ? [ "male","Male"] | "sex"~"Female")) & "name"*"J?c*")"#;
    let expression = Expression::try_from_str(s).unwrap();
    let rules = rules_with_numeric_age();
    assert!(interpret(&expression, &rules, &pairs_of(&person("JacKkkk", 18, "Male"))));
    assert!(!interpret(&expression, &rules, &pairs_of(&person("JacKkkk", 20, "Male"))));
}

#[test]
fn evaluate_missing_rule_or_value_is_false() {
    let expression = Expression::try_from_str(r#"("city" = "Paris")"#).unwrap();
    let mut rules = EvaluateRules::new();
    let mut pairs = EvaluatePairs::new();
    pairs.insert("city".into(), "Paris".into());
    assert!(!interpret(&expression, &rules, &pairs));
    rules.insert("city".into(), EvaluateRule::default());
    assert!(interpret(&expression, &rules, &pairs));
    let empty = EvaluatePairs::new();
    assert!(!interpret(&expression, &rules, &empty));
    let negated = Expression::try_from_str(r#"(! "city" = "Paris")"#).unwrap();
    assert!(interpret(&negated, &rules, &empty));
}

#[test]
fn evaluate_text_order_and_case() {
    let mut rules = EvaluateRules::new();
    rules.insert("v".into(), EvaluateRule::default());
    let mut pairs = EvaluatePairs::new();
    pairs.insert("v".into(), "9".into());
    // text order: "9" comes after "10"
    let e = Expression::try_from_str(r#"("v" > "10")"#).unwrap();
    assert!(interpret(&e, &rules, &pairs));
    let e = Expression::try_from_str(r#"("v" < "10")"#).unwrap();
    assert!(!interpret(&e, &rules, &pairs));
    let mut numeric = EvaluateRule::default();
    numeric.is_greater_than = Order::Integer;
    numeric.is_equal = Equality::Integer;
    rules.insert("v".into(), numeric);
    let e = Expression::try_from_str(r#"("v" > "10")"#).unwrap();
    assert!(!interpret(&e, &rules, &pairs));
    let e = Expression::try_from_str(r#"("v" = "+09")"#).unwrap();
    assert!(interpret(&e, &rules, &pairs));
    let e = Expression::try_from_str(r#"("v" > "abc")"#).unwrap();
    assert!(!interpret(&e, &rules, &pairs));

    let mut rules = EvaluateRules::new();
    rules.insert("sex".into(), EvaluateRule::default());
    let mut pairs = EvaluatePairs::new();
    pairs.insert("sex".into(), "FeMale".into());
    let e = Expression::try_from_str(r#"("sex" ~ "fEMALE")"#).unwrap();
    assert!(interpret(&e, &rules, &pairs));
    let e = Expression::try_from_str(r#"("sex" = "female")"#).unwrap();
    assert!(!interpret(&e, &rules, &pairs));
}

#[test]
fn evaluate_patterns_lists_and_null() {
    let mut rules = EvaluateRules::new();
    rules.insert("name".into(), EvaluateRule::default());
    let mut pairs = EvaluatePairs::new();
    pairs.insert("name".into(), "Jacob".into());
    let e = Expression::try_from_str(r#"("name" * "J*b")"#).unwrap();
    assert!(interpret(&e, &rules, &pairs));
    let e = Expression::try_from_str(r#"("name" * "J?b")"#).unwrap();
    assert!(!interpret(&e, &rules, &pairs));
    let e = Expression::try_from_str(r#"("name" $ "^Ja.o")"#).unwrap();
    assert!(interpret(&e, &rules, &pairs));
    let e = Expression::try_from_str(r#"("name" $ "^b")"#).unwrap();
    assert!(!interpret(&e, &rules, &pairs));
    // a pattern that does not compile matches nothing
    let e = Expression::try_from_str(r#"("name" $ "(")"#).unwrap();
    assert!(!interpret(&e, &rules, &pairs));
    let e = Expression::try_from_str(r#"("name" ? [])"#).unwrap();
    assert!(!interpret(&e, &rules, &pairs));
    let e = Expression::try_from_str(r#"("name" ? ["Ann", "Jacob"])"#).unwrap();
    assert!(interpret(&e, &rules, &pairs));
    let e = Expression::try_from_str(r#"("name" -)"#).unwrap();
    assert!(!interpret(&e, &rules, &pairs));
    pairs.insert("name".into(), "NuLL".into());
    assert!(interpret(&e, &rules, &pairs));
    pairs.insert("name".into(), "None".into());
    assert!(interpret(&e, &rules, &pairs));
    let mut off = EvaluateRule::default();
    off.is_none = false;
    rules.insert("name".into(), off);
    assert!(!interpret(&e, &rules, &pairs));
}
