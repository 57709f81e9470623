use vec_filter::{parse_query, PersonProperties, Value, AST};

fn parsed(input: &str) -> AST<PersonProperties> {
    parse_query::<PersonProperties>(input).unwrap()
}

fn hiking_text() -> Value {
    Value::String("hiking".to_string())
}

fn hiking_list() -> Value {
    Value::VecString(vec!["hiking".to_string()])
}

#[test]
fn test_parse_equals_operation() {
    assert_eq!(parsed("age == 30"), AST::Equals { field: PersonProperties::age, value: Value::Int(30) });
}

#[test]
fn test_parse_not_equals_operation() {
    assert_eq!(parsed("age != 30"), AST::NotEquals { field: PersonProperties::age, value: Value::Int(30) });
}

#[test]
fn test_parse_contains_operation() {
    assert_eq!(
        parsed("interests in [\"hiking\"]"),
        AST::In { field: PersonProperties::interests, value: hiking_list() }
    );
}

#[test]
fn test_parse_and_operation() {
    assert_eq!(
        parsed("(age == 30) && (interests in [\"hiking\"])"),
        AST::And(
            Box::new(AST::Equals { field: PersonProperties::age, value: Value::Int(30) }),
            Box::new(AST::In { field: PersonProperties::interests, value: hiking_list() })
        )
    );
}

#[test]
fn test_parse_or_operation() {
    assert_eq!(
        parsed("(age == 30) || (interests in [\"hiking\"])"),
        AST::Or(
            Box::new(AST::Equals { field: PersonProperties::age, value: Value::Int(30) }),
            Box::new(AST::In { field: PersonProperties::interests, value: hiking_list() })
        )
    );
}

#[test]
fn test_parse_greater_than_operation() {
    assert_eq!(parsed("age > 25"), AST::GreaterThan { field: PersonProperties::age, value: Value::Int(25) });
}

#[test]
fn test_parse_greater_than_or_equal_operation() {
    assert_eq!(
        parsed("age >= 25"),
        AST::GreaterThanOrEqual { field: PersonProperties::age, value: Value::Int(25) }
    );
}

#[test]
fn test_parse_less_than_operation() {
    assert_eq!(parsed("age < 25"), AST::LessThan { field: PersonProperties::age, value: Value::Int(25) });
}

#[test]
fn test_parse_less_than_or_equal_operation() {
    assert_eq!(
        parsed("age <= 25"),
        AST::LessThanOrEqual { field: PersonProperties::age, value: Value::Int(25) }
    );
}

#[test]
fn test_parse_interests_contains_operation() {
    assert_eq!(
        parsed("interests in \"hiking\""),
        AST::In { field: PersonProperties::interests, value: hiking_text() }
    );
}

#[test]
fn test_parse_not_operation() {
    assert_eq!(
        parsed("!(age == 30)"),
        AST::Not(Box::new(AST::Equals { field: PersonProperties::age, value: Value::Int(30) }))
    );
}

#[test]
fn test_parse_complex_and_operation() {
    assert_eq!(
        parsed("(age > 25) && (interests in \"hiking\")"),
        AST::And(
            Box::new(AST::GreaterThan { field: PersonProperties::age, value: Value::Int(25) }),
            Box::new(AST::In { field: PersonProperties::interests, value: hiking_text() })
        )
    );
}

#[test]
fn test_parse_complex_or_operation() {
    assert_eq!(
        parsed("(age < 25) || (interests in \"hiking\")"),
        AST::Or(
            Box::new(AST::LessThan { field: PersonProperties::age, value: Value::Int(25) }),
            Box::new(AST::In { field: PersonProperties::interests, value: hiking_text() })
        )
    );
}

#[test]
fn test_parse_complex_mixed_operations() {
    assert_eq!(
        parsed("((age > 20) && (age < 30)) || (interests in \"hiking\")"),
        AST::Or(
            Box::new(AST::And(
                Box::new(AST::GreaterThan { field: PersonProperties::age, value: Value::Int(20) }),
                Box::new(AST::LessThan { field: PersonProperties::age, value: Value::Int(30) })
            )),
            Box::new(AST::In { field: PersonProperties::interests, value: hiking_text() })
        )
    );
}

#[test]
fn test_parse_name_equals_operation() {
    assert_eq!(
        parsed("name == \"Alice\""),
        AST::Equals { field: PersonProperties::name, value: Value::String("Alice".to_string()) }
    );
}

#[test]
fn test_parse_name_not_equals_operation() {
    assert_eq!(
        parsed("name != \"Alice\""),
        AST::NotEquals { field: PersonProperties::name, value: Value::String("Alice".to_string()) }
    );
}

#[test]
fn test_parse_name_contains_operation() {
    assert_eq!(
        parsed("name contains \"A\""),
        AST::Contains { field: PersonProperties::name, value: Value::String("A".to_string()) }
    );
}

#[test]
fn test_parse_and_and_operation() {
    assert_eq!(
        parsed("((age > 20) && (age < 30)) && (interests in \"hiking\")"),
        AST::And(
            Box::new(AST::And(
                Box::new(AST::GreaterThan { field: PersonProperties::age, value: Value::Int(20) }),
                Box::new(AST::LessThan { field: PersonProperties::age, value: Value::Int(30) })
            )),
            Box::new(AST::In { field: PersonProperties::interests, value: hiking_text() })
        )
    );
}

#[test]
fn test_parse_or_or_operation() {
    assert_eq!(
        parsed("((age > 20) && (age < 30)) || ((name in \"A\") || (interests in \"hiking\"))"),
        AST::Or(
            Box::new(AST::And(
                Box::new(AST::GreaterThan { field: PersonProperties::age, value: Value::Int(20) }),
                Box::new(AST::LessThan { field: PersonProperties::age, value: Value::Int(30) })
            )),
            Box::new(AST::Or(
                Box::new(AST::In { field: PersonProperties::name, value: Value::String("A".to_string()) }),
                Box::new(AST::In { field: PersonProperties::interests, value: hiking_text() })
            ))
        )
    );
}

#[test]
fn test_parse_complex_nested_operations() {
    assert_eq!(
        parsed("(!(age > 20) && (name contains \"A\")) || (interests in \"hiking\")"),
        AST::Or(
            Box::new(AST::And(
                Box::new(AST::Not(Box::new(AST::GreaterThan {
                    field: PersonProperties::age,
                    value: Value::Int(20)
                }))),
                Box::new(AST::Contains { field: PersonProperties::name, value: Value::String("A".to_string()) })
            )),
            Box::new(AST::In { field: PersonProperties::interests, value: hiking_text() })
        )
    );
}

#[test]
fn test_parse_integer_list() {
    assert_eq!(
        parsed("age in [20,25]"),
        AST::In { field: PersonProperties::age, value: Value::VecInt(vec![20, 25]) }
    );
}

#[test]
fn test_parse_field_names_ignore_ascii_case() {
    assert_eq!(parsed("AGE == 30"), AST::Equals { field: PersonProperties::age, value: Value::Int(30) });
}

#[test]
fn test_parse_surrounding_whitespace() {
    assert_eq!(parsed("  age==30 \n"), AST::Equals { field: PersonProperties::age, value: Value::Int(30) });
}

#[test]
fn test_parse_largest_integer() {
    assert_eq!(
        parsed("age == 2147483647"),
        AST::Equals { field: PersonProperties::age, value: Value::Int(2147483647) }
    );
}
