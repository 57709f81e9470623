use vec_filter::{
    parse_query, ASTValidationError, CompatibilityError, FieldNotFound, PersonProperties, Value, AST,
};

fn first_error(input: &str) -> ASTValidationError<PersonProperties> {
    let result = parse_query::<PersonProperties>(input);
    assert!(result.is_err());
    result.unwrap_err().remove(0)
}

#[test]
fn parse_query_error_invalid_field() {
    assert_eq!(
        first_error("field1 == \"value\""),
        ASTValidationError::InvalidField { field_name: "field1".to_string() }
    );
}

#[test]
fn parse_query_error_invalid_comparison() {
    assert_eq!(
        first_error("age == \"Alice\""),
        ASTValidationError::CompatibilityError(CompatibilityError {
            ast: AST::Equals { field: PersonProperties::age, value: Value::String("Alice".to_string()) },
            field: PersonProperties::age,
            provided_value: Value::String("Alice".to_string()),
            valid_values: vec![Value::Int(i32::default())],
        })
    );
}

#[test]
fn parse_query_error_invalid_value_type() {
    assert_eq!(
        first_error("interests == \"reading\""),
        ASTValidationError::CompatibilityError(CompatibilityError {
            ast: AST::Equals {
                field: PersonProperties::interests,
                value: Value::String("reading".to_string()),
            },
            field: PersonProperties::interests,
            provided_value: Value::String("reading".to_string()),
            valid_values: vec![Value::VecString(vec![])],
        })
    );
}

#[test]
fn parse_query_error_ordering_lists_neighbours() {
    assert_eq!(
        first_error("age >= \"x\""),
        ASTValidationError::CompatibilityError(CompatibilityError {
            ast: AST::GreaterThanOrEqual { field: PersonProperties::age, value: Value::String("x".to_string()) },
            field: PersonProperties::age,
            provided_value: Value::String("x".to_string()),
            valid_values: vec![Value::Int(0), Value::Int(-1)],
        })
    );
}

#[test]
fn parse_query_error_in_on_text_field() {
    assert_eq!(
        first_error("name in 3"),
        ASTValidationError::CompatibilityError(CompatibilityError {
            ast: AST::In { field: PersonProperties::name, value: Value::Int(3) },
            field: PersonProperties::name,
            provided_value: Value::Int(3),
            valid_values: vec![Value::String(String::new()), Value::VecString(vec![])],
        })
    );
}

#[test]
fn parse_query_error_contains_on_list_field() {
    let errors = parse_query::<PersonProperties>("interests contains \"hik\"").unwrap_err();
    assert_eq!(errors.len(), 1);
    assert!(matches!(errors[0], ASTValidationError::CompatibilityError(_)));
}

#[test]
fn parse_query_reports_every_mismatch() {
    let errors =
        parse_query::<PersonProperties>("((age == \"a\") && (name == 5)) || (interests > 3)").unwrap_err();
    assert_eq!(errors.len(), 3);
}

#[test]
fn parse_query_reports_unknown_fields_and_mismatches() {
    let errors = parse_query::<PersonProperties>("(height == 3) || (age contains \"x\")").unwrap_err();
    assert_eq!(errors.len(), 2);
    assert_eq!(errors[0], ASTValidationError::InvalidField { field_name: "height".to_string() });
}

#[test]
fn parse_query_field_errors_take_priority_over_trailing_text() {
    let errors = parse_query::<PersonProperties>("(height == 3) garbage").unwrap_err();
    assert_eq!(errors, vec![ASTValidationError::InvalidField { field_name: "height".to_string() }]);
}

#[test]
fn field_not_found_message() {
    assert_eq!(FieldNotFound::new("height").message(), "Field not found: height");
}

#[test]
fn parse_query_error_invalid_syntax() {
    assert_eq!(first_error("field1 == 'value'"), ASTValidationError::InvalidSyntax);
}

#[test]
fn parse_query_error_invalid_and_operator() {
    assert_eq!(first_error("age > 25 && (name == \"Alice\""), ASTValidationError::InvalidSyntax);
}

#[test]
fn parse_query_error_invalid_or_operator() {
    assert_eq!(first_error("age > 25 || (name == \"Alice\")"), ASTValidationError::InvalidSyntax);
}

#[test]
fn parse_query_error_invalid_parentheses() {
    assert_eq!(first_error("((age > 25) && (name == \"Alice\""), ASTValidationError::InvalidSyntax);
}

#[test]
fn parse_query_error_nested_and_or() {
    assert_eq!(first_error("age > 25 || (name == \"Alice\" && (interests in [\"reading\"]))"), ASTValidationError::InvalidSyntax);
}

#[test]
fn parse_query_error_missing_operator() {
    assert_eq!(first_error("(name == \"Alice\") (name == \"Bob\")"), ASTValidationError::InvalidSyntax);
}

#[test]
fn parse_query_error_incorrect_and() {
    assert_eq!(first_error("age > 25 & (name == \"Alice\")"), ASTValidationError::InvalidSyntax);
}

#[test]
fn parse_query_error_incorrect_or() {
    assert_eq!(first_error("age > 25 | (name == \"Alice\")"), ASTValidationError::InvalidSyntax);
}

#[test]
fn parse_query_error_unmatched_parentheses() {
    assert_eq!(first_error("((age > 25) && (name == \"Alice\")"), ASTValidationError::InvalidSyntax);
}

#[test]
fn parse_query_error_missing_parentheses() {
    assert_eq!(first_error("age > 25 && name == \"Alice\""), ASTValidationError::InvalidSyntax);
}

#[test]
fn parse_query_error_mix_or_and_no_brackets() {
    assert_eq!(first_error("(age > 25) && (name == \"Alice\") || age == 3"), ASTValidationError::InvalidSyntax);
}

#[test]
fn parse_query_error_integer_beyond_i32() {
    assert_eq!(first_error("age == 2147483648"), ASTValidationError::InvalidSyntax);
}

#[test]
fn parse_query_error_empty_text_literal() {
    assert_eq!(first_error("name == \"\""), ASTValidationError::InvalidSyntax);
}

#[test]
fn parse_query_error_mixed_list() {
    assert_eq!(first_error("interests in [\"a\",1]"), ASTValidationError::InvalidSyntax);
}

#[test]
fn parse_query_error_space_inside_brackets() {
    assert_eq!(first_error("( age > 25)"), ASTValidationError::InvalidSyntax);
}

#[test]
fn parse_query_error_space_in_list() {
    assert_eq!(first_error("name in [\"Alice\", \"Bob\"]"), ASTValidationError::InvalidSyntax);
}

#[test]
fn parse_query_error_negative_integer() {
    assert_eq!(first_error("age > -1"), ASTValidationError::InvalidSyntax);
}

#[test]
fn parse_query_error_empty_input() {
    assert_eq!(first_error(""), ASTValidationError::InvalidSyntax);
}
