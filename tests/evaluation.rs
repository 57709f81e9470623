use std::cell::Cell;
use vec_filter::{
    compare, contains_str, ends_with_str, is_compatible, parse_query, starts_with_str, MatchesAst,
    Operator, Person, PersonProperties, StructMatcher, Value, ValueView, AST,
};

fn person(name: &str, age: u32, interests: &[&str]) -> Person {
    Person {
        name: name.to_string(),
        age,
        interests: interests.iter().map(|s| s.to_string()).collect(),
    }
}

fn people() -> Vec<Person> {
    vec![
        person("Alice", 30, &["reading", "hiking"]),
        person("Bob", 20, &["swimming", "cooking"]),
        person("Carol", 25, &["hiking", "painting"]),
    ]
}

/// A record that counts how often a field of it is read.
struct Probe {
    reads: Cell<u32>,
}

impl StructMatcher<PersonProperties> for Probe {
    fn property_value(&self, _property: PersonProperties) -> Option<ValueView> {
        None
    }

    fn get_property_value(&self, _property: &PersonProperties) -> Option<Value> {
        self.reads.set(self.reads.get() + 1);
        Some(Value::Int(1))
    }
}

#[test]
fn and_does_not_evaluate_right_operand_after_false() {
    let probe = Probe { reads: Cell::new(0) };
    let ast: AST<PersonProperties> = AST::And(
        Box::new(AST::Equals { field: PersonProperties::age, value: Value::Int(2) }),
        Box::new(AST::Equals { field: PersonProperties::age, value: Value::Int(1) }),
    );
    assert!(!probe.matches_ast(&ast));
    assert_eq!(probe.reads.get(), 1);
}

#[test]
fn and_skips_unknown_field_after_false() {
    let probe = Probe { reads: Cell::new(0) };
    let ast: AST<PersonProperties> = AST::And(
        Box::new(AST::Equals { field: PersonProperties::age, value: Value::Int(2) }),
        Box::new(AST::InvalidField { field_name: "height".to_string() }),
    );
    assert!(!probe.matches_ast(&ast));
    assert_eq!(probe.reads.get(), 1);
}

#[test]
fn or_does_not_evaluate_right_operand_after_true() {
    let probe = Probe { reads: Cell::new(0) };
    let ast: AST<PersonProperties> = AST::Or(
        Box::new(AST::Equals { field: PersonProperties::age, value: Value::Int(1) }),
        Box::new(AST::Equals { field: PersonProperties::age, value: Value::Int(2) }),
    );
    assert!(probe.matches_ast(&ast));
    assert_eq!(probe.reads.get(), 1);
}

#[test]
fn and_evaluates_right_operand_after_true() {
    let probe = Probe { reads: Cell::new(0) };
    let ast: AST<PersonProperties> = AST::And(
        Box::new(AST::Equals { field: PersonProperties::age, value: Value::Int(1) }),
        Box::new(AST::Equals { field: PersonProperties::age, value: Value::Int(1) }),
    );
    assert!(probe.matches_ast(&ast));
    assert_eq!(probe.reads.get(), 2);
}

#[test]
fn evaluating_twice_gives_the_same_answer() {
    let ast = parse_query::<PersonProperties>("(age >= 25) && (interests in \"hik\")").unwrap();
    for p in people() {
        assert_eq!(p.matches_ast(&ast), p.matches_ast(&ast));
    }
}

#[test]
fn filtering_twice_keeps_the_same() {
    let ast = parse_query::<PersonProperties>("interests in [\"hiking\"]").unwrap();
    let once = ast.apply(&people());
    let twice = ast.apply(&once);
    assert_eq!(once, twice);
    assert_eq!(once.len(), 2);
}

#[test]
fn filtering_keeps_record_order() {
    let ast = parse_query::<PersonProperties>("age != 20").unwrap();
    let mut records = people();
    records.reverse();
    let kept = ast.apply(&records);
    let names: Vec<&str> = kept.iter().map(|p| p.name.as_str()).collect();
    assert_eq!(names, vec!["Carol", "Alice"]);
}

#[test]
fn filtering_no_records() {
    let ast = parse_query::<PersonProperties>("age == 30").unwrap();
    assert!(ast.apply(&Vec::<Person>::new()).is_empty());
}

#[test]
fn age_beyond_i32_has_no_value() {
    let old = person("Old", 3_000_000_000, &[]);
    let equals = parse_query::<PersonProperties>("age == 0").unwrap();
    let not_equals = parse_query::<PersonProperties>("age != 0").unwrap();
    let greater = parse_query::<PersonProperties>("age > 0").unwrap();
    assert!(!old.matches_ast(&equals));
    assert!(old.matches_ast(&not_equals));
    assert!(!old.matches_ast(&greater));
}

#[test]
fn invalid_regex_matches_nothing() {
    let ast = parse_query::<PersonProperties>("name regexmatch \"(\"").unwrap();
    assert!(ast.apply(&people()).is_empty());
}

#[test]
fn regex_on_list_field() {
    let current = Some(Value::VecString(vec!["reading".to_string(), "hiking".to_string()]));
    assert!(compare(Operator::RegexMatch, &current, &Value::String("^hik".to_string())));
    assert!(!compare(Operator::RegexMatch, &current, &Value::String("^ing".to_string())));
}

#[test]
fn regex_on_text_field() {
    let current = Some(Value::String("Carol".to_string()));
    assert!(compare(Operator::RegexMatch, &current, &Value::String("r.l$".to_string())));
    assert!(!compare(Operator::RegexMatch, &current, &Value::String("^r".to_string())));
}

#[test]
fn in_text_list_against_text_field() {
    let current = Some(Value::String("Alice".to_string()));
    let literal = Value::VecString(vec!["x".to_string(), "lic".to_string()]);
    assert!(compare(Operator::In, &current, &literal));
    let literal = Value::VecString(vec!["x".to_string(), "y".to_string()]);
    assert!(!compare(Operator::In, &current, &literal));
}

#[test]
fn in_on_integers_is_false() {
    let current = Some(Value::Int(20));
    assert!(!compare(Operator::In, &current, &Value::VecInt(vec![20, 25])));
}

#[test]
fn contains_with_list_literal_is_false() {
    let current = Some(Value::String("Alice".to_string()));
    assert!(!compare(Operator::Contains, &current, &Value::VecString(vec!["A".to_string()])));
}

#[test]
fn starts_and_ends_with_on_list_field() {
    let current = Some(Value::VecString(vec!["swimming".to_string(), "cooking".to_string()]));
    assert!(compare(Operator::StartsWith, &current, &Value::String("coo".to_string())));
    assert!(compare(Operator::EndsWith, &current, &Value::String("ming".to_string())));
    assert!(!compare(Operator::EndsWith, &current, &Value::String("swim".to_string())));
}

#[test]
fn ordering_across_kinds_is_false() {
    let current = Some(Value::String("b".to_string()));
    assert!(!compare(Operator::GreaterThan, &current, &Value::String("a".to_string())));
    assert!(!compare(Operator::LessThanOrEqual, &None, &Value::Int(1)));
}

#[test]
fn equality_of_lists() {
    let current = Some(Value::VecInt(vec![1, 2]));
    assert!(compare(Operator::Equals, &current, &Value::VecInt(vec![1, 2])));
    assert!(compare(Operator::NotEquals, &current, &Value::VecInt(vec![2, 1])));
    assert!(compare(Operator::NotEquals, &None, &Value::Int(1)));
}

#[test]
fn compatible_comparison_passes() {
    let ast: AST<PersonProperties> = AST::LessThan { field: PersonProperties::age, value: Value::Int(3) };
    assert!(is_compatible(&ast, &Value::Int(3)).is_ok());
    let err = is_compatible(&ast, &Value::VecInt(vec![3])).unwrap_err();
    assert_eq!(err.valid_values, vec![Value::Int(1)]);
}

#[test]
fn text_helpers() {
    assert!(contains_str("painting", "int"));
    assert!(contains_str("painting", ""));
    assert!(!contains_str("paint", "painting"));
    assert!(starts_with_str("Alice", "Al"));
    assert!(!starts_with_str("Alice", "li"));
    assert!(ends_with_str("Alice", "ce"));
    assert!(!ends_with_str("ce", "Alice"));
}

#[test]
fn value_wrap_and_duplicate() {
    let v = Value::wrap(vec!["a".to_string()]);
    assert_eq!(v, Value::VecString(vec!["a".to_string()]));
    assert_eq!(Value::wrap(7), Value::Int(7));
    assert_eq!(v.duplicate(), v);
    assert!(v.equals(&v.duplicate()));
    assert!(!v.equals(&Value::VecString(vec![])));
}
