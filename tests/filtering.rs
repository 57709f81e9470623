use vec_filter::{parse_query, Person, PersonProperties};

fn people() -> Vec<Person> {
    let alice = Person {
        name: "Alice".to_string(),
        age: 30,
        interests: vec!["reading".to_string(), "hiking".to_string()],
    };
    let bob = Person {
        name: "Bob".to_string(),
        age: 20,
        interests: vec!["swimming".to_string(), "cooking".to_string()],
    };
    let carol = Person {
        name: "Carol".to_string(),
        age: 25,
        interests: vec!["hiking".to_string(), "painting".to_string()],
    };
    vec![alice, bob, carol]
}

fn check_filtering(input: &str, expected_indices: Vec<usize>) {
    let people = people();
    let ast = match parse_query::<PersonProperties>(input) {
        Ok(ast) => ast,
        Err(err) => panic!("Failed to parse input '{}': {:?}", input, err),
    };
    let filtered_people: Vec<Person> = ast.apply(&people);
    let expected_people: Vec<Person> =
        expected_indices.iter().map(|index| people[*index].clone()).collect();
    assert_eq!(filtered_people, expected_people);
}

#[test]
fn test_filtering_name_equals_alice() {
    check_filtering("name == \"Alice\"", vec![0]);
}

#[test]
fn test_filtering_name_not_equals_alice() {
    check_filtering("name != \"Alice\"", vec![1, 2]);
}

#[test]
fn test_filtering_age_equals_30() {
    check_filtering("age == 30", vec![0]);
}

#[test]
fn test_filtering_age_not_equals_30() {
    check_filtering("age != 30", vec![1, 2]);
}

#[test]
fn test_filtering_interests_contains_reading() {
    check_filtering("interests in [\"reading\"]", vec![0]);
}

#[test]
fn test_filtering_interests_contains_cooking() {
    check_filtering("interests in [\"cooking\"]", vec![1]);
}

#[test]
fn test_filtering_interests_contains_hiking() {
    check_filtering("interests in [\"hiking\"]", vec![0, 2]);
}

#[test]
fn test_filtering_name_equals_alice_and_age_equals_30() {
    check_filtering("(name == \"Alice\") && (age == 30)", vec![0]);
}

#[test]
fn test_filtering_name_equals_alice_or_name_equals_bob() {
    check_filtering("(name == \"Alice\") || (name == \"Bob\")", vec![0, 1]);
}

#[test]
fn test_filtering_name_in_alice_or_bob() {
    check_filtering("name in [\"Alice\",\"Bob\"]", vec![0, 1]);
}

#[test]
fn test_filtering_interests_in_hiking() {
    check_filtering("interests in \"hiking\"", vec![0, 2]);
}

#[test]
fn test_filtering_name_alice_bob_eve() {
    check_filtering("(name == \"Alice\") || (name == \"Bob\") || (name == \"Eve\")", vec![0, 1]);
}

#[test]
fn test_filtering_interests_hiking_age_25() {
    check_filtering("(interests in [\"hiking\"]) && (age == 25)", vec![2]);
}

#[test]
fn test_filtering_name_equals_alice_interests_hiking_age_20() {
    check_filtering("((name == \"Alice\") && (interests in [\"hiking\"])) || (age == 20)", vec![0, 1]);
}

#[test]
fn test_filtering_interests_hiking_age_20_or_25() {
    check_filtering("(interests in [\"hiking\"]) && ((age == 20) || (age == 25))", vec![2]);
}

#[test]
fn test_filtering_age_greater_than_25() {
    check_filtering("age > 25", vec![0]);
}

#[test]
fn test_filtering_age_less_than_25() {
    check_filtering("age < 25", vec![1]);
}

#[test]
fn test_filtering_age_greater_than_equal_to_25() {
    check_filtering("age >= 25", vec![0, 2]);
}

#[test]
fn test_filtering_age_less_than_equal_to_25() {
    check_filtering("age <= 25", vec![1, 2]);
}

#[test]
fn test_filtering_name_startswith_al() {
    check_filtering("name startswith \"Al\"", vec![0]);
}

#[test]
fn test_filtering_name_endswith_ce() {
    check_filtering("name endswith \"ce\"", vec![0]);
}

#[test]
fn test_filtering_name_regexmatch_alice_bob() {
    check_filtering("name regexmatch \"^(Alice|Bob)$\"", vec![0, 1]);
}

#[test]
fn test_filtering_not_operation() {
    check_filtering("!(age == 30)", vec![1, 2]);
}
