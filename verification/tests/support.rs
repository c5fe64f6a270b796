use workerpool::packages::{find_column, order_columns};
use workerpool::rest::{modify_reference, starts_with};

fn texts(items: &[&str]) -> Vec<String> {
    items.iter().map(|s| s.to_string()).collect()
}

fn modified(location: &str) -> String {
    let mut location = location.to_string();
    modify_reference(&mut location);
    location
}

#[test]
fn a_reference_to_a_model_leads_to_its_file_in_lower_case() {
    assert_eq!(modified("#/components/schemas/VAR_Entity"), "./models/entity.json");
    assert_eq!(
        modified("#/components/schemas/VAR_DataType_ÄB"),
        "./models/datatype_Äb.json"
    );
    assert_eq!(modified("#/components/schemas/VAR_"), "./models/.json");
}

#[test]
fn a_reference_to_a_shared_model_leads_to_its_definition() {
    assert_eq!(
        modified("#/components/schemas/SHARED_BaseUrl"),
        "./models/shared.json#/definitions/BaseUrl"
    );
    assert_eq!(modified("#/components/schemas/SHARED_"), "./models/shared.json#/definitions/");
}

#[test]
fn any_other_reference_stays_as_it_is() {
    for location in [
        "",
        "#/components/schemas/Entity",
        "#/components/schemas/VAR",
        "#/components/schemas/var_Entity",
        "#/components/schemas/shared_Entity",
        " #/components/schemas/VAR_Entity",
        "./models/entity.json",
    ] {
        assert_eq!(modified(location), location);
    }
}

#[test]
fn a_text_starts_with_its_prefixes() {
    assert!(starts_with("abc", ""));
    assert!(starts_with("abc", "ab"));
    assert!(starts_with("abc", "abc"));
    assert!(!starts_with("abc", "abcd"));
    assert!(!starts_with("abc", "b"));
    assert!(starts_with("äbc", "ä"));
}

#[test]
fn columns_come_in_the_order_of_the_schema() {
    let keys = texts(&["neighbors", "api_responses", "agent_messages"]);
    assert_eq!(
        order_columns(&texts(&["agent_messages", "neighbors", "api_responses"]), &keys),
        Ok(vec![2, 0, 1])
    );
    assert_eq!(order_columns(&texts(&["neighbors", "neighbors"]), &keys), Ok(vec![0, 0]));
    assert_eq!(order_columns(&texts(&[]), &keys), Ok(vec![]));
    assert_eq!(order_columns(&texts(&[]), &texts(&[])), Ok(vec![]));
}

#[test]
fn the_column_that_was_produced_last_under_a_key_counts() {
    let keys = texts(&["a", "b", "a", "c", "b"]);
    assert_eq!(order_columns(&texts(&["a", "b", "c"]), &keys), Ok(vec![2, 4, 3]));
    assert_eq!(find_column(&keys, "a"), Some(2));
    assert_eq!(find_column(&keys, "c"), Some(3));
    assert_eq!(find_column(&keys, "d"), None);
    assert_eq!(find_column(&texts(&[]), "a"), None);
}

#[test]
fn a_field_without_a_column_is_named() {
    let keys = texts(&["a", "b"]);
    assert_eq!(order_columns(&texts(&["a", "x", "b", "y"]), &keys), Err("x".to_string()));
    assert_eq!(order_columns(&texts(&["y"]), &texts(&[])), Err("y".to_string()));
    assert_eq!(order_columns(&texts(&["a", "b", "A"]), &keys), Err("A".to_string()));
}
