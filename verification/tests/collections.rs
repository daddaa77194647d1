use services::catalog::Collection;
use services::collections::{collections_in_order, CollectionDetail};

fn detail(id: &str, name: &str) -> CollectionDetail {
    CollectionDetail { collection: Collection { id: id.into(), name: name.into(), movies: vec!["m1".into()] }, movies: Vec::new() }
}

fn ids(found: &[CollectionDetail]) -> Vec<&str> {
    found.iter().map(|d| d.collection.id.as_str()).collect()
}

#[test]
fn collections_are_listed_by_name_case_aside_not_by_id() {
    let found = vec![detail("c-z", "alpha"), detail("c-a", "Beta")];
    assert_eq!(ids(&collections_in_order(found)), ["c-z", "c-a"]);
    let found = vec![detail("c-z", "Zulu"), detail("c-a", "alpha")];
    assert_eq!(ids(&collections_in_order(found)), ["c-a", "c-z"]);
}

#[test]
fn collections_with_one_name_are_listed_by_id() {
    let found = vec![detail("c-b", "Saga"), detail("c-a", "saga"), detail("c-c", "SAGA")];
    assert_eq!(ids(&collections_in_order(found)), ["c-a", "c-b", "c-c"]);
}

#[test]
fn no_collections_list_as_nothing() {
    assert!(collections_in_order(Vec::new()).is_empty());
    assert_eq!(ids(&collections_in_order(vec![detail("c1", "Only")])), ["c1"]);
}

#[test]
fn unicode_names_are_compared_in_lower_case() {
    let found = vec![detail("c1", "Ärger"), detail("c2", "äpfel")];
    assert_eq!(ids(&collections_in_order(found)), ["c2", "c1"]);
}
