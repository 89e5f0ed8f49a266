use kr0ki_core::graph_store::{GraphStore, QueryShape};
use kr0ki_core::model::Element;

fn sample_element() -> Element {
    Element {
        id: "elem-1".to_string(),
        ty: "PartUsage".to_string(),
        name: Some("Engine".to_string()),
        fields: Vec::new(),
    }
}

#[test]
fn inserting_an_element_materializes_type_and_name() {
    let mut store = GraphStore::new();
    store.insert_element_triples("proj-1", "commit-1", &sample_element());
    let triples = store.query(QueryShape::TriplesAbout, Some("elem-1"));
    assert!(triples
        .iter()
        .any(|(_, predicate, object)| predicate == "type" && object == "PartUsage"));
    assert!(triples
        .iter()
        .any(|(_, predicate, object)| predicate == "name" && object == "Engine"));
}

#[test]
fn unknown_subject_is_empty() {
    assert!(GraphStore::new().query(QueryShape::TriplesAbout, Some("missing")).is_empty());
}

#[test]
fn related_via_excludes_element_metadata() {
    let mut store = GraphStore::new();
    store.insert_relationship_triple("elem-1", "Satisfy", "elem-2");
    assert!(store
        .query(QueryShape::RelatedVia, Some("elem-1"))
        .iter()
        .any(|(_, predicate, object)| predicate == "Satisfy" && object == "elem-2"));
}

#[test]
fn check_shapes_flags_untyped_relationship_target() {
    let mut store = GraphStore::new();
    store.insert_relationship_triple("elem-1", "Satisfy", "orphan-elem");
    assert!(store.check_shapes().iter().any(|violation| violation.subject == "orphan-elem"));
}

#[test]
fn typed_element_has_no_shape_violation() {
    let mut store = GraphStore::new();
    store.insert_element_triples("proj-1", "commit-1", &sample_element());
    assert!(store.check_shapes().iter().all(|violation| violation.subject != "elem-1"));
}

#[test]
fn triples_about_lists_every_triple_in_insertion_order_once() {
    let mut store = GraphStore::new();
    store.insert_element_triples("p", "c", &sample_element());
    store.insert_element_triples("p", "c", &sample_element());
    store.insert_relationship_triple("elem-1", "Satisfy", "elem-2");
    let rows = store.query(QueryShape::TriplesAbout, Some("elem-1"));
    let expected: Vec<(String, String, String)> = [
        ("elem-1", "type", "PartUsage"),
        ("elem-1", "name", "Engine"),
        ("elem-1", "sourceProject", "p"),
        ("elem-1", "sourceCommit", "c"),
        ("elem-1", "Satisfy", "elem-2"),
    ]
    .iter()
    .map(|(a, b, c)| (a.to_string(), b.to_string(), c.to_string()))
    .collect();
    assert_eq!(rows, expected);
    let related = store.query(QueryShape::RelatedVia, Some("elem-1"));
    assert_eq!(related, vec![("elem-1".to_string(), "Satisfy".to_string(), "elem-2".to_string())]);
}

#[test]
fn query_without_subject_is_empty() {
    let mut store = GraphStore::new();
    store.insert_relationship_triple("a", "Satisfy", "b");
    assert!(store.query(QueryShape::TriplesAbout, None).is_empty());
}

#[test]
fn shape_violation_carries_rule_and_message() {
    let mut store = GraphStore::new();
    store.insert_relationship_triple("a", "Satisfy", "b");
    let violations = store.check_shapes();
    assert_eq!(violations.len(), 1);
    assert_eq!(violations[0].subject, "b");
    assert_eq!(violations[0].rule, "must_have_type");
    assert_eq!(
        violations[0].message,
        "b is the target of a relationship but was never materialized with a type triple"
    );
}

#[test]
fn checked_inserts_refuse_invalid_iris_and_store_nothing() {
    let mut store = GraphStore::new();
    assert!(!store.try_insert_relationship_triple("has space", "Satisfy", "b"));
    assert!(store.try_query(QueryShape::TriplesAbout, Some("has space")).is_none());
    assert!(store.check_shapes().is_empty());
    assert!(store.try_insert_relationship_triple("a", "Satisfy", "b"));
    assert!(store.try_insert_element_triples("p", "c", &sample_element()));
    assert_eq!(store.try_query(QueryShape::RelatedVia, Some("a")).unwrap().len(), 1);
}
