use kr0ki_core::json::JsonValue;
use kr0ki_core::model::{Element, ModelSnapshot};
use kr0ki_core::ontology::ElementId;
use kr0ki_core::rule_docs::{extract_rule_docs, RuleBackendKind};

fn element(id: &str, ty: &str, name: Option<&str>, rego: Option<&str>) -> Element {
    let mut fields = Vec::new();
    if let Some(r) = rego {
        fields.push(("rego".to_string(), JsonValue::Str(r.to_string())));
    }
    Element { id: id.to_string(), ty: ty.to_string(), name: name.map(String::from), fields }
}

fn snapshot(elements: Vec<Element>) -> ModelSnapshot {
    ModelSnapshot {
        project_id: "p1".into(),
        commit_id: "c1".into(),
        roots: Vec::new(),
        content_hash: "test".into(),
        elements,
    }
}

#[test]
fn extracts_a_well_formed_rule_document() {
    let snap = snapshot(vec![element(
        "rule:no-bad-parts",
        "RuleDocument",
        Some("No BadPart allowed"),
        Some("package kr0ki\n\nviolations := []\n"),
    )]);
    let docs = extract_rule_docs(&snap);
    assert_eq!(docs.len(), 1);
    assert_eq!(docs[0].id, ElementId::new("rule:no-bad-parts"));
    assert_eq!(docs[0].name, "No BadPart allowed");
    assert_eq!(docs[0].backend, RuleBackendKind::Rego);
}

#[test]
fn falls_back_to_id_when_name_is_absent() {
    let snap = snapshot(vec![element("rule:unnamed", "RuleDocument", None, Some("package kr0ki\n\nviolations := []\n"))]);
    let docs = extract_rule_docs(&snap);
    assert_eq!(docs[0].name, "rule:unnamed");
}

#[test]
fn skips_non_rule_document_elements() {
    let snap = snapshot(vec![element("part-1", "PartUsage", None, None)]);
    assert!(extract_rule_docs(&snap).is_empty());
}

#[test]
fn skips_rule_document_missing_the_rego_field() {
    let snap = snapshot(vec![element("rule:broken", "RuleDocument", None, None)]);
    assert!(extract_rule_docs(&snap).is_empty());
}

#[test]
fn extracts_rule_document_with_server_assigned_id() {
    let snap = snapshot(vec![element(
        "elem-42",
        "RuleDocument",
        Some("Server-assigned ID rule"),
        Some("package kr0ki\n\nviolations := []\n"),
    )]);
    let docs = extract_rule_docs(&snap);
    assert_eq!(docs.len(), 1);
    assert_eq!(docs[0].id, ElementId::new("elem-42"));
    assert_eq!(docs[0].name, "Server-assigned ID rule");
}

#[test]
fn a_rego_member_that_is_not_a_string_is_skipped() {
    let mut el = element("rule:numeric", "RuleDocument", Some("Numeric"), None);
    el.fields.push(("rego".to_string(), JsonValue::Number("3".to_string())));
    let snap = snapshot(vec![el, element("rule:ok", "RuleDocument", None, Some("package kr0ki\n"))]);
    let docs = extract_rule_docs(&snap);
    assert_eq!(docs.len(), 1);
    assert_eq!(docs[0].id, ElementId::new("rule:ok"));
    assert_eq!(docs[0].rego_source, "package kr0ki\n");
}
