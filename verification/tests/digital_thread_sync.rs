use kr0ki_core::digital_thread_sync::{
    build_changeset, filter_dbt_elements, filter_dbt_nodes, plan_sync, SyncConfig, SyncPlan,
};
use kr0ki_core::json::JsonValue;
use kr0ki_core::model::Element;
use kr0ki_core::ontology::ElementId;
use kr0ki_core::sysgraph::{OntologicalNode, SysGraph, UfoStereotype};

fn to_serde(v: &JsonValue) -> serde_json::Value {
    match v {
        JsonValue::Null => serde_json::Value::Null,
        JsonValue::Bool(b) => serde_json::Value::Bool(*b),
        JsonValue::Number(n) => serde_json::Value::Number(n.parse().expect("number")),
        JsonValue::Str(s) => serde_json::Value::String(s.clone()),
        JsonValue::Array(items) => serde_json::Value::Array(items.iter().map(to_serde).collect()),
        JsonValue::Object(members) => {
            serde_json::Value::Object(members.iter().map(|(k, v)| (k.clone(), to_serde(v))).collect())
        }
    }
}

fn element(at_id: &str, identifier: &str, name: &str) -> Element {
    Element {
        id: at_id.to_string(),
        ty: "PartUsage".to_string(),
        name: Some(name.to_string()),
        fields: vec![("identifier".to_string(), JsonValue::Str(identifier.to_string()))],
    }
}

fn node(identifier: &str, label: &str) -> OntologicalNode {
    OntologicalNode::with_label(ElementId::new(identifier), UfoStereotype::Kind("DbtModel".into()), label)
}

#[test]
fn new_node_produces_a_create_with_no_identity() {
    let mut graph = SysGraph::new();
    graph.push_node(node("dbt:model.a", "A (marts)"));

    let changes = build_changeset(&[], &graph);

    assert_eq!(changes.len(), 1);
    assert!(changes[0].identity.is_none());
    let payload = to_serde(changes[0].payload.as_ref().unwrap());
    assert_eq!(payload["identifier"], "dbt:model.a");
    assert_eq!(payload["name"], "A (marts)");
}

#[test]
fn unchanged_node_produces_nothing() {
    let mut graph = SysGraph::new();
    graph.push_node(node("dbt:model.a", "A (marts)"));
    let fetched = vec![element("srv-1", "dbt:model.a", "A (marts)")];

    let changes = build_changeset(&fetched, &graph);

    assert!(changes.is_empty());
}

#[test]
fn changed_label_produces_an_update_with_identity() {
    let mut graph = SysGraph::new();
    graph.push_node(node("dbt:model.a", "A (staging)"));
    let fetched = vec![element("srv-1", "dbt:model.a", "A (marts)")];

    let changes = build_changeset(&fetched, &graph);

    assert_eq!(changes.len(), 1);
    assert_eq!(changes[0].identity.as_ref().unwrap().at_id, "srv-1");
    assert_eq!(to_serde(changes[0].payload.as_ref().unwrap())["name"], "A (staging)");
}

#[test]
fn changed_label_update_preserves_other_existing_fields() {
    let mut graph = SysGraph::new();
    graph.push_node(node("dbt:model.a", "A (staging)"));
    let mut existing = element("srv-1", "dbt:model.a", "A (marts)");
    existing.fields.push(("owner".to_string(), JsonValue::Str("owner-team".to_string())));
    let fetched = vec![existing];

    let changes = build_changeset(&fetched, &graph);

    assert_eq!(changes.len(), 1);
    let payload = to_serde(changes[0].payload.as_ref().unwrap());
    assert_eq!(payload["name"], "A (staging)");
    assert_eq!(payload["identifier"], "dbt:model.a");
    assert_eq!(payload["@type"], "PartUsage");
    assert_eq!(payload["owner"], "owner-team");
}

#[test]
fn identifier_missing_from_fresh_graph_produces_a_delete() {
    let graph = SysGraph::new();
    let fetched = vec![element("srv-1", "dbt:model.gone", "Gone")];

    let changes = build_changeset(&fetched, &graph);

    assert_eq!(changes.len(), 1);
    assert!(changes[0].payload.is_none());
    assert_eq!(changes[0].identity.as_ref().unwrap().at_id, "srv-1");
}

#[test]
fn filter_dbt_nodes_excludes_non_dbt_prefixed_nodes() {
    let mut graph = SysGraph::new();
    graph.push_node(node("dbt:model.a", "A (marts)"));
    graph.push_node(node("not-dbt:model.b", "B (unrelated)"));

    let filtered = filter_dbt_nodes(&graph);

    assert_eq!(filtered.nodes.len(), 1);
    assert_eq!(filtered.nodes[0].id.0, "dbt:model.a");
}

#[test]
fn non_dbt_prefixed_node_produces_no_create_once_filtered() {
    let mut graph = SysGraph::new();
    graph.push_node(node("not-dbt:model.b", "B (unrelated)"));

    let filtered = filter_dbt_nodes(&graph);
    let changes = build_changeset(&[], &filtered);

    assert!(changes.is_empty());
}

#[test]
fn deletes_come_after_node_changes_in_identifier_order_once_each() {
    let mut graph = SysGraph::new();
    graph.push_node(node("dbt:new", "New"));
    let fetched = vec![
        element("srv-z", "dbt:zeta", "Z"),
        element("srv-a1", "dbt:alpha", "A"),
        element("srv-a2", "dbt:alpha", "A again"),
    ];
    let changes = build_changeset(&fetched, &graph);
    assert_eq!(changes.len(), 3);
    assert!(changes[0].identity.is_none());
    assert_eq!(changes[1].identity.as_ref().unwrap().at_id, "srv-a2");
    assert!(changes[1].payload.is_none());
    assert_eq!(changes[2].identity.as_ref().unwrap().at_id, "srv-z");
    assert!(changes.iter().all(|c| c.type_ == "DataVersion"));
}

#[test]
fn create_payload_lists_type_identifier_and_name_only() {
    let mut graph = SysGraph::new();
    graph.push_node(OntologicalNode::new(ElementId::new("dbt:unlabelled"), UfoStereotype::Kind("DbtModel".into())));
    let changes = build_changeset(&[], &graph);
    let expected: serde_json::Value =
        serde_json::from_str(r#"{"@type": "PartUsage", "identifier": "dbt:unlabelled", "name": ""}"#).unwrap();
    assert_eq!(to_serde(changes[0].payload.as_ref().unwrap()), expected);
}

#[test]
fn filter_dbt_elements_keeps_only_dbt_identified_elements_in_order() {
    let mut untagged = element("srv-0", "x", "X");
    untagged.fields.clear();
    let kept = filter_dbt_elements(vec![
        element("srv-1", "dbt:a", "A"),
        element("srv-2", "other:b", "B"),
        untagged,
        element("srv-3", "dbt:c", "C"),
    ]);
    let ids: Vec<&str> = kept.iter().map(|e| e.id.as_str()).collect();
    assert_eq!(ids, vec!["srv-1", "srv-3"]);
}

#[test]
fn empty_changeset_plans_no_post_and_reports_the_latest_commit() {
    let mut graph = SysGraph::new();
    graph.push_node(node("dbt:model.a", "A (marts)"));
    let fetched = vec![element("srv-1", "dbt:model.a", "A (marts)")];
    match plan_sync(Some("c1"), &fetched, &graph) {
        SyncPlan::Unchanged(latest) => assert_eq!(latest.as_deref(), Some("c1")),
        SyncPlan::Post(_) => panic!("an empty changeset must not be posted"),
    }
    match plan_sync(None, &fetched, &graph) {
        SyncPlan::Unchanged(latest) => assert!(latest.is_none()),
        SyncPlan::Post(_) => panic!("an empty changeset must not be posted"),
    }
}

#[test]
fn a_new_node_plans_one_commit_after_the_latest() {
    let mut graph = SysGraph::new();
    graph.push_node(node("dbt:model.a", "A (marts)"));
    let config = SyncConfig { project_id: "p1".to_string(), branch_id: None };
    assert_eq!(config.project_id, "p1");
    match plan_sync(Some("c1"), &[], &graph) {
        SyncPlan::Post(request) => {
            assert_eq!(request.type_, "Commit");
            assert_eq!(request.change.len(), 1);
            assert_eq!(request.previous_commit.unwrap().at_id, "c1");
        }
        SyncPlan::Unchanged(_) => panic!("a new node must be posted"),
    }
}
