use kr0ki_core::json::JsonValue;
use kr0ki_core::model::{Element, ModelSnapshot};
use kr0ki_core::ontology::{ElementId, UfoRelation};
use kr0ki_core::sysgraph::UfoStereotype;
use kr0ki_core::ufo_graph::{build_ufo_graph, ontological_edge_for, ref_id, ref_ids, to_sysgraph, ElementClass};

fn conv(v: &serde_json::Value) -> JsonValue {
    match v {
        serde_json::Value::Null => JsonValue::Null,
        serde_json::Value::Bool(b) => JsonValue::Bool(*b),
        serde_json::Value::Number(n) => JsonValue::Number(n.to_string()),
        serde_json::Value::String(s) => JsonValue::Str(s.clone()),
        serde_json::Value::Array(a) => JsonValue::Array(a.iter().map(conv).collect()),
        serde_json::Value::Object(o) => JsonValue::Object(o.iter().map(|(k, v)| (k.clone(), conv(v))).collect()),
    }
}

fn element(text: &str) -> Element {
    let v: serde_json::Value = serde_json::from_str(text).expect("valid JSON");
    let obj = v.as_object().expect("object");
    Element {
        id: obj["@id"].as_str().unwrap().to_string(),
        ty: obj["@type"].as_str().unwrap().to_string(),
        name: obj.get("name").and_then(|n| n.as_str()).map(String::from),
        fields: obj
            .iter()
            .filter(|(k, _)| k.as_str() != "@id" && k.as_str() != "@type" && k.as_str() != "name")
            .map(|(k, v)| (k.clone(), conv(v)))
            .collect(),
    }
}

fn snapshot(elements: Vec<Element>) -> ModelSnapshot {
    ModelSnapshot {
        project_id: "p1".into(),
        commit_id: "c1".into(),
        roots: Vec::new(),
        content_hash: "test".into(),
        elements,
    }
}

#[test]
fn feature_membership_lifts_to_has_part() {
    let el = element(r#"{"@id": "rel1", "@type": "FeatureMembership", "owner": {"@id": "e1"}, "member": {"@id": "e2"}}"#);
    let edge = ontological_edge_for(&el).expect("edge");
    assert_eq!(edge.id, "rel1");
    assert_eq!(edge.relation, UfoRelation::HasPart);
    assert_eq!(edge.source, ElementId::new("e1"));
    assert_eq!(edge.target, ElementId::new("e2"));
}

#[test]
fn specialization_family_all_map_to_specializes() {
    let cases = [
        (r#"{"@id": "r1", "@type": "Specialization", "specific": "s", "general": "g"}"#, "s", "g"),
        (r#"{"@id": "r2", "@type": "Subsetting", "subset": "s", "superset": "g"}"#, "s", "g"),
        (r#"{"@id": "r3", "@type": "Redefinition", "redefining": "s", "redefined": "g"}"#, "s", "g"),
    ];
    for (json, want_source, want_target) in cases {
        let edge = ontological_edge_for(&element(json)).expect("edge");
        assert_eq!(edge.relation, UfoRelation::Specializes);
        assert_eq!(edge.source, ElementId::new(want_source));
        assert_eq!(edge.target, ElementId::new(want_target));
    }
}

#[test]
fn connection_with_exactly_two_ends_lifts_to_binds() {
    let el = element(r#"{"@id": "conn1", "@type": "Connection", "ends": [{"@id": "a"}, {"@id": "b"}]}"#);
    let edge = ontological_edge_for(&el).expect("edge");
    assert_eq!(edge.relation, UfoRelation::Binds);
    assert_eq!(edge.source, ElementId::new("a"));
    assert_eq!(edge.target, ElementId::new("b"));
}

#[test]
fn connection_with_three_ends_is_skipped() {
    let el = element(r#"{"@id": "conn1", "@type": "Connection", "ends": [{"@id": "a"}, {"@id": "b"}, {"@id": "c"}]}"#);
    assert!(ontological_edge_for(&el).is_none());
}

#[test]
fn succession_lifts_to_precedes() {
    let el = element(r#"{"@id": "s1", "@type": "Succession", "source": {"@id": "a"}, "target": {"@id": "b"}}"#);
    let edge = ontological_edge_for(&el).expect("edge");
    assert_eq!(edge.relation, UfoRelation::Precedes);
}

#[test]
fn satisfy_and_verify_and_refine_and_dependency() {
    let e = ontological_edge_for(&element(r#"{"@id": "sat1", "@type": "Satisfy", "subject": "subj", "requirement": "req"}"#)).expect("edge");
    assert_eq!(e.relation, UfoRelation::Satisfies);
    assert_eq!(e.source, ElementId::new("subj"));
    assert_eq!(e.target, ElementId::new("req"));

    let e = ontological_edge_for(&element(r#"{"@id": "ver1", "@type": "Verify", "by": "test1", "requirement": "req"}"#)).expect("edge");
    assert_eq!(e.relation, UfoRelation::Verifies);
    assert_eq!(e.source, ElementId::new("test1"));

    let e = ontological_edge_for(&element(r#"{"@id": "ref1", "@type": "Refine", "refining": "detailed", "refined": "need"}"#)).expect("edge");
    assert_eq!(e.relation, UfoRelation::TracesTo);
    assert_eq!(e.source, ElementId::new("detailed"));

    let e = ontological_edge_for(&element(r#"{"@id": "dep1", "@type": "Dependency", "client": "consumer", "supplier": "provider"}"#)).expect("edge");
    assert_eq!(e.relation, UfoRelation::Requires);
    assert_eq!(e.source, ElementId::new("consumer"));
    assert_eq!(e.target, ElementId::new("provider"));
}

#[test]
fn allocation_is_deliberately_not_lifted() {
    let el = element(r#"{"@id": "alloc1", "@type": "Allocation", "source": {"@id": "a"}, "target": {"@id": "b"}}"#);
    assert!(ontological_edge_for(&el).is_none());
}

#[test]
fn non_relationship_elements_are_not_lifted() {
    let el = element(r#"{"@id": "e1", "@type": "PartUsage", "name": "pump"}"#);
    assert!(ontological_edge_for(&el).is_none());
}

#[test]
fn relationship_missing_an_endpoint_is_skipped_not_error() {
    let el = element(r#"{"@id": "rel1", "@type": "FeatureMembership", "owner": {"@id": "e1"}}"#);
    assert!(ontological_edge_for(&el).is_none());
}

#[test]
fn build_ufo_graph_collects_only_relationship_edges() {
    let snap = snapshot(vec![
        element(r#"{"@id": "e1", "@type": "PartUsage", "name": "pump"}"#),
        element(r#"{"@id": "e2", "@type": "PartDefinition", "name": "Assembly"}"#),
        element(r#"{"@id": "rel1", "@type": "FeatureMembership", "owner": {"@id": "e2"}, "member": {"@id": "e1"}}"#),
        element(r#"{"@id": "rel2", "@type": "Dependency", "client": "e1", "supplier": "e2"}"#),
    ]);
    let graph = build_ufo_graph(&snap);
    assert_eq!(graph.len(), 2);
    assert_eq!(graph[0].id, "rel1");
    assert_eq!(graph[1].id, "rel2");
}

#[test]
fn references_may_be_objects_strings_or_one_element_arrays() {
    assert_eq!(ref_id(&conv(&serde_json::from_str(r#"{"@id": "x"}"#).unwrap())), Some("x".to_string()));
    assert_eq!(ref_id(&conv(&serde_json::from_str(r#""y""#).unwrap())), Some("y".to_string()));
    assert_eq!(ref_id(&conv(&serde_json::from_str(r#"[{"@id": "z"}]"#).unwrap())), Some("z".to_string()));
    assert_eq!(ref_id(&conv(&serde_json::from_str(r#"[]"#).unwrap())), None);
    assert_eq!(ref_id(&conv(&serde_json::from_str(r#"{"id": "x"}"#).unwrap())), None);
    assert_eq!(ref_id(&conv(&serde_json::from_str("7").unwrap())), None);
    assert_eq!(
        ref_ids(&conv(&serde_json::from_str(r#"[{"@id": "a"}, 5, "b"]"#).unwrap())),
        vec!["a".to_string(), "b".to_string()]
    );
    assert_eq!(ref_ids(&conv(&serde_json::from_str(r#"{"@id": "a"}"#).unwrap())), vec!["a".to_string()]);
}

#[test]
fn a_connection_with_one_unresolvable_end_among_three_lifts_its_two_resolvable_ends() {
    let el = element(r#"{"@id": "c", "@type": "Connection", "ends": [{"@id": "a"}, 5, {"@id": "b"}]}"#);
    let edge = ontological_edge_for(&el).expect("edge");
    assert_eq!(edge.source, ElementId::new("a"));
    assert_eq!(edge.target, ElementId::new("b"));
}

/// The element-kind vocabulary's verdict on the `@type`s these tests use.
fn classes(snap: &ModelSnapshot) -> Vec<Option<ElementClass>> {
    snap.elements
        .iter()
        .map(|el| match el.ty.as_str() {
            "PartUsage" => Some(ElementClass { kerml_name: "PartUsage".to_string(), is_usage: true }),
            "PartDefinition" => Some(ElementClass { kerml_name: "PartDefinition".to_string(), is_usage: false }),
            "Package" => Some(ElementClass { kerml_name: "Package".to_string(), is_usage: false }),
            _ => None,
        })
        .collect()
}

#[test]
fn to_sysgraph_gives_definitions_kind_and_usages_role() {
    let snap = snapshot(vec![
        element(r#"{ "@id": "e1", "@type": "PartUsage", "name": "pump" }"#),
        element(r#"{ "@id": "e2", "@type": "PartDefinition", "name": "Assembly" }"#),
        element(r#"{ "@id": "e3", "@type": "Package", "name": "root" }"#),
    ]);
    let graph = to_sysgraph(&snap, &classes(&snap));

    let usage = graph.node(&ElementId::new("e1")).expect("e1 node");
    assert_eq!(usage.label.as_deref(), Some("pump"));
    assert_eq!(usage.stereotype, UfoStereotype::Role("PartUsage".into()));

    let definition = graph.node(&ElementId::new("e2")).expect("e2 node");
    assert_eq!(definition.stereotype, UfoStereotype::Kind("PartDefinition".into()));

    let package = graph.node(&ElementId::new("e3")).expect("e3 node");
    assert_eq!(package.stereotype, UfoStereotype::Kind("Package".into()));
}

#[test]
fn to_sysgraph_excludes_relationship_elements_from_nodes_but_keeps_their_edges() {
    let snap = snapshot(vec![
        element(r#"{ "@id": "e1", "@type": "PartUsage", "name": "pump" }"#),
        element(r#"{ "@id": "e2", "@type": "PartDefinition", "name": "Assembly" }"#),
        element(r#"{ "@id": "rel1", "@type": "FeatureMembership", "owner": { "@id": "e2" }, "member": { "@id": "e1" } }"#),
    ]);
    let graph = to_sysgraph(&snap, &classes(&snap));
    assert_eq!(graph.nodes.len(), 2, "only the two non-relationship elements");
    assert_eq!(graph.edges.len(), 1);
    assert!(graph.dangling_edges().is_empty(), "both endpoints of rel1 have nodes: {:?}", graph.dangling_edges());
}

#[test]
fn to_sysgraph_element_with_no_name_gets_no_label() {
    let snap = snapshot(vec![element(r#"{ "@id": "e1", "@type": "PartUsage" }"#)]);
    let graph = to_sysgraph(&snap, &classes(&snap));
    let node = graph.node(&ElementId::new("e1")).expect("e1 node");
    assert_eq!(node.label, None);
}

#[test]
fn to_sysgraph_treats_missing_verdicts_as_unknown_types() {
    let snap = snapshot(vec![
        element(r#"{ "@id": "e1", "@type": "PartUsage" }"#),
        element(r#"{ "@id": "e2", "@type": "PartUsage" }"#),
    ]);
    let verdicts = vec![Some(ElementClass { kerml_name: "PartUsage".to_string(), is_usage: true })];
    let graph = to_sysgraph(&snap, &verdicts);
    assert_eq!(graph.nodes.len(), 1);
    assert_eq!(graph.nodes[0].id, ElementId::new("e1"));
}
