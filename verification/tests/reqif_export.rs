use kr0ki_core::reqif_adapter::{bundle_to_requirement_graph, ReqIfAdapterConfig, RequirementRelationKind};
use kr0ki_core::reqif_bundle::{AttributeData, SpecTypeKind};
use kr0ki_core::reqif_export::{
    asserted_relations_to_spec_relations, export_bundle, relation_long_name, relation_type_id, requirement_to_spec_object,
    type_layer, SPEC_OBJECT_TYPE_ID,
};
use kr0ki_core::requirements::{
    BaselineIdentity, ModelIdentity, NonAuthoritativeRelation, Provenance, RelationAuthority, Requirement, RequirementGraph,
    RequirementRelation,
};

fn baseline() -> BaselineIdentity {
    BaselineIdentity {
        id: "BL-1".to_string(),
        revision: "r1".to_string(),
        import_artifact_sha256: None,
        exported_baseline_sha256: None,
    }
}

fn provenance() -> Provenance {
    Provenance { source_uri: "test:fixture".to_string(), artifact_sha256: None, locator: None }
}

fn requirement(id: &str, title: &str, text: &str) -> Requirement {
    Requirement {
        id: id.to_string(),
        title: title.to_string(),
        text: text.to_string(),
        baseline: baseline(),
        provenance: provenance(),
        attributes: Vec::new(),
        evidence: Vec::new(),
    }
}

fn relation(id: &str, source: &str, target: &str, kind: RequirementRelationKind, authority: RelationAuthority) -> RequirementRelation {
    RequirementRelation {
        id: id.to_string(),
        source: source.to_string(),
        target: target.to_string(),
        kind,
        authority,
        provenance: provenance(),
    }
}

const ALL_KINDS: [RequirementRelationKind; 10] = [
    RequirementRelationKind::Contains,
    RequirementRelationKind::Derives,
    RequirementRelationKind::Refines,
    RequirementRelationKind::Requires,
    RequirementRelationKind::Satisfies,
    RequirementRelationKind::Verifies,
    RequirementRelationKind::Implements,
    RequirementRelationKind::Traces,
    RequirementRelationKind::AllocatedTo,
    RequirementRelationKind::Precedes,
];

#[test]
fn requirement_maps_title_to_long_name_and_text_to_the_text_attribute() {
    let layer = type_layer();
    let req = requirement("REQ-1", "Encrypt at rest", "System shall encrypt data at rest.");
    let spec_object = requirement_to_spec_object(&req, &layer.text_attr_def_id);

    assert_eq!(spec_object.identifier.as_str(), "REQ-1");
    assert_eq!(spec_object.long_name.as_deref(), Some("Encrypt at rest"));
    assert_eq!(spec_object.spec_type, SPEC_OBJECT_TYPE_ID);
    assert_eq!(spec_object.values.len(), 1);
    match &spec_object.values[0].data {
        AttributeData::String(v) => {
            assert_eq!(spec_object.values[0].definition, layer.text_attr_def_id);
            assert_eq!(v, "System shall encrypt data at rest.");
        }
        other => panic!("expected AttributeData::String, got {other:?}"),
    }
}

#[test]
fn type_layer_has_one_spec_object_type_and_ten_relation_types() {
    let layer = type_layer();
    assert_eq!(layer.relation_types.len(), 10);
    match layer.spec_object_type.kind {
        SpecTypeKind::SpecObject => assert_eq!(layer.spec_object_type.attributes.len(), 1),
        other => panic!("expected SpecTypeKind::SpecObject, got {other:?}"),
    }
}

#[test]
fn relation_type_id_covers_every_kind_with_the_recognized_name() {
    for kind in ALL_KINDS {
        let id = relation_type_id(kind);
        let layer = type_layer();
        let found = layer
            .relation_types
            .iter()
            .any(|st| st.kind == SpecTypeKind::SpecRelation && st.identifier == id);
        assert!(found, "relation_type_id({kind:?}) = {id:?} not in type_layer()");
    }
}

#[test]
fn only_asserted_relations_are_exported() {
    let relations = vec![
        relation("R1", "A", "B", RequirementRelationKind::Derives, RelationAuthority::Asserted),
        relation(
            "R2",
            "C",
            "D",
            RequirementRelationKind::Traces,
            RelationAuthority::Inferred(NonAuthoritativeRelation {
                rationale: "test".into(),
                evidence: vec![],
                model: ModelIdentity { name: "test_model".into(), version: "1.0".into() },
            }),
        ),
    ];
    let spec_relations = asserted_relations_to_spec_relations(&relations);
    assert_eq!(spec_relations.len(), 1);
    assert_eq!(spec_relations[0].identifier.as_str(), "R1");
    assert_eq!(spec_relations[0].source.as_str(), "A");
    assert_eq!(spec_relations[0].target.as_str(), "B");
    assert_eq!(spec_relations[0].relation_type, relation_type_id(RequirementRelationKind::Derives));
}

#[test]
fn a_relation_touching_a_non_requirement_endpoint_is_excluded_from_the_bundle() {
    let graph = RequirementGraph {
        baseline: baseline(),
        requirements: vec![requirement("REQ-1", "Encrypt at rest", "Body text.")],
        evidence: Vec::new(),
        relations: vec![relation("R1", "REQ-1", "REQ-2", RequirementRelationKind::Verifies, RelationAuthority::Asserted)],
    };
    let bundle = export_bundle(&graph).expect("export should succeed");
    let spec_relations = &bundle.content.as_ref().expect("content").spec_relations;
    assert!(spec_relations.is_empty(), "expected the evidence-touching relation to be excluded, got: {spec_relations:?}");
}

#[test]
fn the_exported_bundle_declares_encoding_namespace_and_baseline_header() {
    let graph = RequirementGraph {
        baseline: baseline(),
        requirements: vec![requirement("REQ-1", "Encrypt at rest", "Body text.")],
        evidence: Vec::new(),
        relations: Vec::new(),
    };
    let bundle = export_bundle(&graph).expect("export should succeed");
    assert_eq!(bundle.encoding.as_deref(), Some("UTF-8"));
    assert_eq!(bundle.namespace.as_deref(), Some("http://www.omg.org/spec/ReqIF/20110401/reqif.xsd"));
    assert_eq!(bundle.header.as_ref().unwrap().identifier, "BL-1");
    let content = bundle.content.as_ref().unwrap();
    assert_eq!(content.data_types.len(), 1);
    assert_eq!(content.data_types[0].identifier, "DT-STRING");
    assert_eq!(content.spec_types.len(), 11);
    assert_eq!(content.spec_objects.len(), 1);
}

#[test]
fn long_names_are_the_normalized_names_the_adapter_recognizes() {
    assert_eq!(relation_long_name(RequirementRelationKind::AllocatedTo), "allocated_to");
    assert_eq!(relation_type_id(RequirementRelationKind::AllocatedTo), "ST-ALLOCATED-TO");
    for kind in ALL_KINDS {
        assert_eq!(kr0ki_core::reqif_adapter::relation_kind_from_name(relation_long_name(kind)), Some(kind));
    }
}

#[test]
fn export_then_lower_gives_back_requirements_and_asserted_relations() {
    let graph = RequirementGraph {
        baseline: baseline(),
        requirements: vec![
            requirement("REQ-1", "Encrypt at rest", "System shall encrypt data at rest."),
            requirement("REQ-2", "", "Untitled body."),
        ],
        evidence: Vec::new(),
        relations: ALL_KINDS
            .iter()
            .enumerate()
            .map(|(i, k)| relation(&format!("R{i}"), "REQ-2", "REQ-1", *k, RelationAuthority::Asserted))
            .chain(std::iter::once(relation(
                "R-proposed",
                "REQ-1",
                "REQ-2",
                RequirementRelationKind::Traces,
                RelationAuthority::Proposed(NonAuthoritativeRelation {
                    rationale: "maybe".into(),
                    evidence: vec![],
                    model: ModelIdentity { name: "m".into(), version: "1".into() },
                }),
            )))
            .collect(),
    };
    let bundle = export_bundle(&graph).expect("export should succeed");
    let config = ReqIfAdapterConfig {
        source_uri: "test://round-trip".to_string(),
        revision: "rev-2".to_string(),
        import_artifact_sha256: None,
    };
    let back = bundle_to_requirement_graph(&bundle, &config).expect("re-import");
    assert_eq!(back.baseline.id, "BL-1");
    assert_eq!(back.requirements.len(), 2);
    assert_eq!(back.requirements[0].id, "REQ-1");
    assert_eq!(back.requirements[0].title, "Encrypt at rest");
    assert_eq!(back.requirements[0].text, "System shall encrypt data at rest.");
    assert_eq!(back.requirements[1].title, "REQ-2");
    assert_eq!(back.requirements[1].text, "Untitled body.");
    assert_eq!(back.relations.len(), 10);
    for (i, k) in ALL_KINDS.iter().enumerate() {
        assert_eq!(back.relations[i].id, format!("R{i}"));
        assert_eq!(back.relations[i].kind, *k);
        assert!(matches!(back.relations[i].authority, RelationAuthority::Asserted));
    }
}
