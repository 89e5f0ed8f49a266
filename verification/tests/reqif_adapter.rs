use kr0ki_core::reqif_adapter::{
    attribute_value_string, bundle_to_requirement_graph, normalize_key, ReqIfAdapterConfig, ReqIfAdapterError,
    RequirementRelationKind,
};
use kr0ki_core::reqif_bundle::{
    AttributeData, AttributeDefinition, AttributeValue, DataTypeDefinition, DatatypeKind, ReqIfBundle, ReqIfContent, ReqIfHeader,
    SpecObject, SpecRelation, SpecType, SpecTypeKind,
};
use kr0ki_core::requirements::{RelationAuthority, RequirementError};

fn string_def(id: &str, long_name: &str) -> AttributeDefinition {
    AttributeDefinition {
        kind: DatatypeKind::String,
        identifier: id.to_string(),
        long_name: Some(long_name.to_string()),
        datatype: "DT-STRING".to_string(),
    }
}

fn string_value(def: &str, value: &str) -> AttributeValue {
    AttributeValue { definition: def.to_string(), data: AttributeData::String(value.to_string()) }
}

/// Two spec objects (one carrying `Key`/`Text` attributes and a long name,
/// one carrying only a `Key`) plus one `Derives` relation between them: the
/// content of the adapter's reference ReqIF document.
fn fixture_with_relation_type_name(relation_type_name: &str) -> ReqIfBundle {
    ReqIfBundle {
        encoding: Some("UTF-8".to_string()),
        namespace: Some("http://www.omg.org/spec/ReqIF/20110401/reqif.xsd".to_string()),
        header: Some(ReqIfHeader { identifier: "BASELINE-TEST".to_string() }),
        content: Some(ReqIfContent {
            data_types: vec![DataTypeDefinition {
                kind: DatatypeKind::String,
                identifier: "DT-STRING".to_string(),
                long_name: Some("String".to_string()),
            }],
            spec_types: vec![
                SpecType {
                    kind: SpecTypeKind::SpecObject,
                    identifier: "ST-REQUIREMENT".to_string(),
                    long_name: Some("Requirement".to_string()),
                    attributes: vec![string_def("AD-KEY", "Key"), string_def("AD-TEXT", "Text")],
                },
                SpecType {
                    kind: SpecTypeKind::SpecRelation,
                    identifier: "ST-DERIVES".to_string(),
                    long_name: Some(relation_type_name.to_string()),
                    attributes: Vec::new(),
                },
            ],
            spec_objects: vec![
                SpecObject {
                    identifier: "REQ-1".to_string(),
                    long_name: Some("Encryption at rest".to_string()),
                    spec_type: "ST-REQUIREMENT".to_string(),
                    values: vec![
                        string_value("AD-KEY", "ENC-001"),
                        string_value("AD-TEXT", "System shall encrypt data at rest."),
                    ],
                },
                SpecObject {
                    identifier: "REQ-2".to_string(),
                    long_name: None,
                    spec_type: "ST-REQUIREMENT".to_string(),
                    values: vec![string_value("AD-KEY", "ENC-001-DERIVED")],
                },
            ],
            spec_relations: vec![SpecRelation {
                identifier: "REL-1".to_string(),
                long_name: None,
                relation_type: "ST-DERIVES".to_string(),
                source: "REQ-2".to_string(),
                target: "REQ-1".to_string(),
            }],
        }),
    }
}

fn fixture() -> ReqIfBundle {
    fixture_with_relation_type_name("Derives")
}

fn config() -> ReqIfAdapterConfig {
    ReqIfAdapterConfig {
        source_uri: "test://fixture.reqif".to_string(),
        revision: "rev-1".to_string(),
        import_artifact_sha256: Some("deadbeef".to_string()),
    }
}

fn attribute<'a>(attributes: &'a [(String, String)], key: &str) -> Option<&'a str> {
    attributes.iter().find(|(k, _)| k == key).map(|(_, v)| v.as_str())
}


#[test]
fn maps_baseline_from_header_identifier() {
    let graph = bundle_to_requirement_graph(&fixture(), &config()).unwrap();
    assert_eq!(graph.baseline.id, "BASELINE-TEST");
    assert_eq!(graph.baseline.revision, "rev-1");
    assert_eq!(graph.baseline.import_artifact_sha256.as_deref(), Some("deadbeef"));
}

#[test]
fn maps_spec_object_long_name_and_attributes_to_title_and_text() {
    let graph = bundle_to_requirement_graph(&fixture(), &config()).unwrap();
    let req1 = graph.requirements.iter().find(|r| r.id == "REQ-1").unwrap();
    assert_eq!(req1.title, "Encryption at rest");
    assert_eq!(req1.text, "System shall encrypt data at rest.");
    assert_eq!(attribute(&req1.attributes, "key"), Some("ENC-001"));
    assert_eq!(req1.provenance.source_uri, "test://fixture.reqif");
}

#[test]
fn falls_back_to_key_attribute_when_long_name_is_absent() {
    let graph = bundle_to_requirement_graph(&fixture(), &config()).unwrap();
    let req2 = graph.requirements.iter().find(|r| r.id == "REQ-2").unwrap();
    assert_eq!(req2.title, "ENC-001-DERIVED");
    assert_eq!(req2.text, "");
}

#[test]
fn maps_spec_relation_to_requirement_relation_with_kind_from_relation_type() {
    let graph = bundle_to_requirement_graph(&fixture(), &config()).unwrap();
    assert_eq!(graph.relations.len(), 1);
    let rel = &graph.relations[0];
    assert_eq!(rel.id, "REL-1");
    assert_eq!(rel.source, "REQ-2");
    assert_eq!(rel.target, "REQ-1");
    assert_eq!(rel.kind, RequirementRelationKind::Derives);
    assert!(matches!(rel.authority, RelationAuthority::Asserted));
}

#[test]
fn returned_graph_passes_validation() {
    let graph = bundle_to_requirement_graph(&fixture(), &config()).unwrap();
    assert!(graph.validate().is_ok());
}

#[test]
fn missing_content_is_a_typed_error() {
    let bundle = ReqIfBundle {
        encoding: Some("UTF-8".to_string()),
        namespace: Some("http://www.omg.org/spec/ReqIF/20110401/reqif.xsd".to_string()),
        header: Some(ReqIfHeader { identifier: "EMPTY".to_string() }),
        content: None,
    };
    let err = bundle_to_requirement_graph(&bundle, &config()).unwrap_err();
    assert!(matches!(err, ReqIfAdapterError::MissingContent));
}

#[test]
fn unrecognized_relation_type_name_falls_back_to_traces() {
    let bundle = fixture_with_relation_type_name("Custom Vendor Link");
    let graph = bundle_to_requirement_graph(&bundle, &config()).unwrap();
    assert_eq!(graph.relations[0].kind, RequirementRelationKind::Traces);
}

#[test]
fn attributes_are_sorted_by_key_and_the_last_value_of_a_key_wins() {
    let mut bundle = fixture();
    let content = bundle.content.as_mut().unwrap();
    content.spec_types[0].attributes.push(string_def("AD-OTHER-KEY", "KEY"));
    content.spec_objects[0].values.push(string_value("AD-OTHER-KEY", "ENC-002"));
    content.spec_objects[0].values.push(string_value("AD-UNDEFINED", "ignored"));
    let graph = bundle_to_requirement_graph(&bundle, &config()).unwrap();
    let req1 = &graph.requirements[0];
    assert_eq!(
        req1.attributes,
        vec![
            ("key".to_string(), "ENC-002".to_string()),
            ("text".to_string(), "System shall encrypt data at rest.".to_string()),
        ]
    );
}

#[test]
fn an_empty_header_identifier_falls_back_to_the_source_uri() {
    let mut bundle = fixture();
    bundle.header = Some(ReqIfHeader { identifier: String::new() });
    let graph = bundle_to_requirement_graph(&bundle, &config()).unwrap();
    assert_eq!(graph.baseline.id, "test://fixture.reqif");
    bundle.header = None;
    let graph = bundle_to_requirement_graph(&bundle, &config()).unwrap();
    assert_eq!(graph.baseline.id, "test://fixture.reqif");
}

#[test]
fn title_falls_back_through_name_and_title_attributes_to_the_identifier() {
    let mut bundle = fixture();
    let content = bundle.content.as_mut().unwrap();
    content.spec_types[0].attributes.push(string_def("AD-NAME", "Name"));
    content.spec_types[0].attributes.push(string_def("AD-DESC", "Description"));
    content.spec_objects[0].long_name = Some(String::new());
    content.spec_objects[0].values = vec![string_value("AD-NAME", "Named"), string_value("AD-DESC", "Described")];
    content.spec_objects[1].values = Vec::new();
    let graph = bundle_to_requirement_graph(&bundle, &config()).unwrap();
    assert_eq!(graph.requirements[0].title, "Named");
    assert_eq!(graph.requirements[0].text, "Described");
    assert_eq!(graph.requirements[1].title, "REQ-2");
}

#[test]
fn attribute_values_render_as_text() {
    assert_eq!(attribute_value_string(&AttributeData::Boolean(true)), "true");
    assert_eq!(attribute_value_string(&AttributeData::Boolean(false)), "false");
    assert_eq!(attribute_value_string(&AttributeData::Integer("42".to_string())), "42");
    assert_eq!(
        attribute_value_string(&AttributeData::Enumeration(vec!["E-1".to_string(), "E-2".to_string()])),
        "E-1, E-2"
    );
    assert_eq!(attribute_value_string(&AttributeData::Xhtml("<p>x</p>".to_string())), "<p>x</p>");
}

#[test]
fn normalized_keys_are_lowercase_snake_case() {
    assert_eq!(normalize_key("Allocated To"), "allocated_to");
    assert_eq!(normalize_key("Derived-From"), "derived_from");
}

#[test]
fn a_relation_to_an_unknown_object_fails_validation() {
    let mut bundle = fixture();
    bundle.content.as_mut().unwrap().spec_relations[0].target = "REQ-404".to_string();
    let err = bundle_to_requirement_graph(&bundle, &config()).unwrap_err();
    assert_eq!(err, ReqIfAdapterError::Graph(RequirementError::UnknownEndpoint("REL-1".to_string())));
}
