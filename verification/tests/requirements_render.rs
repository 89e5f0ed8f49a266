use kr0ki_core::reqif_adapter::{normalize_key, relation_kind_from_name, relation_kind_or_traces, RequirementRelationKind};
use kr0ki_core::requirements_render::{lex_less, to_d2, RelationAuthority, ViewEvidence, ViewGraph, ViewRelation, ViewRequirement, ViewResult};

fn req(id: &str, title: &str) -> ViewRequirement {
    ViewRequirement { id: id.into(), title: title.into() }
}

#[test]
fn an_induced_view_lowers_through_to_d2_with_no_renderer_source_leaking_into_the_view_itself() {
    let view = ViewResult {
        graph: ViewGraph {
            requirements: vec![req("r2", "Two"), req("r1", "One")],
            evidence: vec![],
            relations: vec![ViewRelation {
                source: "r1".into(),
                target: "r2".into(),
                kind: RequirementRelationKind::Contains,
                authority: RelationAuthority::Asserted,
            }],
        },
    };
    assert_eq!(
        to_d2(&view),
        "\"r1\": \"One\"\n\"r2\": \"Two\"\n\"r1\" -> \"r2\": Contains (asserted)\n"
    );
}

#[test]
fn evidence_label_overrides_an_earlier_requirement_title_for_the_same_id() {
    let view = ViewResult {
        graph: ViewGraph {
            requirements: vec![req("b", "B"), req("a", "A"), req("a", "A2")],
            evidence: vec![ViewEvidence { id: "b".into(), label: "B-evidence\nline".into() }],
            relations: vec![ViewRelation {
                source: "a".into(),
                target: "b".into(),
                kind: RequirementRelationKind::AllocatedTo,
                authority: RelationAuthority::Proposed,
            }],
        },
    };
    assert_eq!(
        to_d2(&view),
        "\"a\": \"A2\"\n\"b\": \"B-evidence line\"\n\"a\" -> \"b\": AllocatedTo (proposed)\n"
    );
}

#[test]
fn ids_are_ordered_as_strings() {
    let v = |s: &str| s.chars().collect::<Vec<_>>();
    assert!(lex_less(&v("a"), &v("b")));
    assert!(lex_less(&v("a"), &v("ab")));
    assert!(lex_less(&v("Z"), &v("a")));
    assert!(!lex_less(&v("b"), &v("b")));
    assert!(!lex_less(&v("ab"), &v("a")));
}

#[test]
fn relation_kind_names_map_onto_the_vocabulary() {
    assert_eq!(relation_kind_from_name("derived_from"), Some(RequirementRelationKind::Derives));
    assert_eq!(relation_kind_from_name("allocatedto"), Some(RequirementRelationKind::AllocatedTo));
    assert_eq!(relation_kind_from_name("custom_vendor_link"), None);
    assert_eq!(relation_kind_or_traces(Some("custom_vendor_link")), RequirementRelationKind::Traces);
    assert_eq!(relation_kind_or_traces(None), RequirementRelationKind::Traces);
    assert_eq!(normalize_key("Custom Vendor-Link"), "custom_vendor_link");
    assert_eq!(normalize_key("Derives"), "derives");
}
