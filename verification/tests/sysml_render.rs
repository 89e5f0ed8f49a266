use kr0ki_core::ontology::{ElementId, Relation};
use kr0ki_core::sysml_render::{relation_label, to_d2, to_mermaid};

fn sample_relations() -> Vec<Relation> {
    vec![
        Relation::FeatureMembership {
            owner: ElementId::new("pkg"),
            member: ElementId::new("svc-a"),
        },
        Relation::Connection {
            ends: vec![
                ElementId::new("svc-a"),
                ElementId::new("svc-b"),
                ElementId::new("svc-c"),
            ],
        },
        Relation::Domain {
            source: ElementId::new("svc-a"),
            target: ElementId::new("svc-c"),
            kind: "traces_to".to_string(),
        },
    ]
}

#[test]
fn d2_output_is_deterministic() {
    let relations = sample_relations();
    assert_eq!(to_d2(&relations), to_d2(&relations));
}

#[test]
fn d2_declares_every_distinct_node_once_in_first_seen_order() {
    let d2 = to_d2(&sample_relations());
    let node_lines: Vec<&str> = d2.lines().filter(|l| !l.contains("->")).collect();
    assert_eq!(node_lines, vec!["\"pkg\": pkg", "\"svc-a\": svc-a", "\"svc-b\": svc-b", "\"svc-c\": svc-c",]);
}

#[test]
fn d2_connection_with_three_ends_becomes_a_two_edge_chain() {
    let d2 = to_d2(&sample_relations());
    assert!(d2.contains("\"svc-a\" -> \"svc-b\": connection"));
    assert!(d2.contains("\"svc-b\" -> \"svc-c\": connection"));
    assert!(!d2.contains("\"svc-a\" -> \"svc-c\": connection"));
}

#[test]
fn d2_domain_edge_is_labeled_with_its_own_kind_not_a_generic_placeholder() {
    let d2 = to_d2(&sample_relations());
    assert!(d2.contains("\"svc-a\" -> \"svc-c\": traces_to"));
}

#[test]
fn d2_output_is_exact_with_quoted_ids_and_bare_labels() {
    assert_eq!(
        to_d2(&sample_relations()),
        "\"pkg\": pkg\n\"svc-a\": svc-a\n\"svc-b\": svc-b\n\"svc-c\": svc-c\n\
         \"pkg\" -> \"svc-a\": feature_membership\n\
         \"svc-a\" -> \"svc-b\": connection\n\
         \"svc-b\" -> \"svc-c\": connection\n\
         \"svc-a\" -> \"svc-c\": traces_to\n"
    );
}

#[test]
fn mermaid_is_a_flowchart_with_a_generated_header() {
    let mermaid = to_mermaid(&sample_relations());
    assert!(mermaid.starts_with("%%{ init: { 'theme': 'neutral' } }%%\nflowchart TD\n"));
}

#[test]
fn mermaid_declares_every_node_with_its_id_as_the_label() {
    let mermaid = to_mermaid(&sample_relations());
    for id in ["pkg", "svc-a", "svc-b", "svc-c"] {
        assert!(
            mermaid.contains(&format!("[\"{id}\"]")),
            "missing node label {id} in:\n{mermaid}"
        );
    }
}

#[test]
fn mermaid_edges_carry_the_relation_label() {
    let mermaid = to_mermaid(&sample_relations());
    assert!(mermaid.contains("-->|feature_membership|"));
    assert!(mermaid.contains("-->|connection|"));
    assert!(mermaid.contains("-->|traces_to|"));
    assert!(mermaid.contains("    n1 -->|connection| n2\n"));
}

#[test]
fn empty_input_produces_a_valid_empty_diagram() {
    assert_eq!(to_d2(&[]), "");
    assert_eq!(
        to_mermaid(&[]),
        "%%{ init: { 'theme': 'neutral' } }%%\nflowchart TD\n"
    );
}

#[test]
fn relation_label_covers_every_variant_with_a_non_empty_string() {
    let samples = [
        Relation::FeatureMembership {
            owner: ElementId::new("a"),
            member: ElementId::new("b"),
        },
        Relation::Specialization {
            specific: ElementId::new("a"),
            general: ElementId::new("b"),
        },
        Relation::Subsetting {
            subset: ElementId::new("a"),
            superset: ElementId::new("b"),
        },
        Relation::Redefinition {
            redefining: ElementId::new("a"),
            redefined: ElementId::new("b"),
        },
        Relation::Connection {
            ends: vec![ElementId::new("a"), ElementId::new("b")],
        },
        Relation::Succession {
            source: ElementId::new("a"),
            target: ElementId::new("b"),
        },
        Relation::Allocation {
            source: ElementId::new("a"),
            target: ElementId::new("b"),
        },
        Relation::Satisfy {
            requirement: ElementId::new("a"),
            subject: ElementId::new("b"),
        },
        Relation::Verify {
            requirement: ElementId::new("a"),
            by: ElementId::new("b"),
        },
        Relation::Refine {
            refined: ElementId::new("a"),
            refining: ElementId::new("b"),
        },
        Relation::Dependency {
            client: ElementId::new("a"),
            supplier: ElementId::new("b"),
        },
        Relation::Domain {
            source: ElementId::new("a"),
            target: ElementId::new("b"),
            kind: "custom".to_string(),
        },
    ];
    for relation in &samples {
        assert!(!relation_label(relation).is_empty(), "{relation:?}");
    }
}
