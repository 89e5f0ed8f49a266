use kr0ki_core::model::ModelSnapshot;
use kr0ki_core::ontology::{ElementId, OntologicalEdge, SourceAnchor, UfoRelation};
use kr0ki_core::recompute::fold_rule_outcomes;
use kr0ki_core::reqif_adapter::RequirementRelationKind;
use kr0ki_core::requirements::{BaselineIdentity, Provenance, RelationAuthority, RequirementGraph};
use kr0ki_core::requirements_sync::{baseline_for, register_rule_doc, register_violations};
use kr0ki_core::rule_docs::{RuleBackendKind, RuleDoc};
use kr0ki_core::rule_eval::{Disposition, RuleOutcome};

fn empty_graph() -> RequirementGraph {
    RequirementGraph {
        baseline: BaselineIdentity {
            id: "p1".into(),
            revision: "c1".into(),
            import_artifact_sha256: None,
            exported_baseline_sha256: None,
        },
        requirements: Vec::new(),
        evidence: Vec::new(),
        relations: Vec::new(),
    }
}

fn doc() -> RuleDoc {
    RuleDoc {
        id: ElementId::new("rule:no-bad-parts"),
        name: "No BadPart allowed".into(),
        rego_source: "package kr0ki\n\nviolations := []\n".into(),
        backend: RuleBackendKind::Rego,
    }
}

fn attested_edge() -> OntologicalEdge {
    OntologicalEdge {
        id: "fm-1".into(),
        source: ElementId::new("pkg-1"),
        target: ElementId::new("elem-1"),
        relation: UfoRelation::HasPart,
        provenance: vec![SourceAnchor::KermlQualifiedName("fm-1".into())],
    }
}

fn violated(reason: &str, nodes: &[&str]) -> RuleOutcome {
    RuleOutcome {
        disposition: Disposition::Violated { reason: reason.to_string() },
        evidence_nodes: nodes.iter().map(|n| n.to_string()).collect(),
    }
}


#[test]
fn a_violation_registers_the_rule_as_a_requirement_and_creates_a_relation() {
    let mut graph = empty_graph();
    let edges = vec![attested_edge()];
    let result = violated("BadPart is not allowed", &["node:elem-1"]);
    register_violations(&mut graph, &doc(), &edges, &result);

    assert_eq!(graph.requirements.len(), 1);
    assert_eq!(graph.requirements[0].id, "rule:no-bad-parts");

    assert_eq!(graph.relations.len(), 1);
    let relation = &graph.relations[0];
    assert_eq!(relation.source, "rule:no-bad-parts");
    assert_eq!(relation.kind, RequirementRelationKind::Satisfies);
    match &relation.authority {
        RelationAuthority::Inferred(details) => {
            assert_eq!(details.rationale, "BadPart is not allowed");
            assert_eq!(details.evidence.len(), 1);
        }
        other => panic!("expected Inferred, got {other:?}"),
    }
    assert!(graph.validate().is_ok());
}

#[test]
fn a_violated_node_with_no_provenance_bearing_edge_still_validates() {
    let mut graph = empty_graph();
    let result = violated("no anchor yet", &["node:elem-1"]);
    register_violations(&mut graph, &doc(), &[], &result);
    assert_eq!(graph.relations.len(), 1);
    assert!(graph.validate().is_ok());
}

#[test]
fn a_satisfied_result_registers_nothing() {
    let mut graph = empty_graph();
    let result = RuleOutcome { disposition: Disposition::Satisfied, evidence_nodes: Vec::new() };
    register_violations(&mut graph, &doc(), &[], &result);
    assert!(graph.requirements.is_empty());
    assert!(graph.relations.is_empty());
}

#[test]
fn a_second_recompute_upserts_rather_than_duplicates() {
    let mut graph = empty_graph();
    let edges = vec![attested_edge()];
    let result = violated("BadPart is not allowed", &["node:elem-1"]);
    register_violations(&mut graph, &doc(), &edges, &result);
    register_violations(&mut graph, &doc(), &edges, &result);
    assert_eq!(graph.requirements.len(), 1);
    assert_eq!(graph.relations.len(), 1);
}

#[test]
fn an_unknown_result_registers_nothing() {
    let mut graph = empty_graph();
    let result = RuleOutcome { disposition: Disposition::Unknown, evidence_nodes: vec!["node:elem-1".to_string()] };
    register_violations(&mut graph, &doc(), &[attested_edge()], &result);
    assert_eq!(graph, empty_graph());
}

#[test]
fn evidence_ids_name_the_node_the_edge_and_the_anchor() {
    let mut graph = empty_graph();
    let edges = vec![attested_edge()];
    register_violations(&mut graph, &doc(), &edges, &violated("bad", &["node:elem-1"]));
    assert_eq!(graph.evidence.len(), 1);
    let ev = &graph.evidence[0];
    assert_eq!(ev.id, "node:elem-1#0-0");
    assert_eq!(ev.label, "elem-1");
    assert_eq!(
        ev.provenance,
        Some(Provenance { source_uri: "kerml:fm-1".to_string(), artifact_sha256: None, locator: None })
    );
    let relation = &graph.relations[0];
    assert_eq!(relation.id, "rule-eval:rule:no-bad-parts:node:elem-1#0-0");
    assert_eq!(relation.target, "node:elem-1#0-0");
    assert_eq!(relation.provenance.source_uri, "rule-eval:rule:no-bad-parts");
    match &relation.authority {
        RelationAuthority::Inferred(details) => {
            assert_eq!(details.model.name, "kr0ki-rule-eval");
            assert_eq!(details.evidence[0].id, "node:elem-1#0-0");
        }
        other => panic!("expected Inferred, got {other:?}"),
    }
    let requirement = &graph.requirements[0];
    assert_eq!(requirement.title, "No BadPart allowed");
    assert_eq!(requirement.provenance.source_uri, "kerml:rule:no-bad-parts");
    assert_eq!(requirement.attributes, vec![("kind".to_string(), "rego-rule".to_string())]);
}

#[test]
fn a_node_without_anchored_edges_gets_fallback_evidence() {
    let mut graph = empty_graph();
    register_violations(&mut graph, &doc(), &[], &violated("no anchor yet", &["node:elem-1"]));
    assert_eq!(graph.evidence.len(), 1);
    assert_eq!(graph.evidence[0].id, "node:elem-1#none");
    assert_eq!(graph.evidence[0].provenance, None);
    assert_eq!(graph.relations[0].target, "node:elem-1#none");
}

#[test]
fn anchors_of_every_incident_edge_become_evidence_in_edge_order() {
    let mut graph = empty_graph();
    let edges = vec![
        OntologicalEdge {
            id: "e0".into(),
            source: ElementId::new("elem-1"),
            target: ElementId::new("x"),
            relation: UfoRelation::HasPart,
            provenance: vec![
                SourceAnchor::SysmlFile { path: "a.sysml".into(), line: Some(12) },
                SourceAnchor::RustSpan { file: "src/lib.rs".into(), line: 7 },
            ],
        },
        OntologicalEdge {
            id: "unrelated".into(),
            source: ElementId::new("y"),
            target: ElementId::new("z"),
            relation: UfoRelation::HasPart,
            provenance: vec![SourceAnchor::Other("ignored".into())],
        },
        OntologicalEdge {
            id: "e1".into(),
            source: ElementId::new("w"),
            target: ElementId::new("elem-1"),
            relation: UfoRelation::HasPart,
            provenance: vec![SourceAnchor::K8sObject {
                api_version: "apps/v1".into(),
                kind: "Deployment".into(),
                namespace: None,
                name: "web".into(),
                uid: None,
            }],
        },
    ];
    register_violations(&mut graph, &doc(), &edges, &violated("bad", &["node:elem-1"]));
    let ids: Vec<&str> = graph.evidence.iter().map(|e| e.id.as_str()).collect();
    assert_eq!(ids, vec!["node:elem-1#0-0", "node:elem-1#0-1", "node:elem-1#1-0"]);
    let uris: Vec<&str> = graph.evidence.iter().map(|e| e.provenance.as_ref().unwrap().source_uri.as_str()).collect();
    assert_eq!(uris, vec!["sysml-file:a.sysml", "rust-span:src/lib.rs", "k8s:apps/v1/Deployment//web"]);
    assert_eq!(graph.evidence[0].provenance.as_ref().unwrap().locator, Some("12".to_string()));
    assert_eq!(graph.evidence[1].provenance.as_ref().unwrap().locator, Some("7".to_string()));
    match &graph.relations[0].authority {
        RelationAuthority::Inferred(details) => assert_eq!(details.evidence.len(), 3),
        other => panic!("expected Inferred, got {other:?}"),
    }
}

#[test]
fn evidence_nodes_without_the_node_prefix_are_skipped() {
    let mut graph = empty_graph();
    register_violations(&mut graph, &doc(), &[attested_edge()], &violated("bad", &["elem-1"]));
    assert_eq!(graph.requirements.len(), 1);
    assert!(graph.evidence.is_empty());
    assert!(graph.relations.is_empty());
}

#[test]
fn registering_a_rule_doc_twice_keeps_one_requirement() {
    let mut graph = empty_graph();
    register_rule_doc(&mut graph, &doc());
    register_rule_doc(&mut graph, &doc());
    assert_eq!(graph.requirements.len(), 1);
    assert_eq!(graph.requirements[0].text, "package kr0ki\n\nviolations := []\n");
    assert_eq!(graph.requirements[0].baseline, graph.baseline);
}

#[test]
fn a_second_registration_leaves_evidence_and_relations_as_they_were() {
    let mut graph = empty_graph();
    let edges = vec![attested_edge()];
    let result = violated("bad", &["node:elem-1", "node:pkg-1", "node:elem-9"]);
    register_violations(&mut graph, &doc(), &edges, &result);
    let once = graph.clone();
    register_violations(&mut graph, &doc(), &edges, &result);
    assert_eq!(graph.requirements.len(), once.requirements.len());
    assert_eq!(graph.evidence.len(), once.evidence.len());
    assert_eq!(graph.relations.len(), once.relations.len());
    assert_eq!(once.relations.len(), 3);
}

#[test]
fn the_baseline_is_the_snapshots_project_and_commit() {
    let snapshot = ModelSnapshot {
        project_id: "p9".into(),
        commit_id: "c7".into(),
        roots: Vec::new(),
        content_hash: "h".into(),
        elements: Vec::new(),
    };
    let b = baseline_for(&snapshot);
    assert_eq!(b.id, "p9");
    assert_eq!(b.revision, "c7");
    assert_eq!(b.import_artifact_sha256, None);
    assert_eq!(b.exported_baseline_sha256, None);
}

#[test]
fn folding_outcomes_registers_only_violated_rules() {
    let snapshot = ModelSnapshot {
        project_id: "p1".into(),
        commit_id: "c1".into(),
        roots: Vec::new(),
        content_hash: "h".into(),
        elements: Vec::new(),
    };
    let passing = RuleDoc {
        id: ElementId::new("rule:always-pass"),
        name: "Always passes".into(),
        rego_source: "package kr0ki\n".into(),
        backend: RuleBackendKind::Rego,
    };
    let evaluated = vec![
        (doc(), violated("BadPart is not allowed", &["node:elem-1"])),
        (passing, RuleOutcome { disposition: Disposition::Satisfied, evidence_nodes: Vec::new() }),
    ];
    let graph = fold_rule_outcomes(&snapshot, &[attested_edge()], &evaluated);
    assert_eq!(graph.baseline, empty_graph().baseline);
    assert_eq!(graph.requirements.len(), 1);
    assert_eq!(graph.requirements[0].id, "rule:no-bad-parts");
    assert_eq!(graph.relations.len(), 1);
    assert!(graph.validate().is_ok());
}
