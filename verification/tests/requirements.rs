use kr0ki_core::reqif_adapter::RequirementRelationKind;
use kr0ki_core::requirements::{
    BaselineIdentity, EvidenceRef, Provenance, RelationAuthority, Requirement, RequirementError, RequirementGraph, RequirementRelation,
};

fn baseline() -> BaselineIdentity {
    BaselineIdentity { id: "BL-1".into(), revision: "commit-1".into(), import_artifact_sha256: None, exported_baseline_sha256: None }
}

fn provenance() -> Provenance {
    Provenance { source_uri: "test://contract".into(), artifact_sha256: None, locator: None }
}

fn requirement(id: &str, title: &str) -> Requirement {
    Requirement {
        id: id.into(),
        title: title.into(),
        text: String::new(),
        baseline: baseline(),
        provenance: provenance(),
        attributes: Vec::new(),
        evidence: Vec::new(),
    }
}

fn relation(id: &str, source: &str, target: &str) -> RequirementRelation {
    RequirementRelation {
        id: id.into(),
        source: source.into(),
        target: target.into(),
        kind: RequirementRelationKind::Requires,
        authority: RelationAuthority::Asserted,
        provenance: provenance(),
    }
}

#[test]
fn validation_rejects_a_relation_with_an_unknown_endpoint() {
    let graph = RequirementGraph {
        baseline: baseline(),
        requirements: vec![requirement("r1", "One")],
        evidence: vec![],
        relations: vec![relation("dangling", "r1", "does-not-exist")],
    };
    let error = graph.validate().unwrap_err();
    assert_eq!(error, RequirementError::UnknownEndpoint("dangling".into()));
}

#[test]
fn evidence_is_a_known_endpoint_and_the_first_dangling_relation_is_reported() {
    let graph = RequirementGraph {
        baseline: baseline(),
        requirements: vec![requirement("r1", "One")],
        evidence: vec![EvidenceRef { id: "t1".into(), label: "test".into(), uri: None, provenance: None }],
        relations: vec![relation("ok", "t1", "r1"), relation("first", "x", "r1"), relation("second", "r1", "y")],
    };
    assert_eq!(graph.validate(), Err(RequirementError::UnknownEndpoint("first".into())));
    let valid = RequirementGraph { relations: vec![relation("ok", "t1", "r1")], ..graph };
    assert_eq!(valid.validate(), Ok(()));
}
