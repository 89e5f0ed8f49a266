use kr0ki_core::rule_eval::{Disposition, RegorusBackend, RuleOutcome, ViolationEntry};

fn entry(id: &str, reason: &str) -> ViolationEntry {
    ViolationEntry { element_id: id.to_string(), reason: reason.to_string() }
}

#[test]
fn a_report_with_one_violation_is_violated_with_its_node_as_evidence() {
    let entries = vec![entry("elem-1", "BadPart is not allowed")];
    let outcome = RegorusBackend.outcome_of(Some(entries.as_slice()));
    assert_eq!(
        outcome,
        RuleOutcome {
            disposition: Disposition::Violated { reason: "elem-1: BadPart is not allowed".to_string() },
            evidence_nodes: vec!["node:elem-1".to_string()],
        }
    );
}

#[test]
fn several_violations_join_their_reasons_in_report_order() {
    let entries = vec![entry("a", "first"), entry("b", "second"), entry("c", "third")];
    let outcome = RegorusBackend.outcome_of(Some(entries.as_slice()));
    assert_eq!(outcome.disposition, Disposition::Violated { reason: "a: first; b: second; c: third".to_string() });
    assert_eq!(outcome.evidence_nodes, vec!["node:a", "node:b", "node:c"]);
}

#[test]
fn an_empty_report_is_satisfied_with_no_evidence() {
    let outcome = RegorusBackend.outcome_of(Some(&[]));
    assert_eq!(outcome.disposition, Disposition::Satisfied);
    assert!(outcome.evidence_nodes.is_empty());
}

#[test]
fn no_report_at_all_is_unknown() {
    let outcome = RegorusBackend.outcome_of(None);
    assert_eq!(outcome.disposition, Disposition::Unknown);
    assert!(outcome.evidence_nodes.is_empty());
}
