use kr0ki_core::ontology::{ElementId, OntologicalEdge, Relation, SysmlViewKind, UfoRelation};
use kr0ki_core::sysml_lift::{lift_edge, lift_edges};

fn edge(relation: UfoRelation) -> OntologicalEdge {
    OntologicalEdge::new("e1", ElementId::new("src"), ElementId::new("dst"), relation)
}

#[test]
fn every_ufo_relation_lifts_without_panicking_and_preserves_edge_id() {
    for relation in UfoRelation::all() {
        let lifted = lift_edge(&edge(relation));
        assert_eq!(lifted.source_edge_id, "e1");
    }
}

#[test]
fn has_part_lifts_to_feature_membership_owner_first() {
    let lifted = lift_edge(&edge(UfoRelation::HasPart));
    assert_eq!(
        lifted.relation,
        Relation::FeatureMembership {
            owner: ElementId::new("src"),
            member: ElementId::new("dst"),
        }
    );
    assert_eq!(lifted.view_kind, SysmlViewKind::Tree);
}

#[test]
fn member_of_lifts_to_feature_membership_with_swapped_endpoints() {
    let lifted = lift_edge(&edge(UfoRelation::MemberOf));
    assert_eq!(
        lifted.relation,
        Relation::FeatureMembership {
            owner: ElementId::new("dst"),
            member: ElementId::new("src"),
        }
    );
}

#[test]
fn specializes_lifts_to_specialization() {
    let lifted = lift_edge(&edge(UfoRelation::Specializes));
    assert_eq!(
        lifted.relation,
        Relation::Specialization {
            specific: ElementId::new("src"),
            general: ElementId::new("dst"),
        }
    );
}

#[test]
fn requires_lifts_to_dependency() {
    let lifted = lift_edge(&edge(UfoRelation::Requires));
    assert_eq!(
        lifted.relation,
        Relation::Dependency {
            client: ElementId::new("src"),
            supplier: ElementId::new("dst"),
        }
    );
}

#[test]
fn structural_group_lifts_to_connection_in_interconnection_view() {
    for relation in [
        UfoRelation::HostedBy,
        UfoRelation::Binds,
        UfoRelation::ResolvesTo,
        UfoRelation::RoutesTo,
    ] {
        let lifted = lift_edge(&edge(relation));
        assert_eq!(
            lifted.relation,
            Relation::Connection {
                ends: vec![ElementId::new("src"), ElementId::new("dst")],
            },
            "{relation:?}"
        );
        assert_eq!(lifted.view_kind, SysmlViewKind::Interconnection);
    }
}

#[test]
fn occurrence_group_lifts_to_succession_in_action_flow_view() {
    for relation in [
        UfoRelation::ParticipatesIn,
        UfoRelation::Initiates,
        UfoRelation::Precedes,
        UfoRelation::Causes,
        UfoRelation::FlowsTo,
    ] {
        let lifted = lift_edge(&edge(relation));
        assert_eq!(
            lifted.relation,
            Relation::Succession {
                source: ElementId::new("src"),
                target: ElementId::new("dst"),
            },
            "{relation:?}"
        );
        assert_eq!(lifted.view_kind, SysmlViewKind::ActionFlow);
    }
}

#[test]
fn transitions_lifts_to_succession_in_state_transition_view() {
    let lifted = lift_edge(&edge(UfoRelation::Transitions));
    assert_eq!(
        lifted.relation,
        Relation::Succession {
            source: ElementId::new("src"),
            target: ElementId::new("dst"),
        }
    );
    assert_eq!(lifted.view_kind, SysmlViewKind::StateTransition);
}

#[test]
fn satisfies_lifts_to_satisfy_with_subject_and_requirement() {
    let lifted = lift_edge(&edge(UfoRelation::Satisfies));
    assert_eq!(
        lifted.relation,
        Relation::Satisfy {
            subject: ElementId::new("src"),
            requirement: ElementId::new("dst"),
        }
    );
}

#[test]
fn verifies_lifts_to_verify_with_by_and_requirement() {
    let lifted = lift_edge(&edge(UfoRelation::Verifies));
    assert_eq!(
        lifted.relation,
        Relation::Verify {
            by: ElementId::new("src"),
            requirement: ElementId::new("dst"),
        }
    );
}

#[test]
fn governance_group_lifts_to_allocation() {
    for relation in [
        UfoRelation::Controls,
        UfoRelation::Observes,
        UfoRelation::GovernedBy,
        UfoRelation::AuthorizedBy,
    ] {
        let lifted = lift_edge(&edge(relation));
        assert_eq!(
            lifted.relation,
            Relation::Allocation {
                source: ElementId::new("src"),
                target: ElementId::new("dst"),
            },
            "{relation:?}"
        );
    }
}

#[test]
fn traces_to_lifts_to_domain_with_its_own_canonical_name() {
    let lifted = lift_edge(&edge(UfoRelation::TracesTo));
    assert_eq!(
        lifted.relation,
        Relation::Domain {
            source: ElementId::new("src"),
            target: ElementId::new("dst"),
            kind: "traces_to".to_string(),
        }
    );
}

#[test]
fn unmodeled_relations_fall_through_to_domain_and_preserve_the_canonical_name() {
    for relation in [
        UfoRelation::Instantiates,
        UfoRelation::ScopedBy,
        UfoRelation::Selects,
        UfoRelation::Provides,
    ] {
        let lifted = lift_edge(&edge(relation));
        assert_eq!(
            lifted.relation,
            Relation::Domain {
                source: ElementId::new("src"),
                target: ElementId::new("dst"),
                kind: relation.canonical_name().to_string(),
            },
            "{relation:?}"
        );
    }
}

#[test]
fn lift_edges_preserves_order() {
    let edges = vec![
        edge(UfoRelation::HasPart),
        edge(UfoRelation::Satisfies),
        edge(UfoRelation::TracesTo),
    ];
    let lifted = lift_edges(&edges);
    assert_eq!(lifted.len(), 3);
    assert!(matches!(
        lifted[0].relation,
        Relation::FeatureMembership { .. }
    ));
    assert!(matches!(lifted[1].relation, Relation::Satisfy { .. }));
    assert!(matches!(lifted[2].relation, Relation::Domain { .. }));
}
