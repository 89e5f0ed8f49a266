//! Lift of canonical UFO edges into KerML / SysML v2 relations, each paired
//! with the SysML view it renders in.
//!
//! | UFO relation | Relation | View |
//! |---|---|---|
//! | `HasPart` | `FeatureMembership { owner: source, member: target }` | `Tree` |
//! | `MemberOf` | `FeatureMembership { owner: target, member: source }` | `Tree` |
//! | `Specializes` | `Specialization { specific: source, general: target }` | `Tree` |
//! | `HostedBy` / `Binds` / `ResolvesTo` / `RoutesTo` | `Connection { ends: [source, target] }` | `Interconnection` |
//! | `Requires` | `Dependency { client: source, supplier: target }` | `Interconnection` |
//! | `ParticipatesIn` / `Initiates` / `Precedes` / `Causes` / `FlowsTo` | `Succession` | `ActionFlow` |
//! | `Transitions` | `Succession` | `StateTransition` |
//! | `Satisfies` | `Satisfy { subject: source, requirement: target }` | `General` |
//! | `Verifies` | `Verify { by: source, requirement: target }` | `General` |
//! | `Controls` / `Observes` / `GovernedBy` / `AuthorizedBy` | `Allocation` | `General` |
//! | everything else (`TracesTo`, `Instantiates`, `ScopedBy`, `Selects`, `Provides`) | `Domain { kind: canonical name }` | `General` |
use vstd::prelude::*;

use crate::ontology::{
    canonical_name_of, endpoints_of, ElementId, OntologicalEdge, Relation, SysmlViewKind,
    UfoRelation,
};

verus! {

/// One lifted edge: the relation, its view, and the originating edge id.
#[derive(Debug, Clone, PartialEq, Eq)]
pub struct LiftedRelation {
    pub relation: Relation,
    pub view_kind: SysmlViewKind,
    pub source_edge_id: String,
}

/// Which `Relation` variant a value is (declaration order).
pub open spec fn relation_tag(r: Relation) -> int {
    match r {
        Relation::FeatureMembership { .. } => 0,
        Relation::Specialization { .. } => 1,
        Relation::Subsetting { .. } => 2,
        Relation::Redefinition { .. } => 3,
        Relation::Connection { .. } => 4,
        Relation::Succession { .. } => 5,
        Relation::Allocation { .. } => 6,
        Relation::Satisfy { .. } => 7,
        Relation::Verify { .. } => 8,
        Relation::Refine { .. } => 9,
        Relation::Dependency { .. } => 10,
        Relation::Domain { .. } => 11,
    }
}

/// The `Relation` variant a UFO relation lifts to.
pub open spec fn lift_tag(r: UfoRelation) -> int {
    match r {
        UfoRelation::HasPart | UfoRelation::MemberOf => 0,
        UfoRelation::Specializes => 1,
        UfoRelation::HostedBy | UfoRelation::Binds | UfoRelation::ResolvesTo | UfoRelation::RoutesTo => 4,
        UfoRelation::Requires => 10,
        UfoRelation::ParticipatesIn | UfoRelation::Initiates | UfoRelation::Precedes
        | UfoRelation::Causes | UfoRelation::FlowsTo | UfoRelation::Transitions => 5,
        UfoRelation::Satisfies => 7,
        UfoRelation::Verifies => 8,
        UfoRelation::Controls | UfoRelation::Observes | UfoRelation::GovernedBy
        | UfoRelation::AuthorizedBy => 6,
        _ => 11,
    }
}

/// The view a UFO relation's lift is placed in.
pub open spec fn lift_view(r: UfoRelation) -> SysmlViewKind {
    match r {
        UfoRelation::HasPart | UfoRelation::MemberOf | UfoRelation::Specializes => SysmlViewKind::Tree,
        UfoRelation::HostedBy | UfoRelation::Binds | UfoRelation::ResolvesTo | UfoRelation::RoutesTo
        | UfoRelation::Requires => SysmlViewKind::Interconnection,
        UfoRelation::ParticipatesIn | UfoRelation::Initiates | UfoRelation::Precedes
        | UfoRelation::Causes | UfoRelation::FlowsTo => SysmlViewKind::ActionFlow,
        UfoRelation::Transitions => SysmlViewKind::StateTransition,
        _ => SysmlViewKind::General,
    }
}

/// The lifted relation's endpoint order: the edge's own direction, except
/// `MemberOf`, whose owner is the edge's target.
pub open spec fn lift_endpoints(r: UfoRelation, source: Seq<char>, target: Seq<char>) -> Seq<Seq<char>> {
    if r == UfoRelation::MemberOf {
        seq![target, source]
    } else {
        seq![source, target]
    }
}

/// `lifted` is exactly the lift of relation `r` from `source` to `target`.
pub open spec fn is_lift_of(lifted: Relation, view: SysmlViewKind, r: UfoRelation, source: Seq<char>, target: Seq<char>) -> bool {
    &&& relation_tag(lifted) == lift_tag(r)
    &&& view == lift_view(r)
    &&& endpoints_of(lifted) == lift_endpoints(r, source, target)
    &&& (lifted matches Relation::Domain { kind, .. } ==> kind@ == canonical_name_of(r))
}

fn lift_relation(relation: UfoRelation, source: ElementId, target: ElementId) -> (r: (Relation, SysmlViewKind))
    ensures
        is_lift_of(r.0, r.1, relation, source.view_id(), target.view_id()),
{
    match relation {
        UfoRelation::HasPart => (Relation::FeatureMembership { owner: source, member: target }, SysmlViewKind::Tree),
        UfoRelation::MemberOf => (Relation::FeatureMembership { owner: target, member: source }, SysmlViewKind::Tree),
        UfoRelation::Specializes => (Relation::Specialization { specific: source, general: target }, SysmlViewKind::Tree),
        UfoRelation::HostedBy | UfoRelation::Binds | UfoRelation::ResolvesTo | UfoRelation::RoutesTo => {
            let ends = vec![source, target];
            let r = Relation::Connection { ends };
            assert(ends@.map_values(|e: ElementId| e.view_id()) =~= seq![ends@[0].view_id(), ends@[1].view_id()]);
            (r, SysmlViewKind::Interconnection)
        }
        UfoRelation::Requires => (Relation::Dependency { client: source, supplier: target }, SysmlViewKind::Interconnection),
        UfoRelation::ParticipatesIn | UfoRelation::Initiates | UfoRelation::Precedes
        | UfoRelation::Causes | UfoRelation::FlowsTo => (Relation::Succession { source, target }, SysmlViewKind::ActionFlow),
        UfoRelation::Transitions => (Relation::Succession { source, target }, SysmlViewKind::StateTransition),
        UfoRelation::Satisfies => (Relation::Satisfy { subject: source, requirement: target }, SysmlViewKind::General),
        UfoRelation::Verifies => (Relation::Verify { by: source, requirement: target }, SysmlViewKind::General),
        UfoRelation::Controls | UfoRelation::Observes | UfoRelation::GovernedBy
        | UfoRelation::AuthorizedBy => (Relation::Allocation { source, target }, SysmlViewKind::General),
        _ => {
            let kind = relation.canonical_name().to_owned();
            (Relation::Domain { source, target, kind }, SysmlViewKind::General)
        }
    }
}

/// Lift a single edge; total over every relation.
pub fn lift_edge(edge: &OntologicalEdge) -> (r: LiftedRelation)
    ensures
        is_lift_of(r.relation, r.view_kind, edge.relation, edge.source.view_id(), edge.target.view_id()),
        r.source_edge_id@ == edge.id@,
{
    let (relation, view_kind) = lift_relation(edge.relation, edge.source.duplicate(), edge.target.duplicate());
    LiftedRelation { relation, view_kind, source_edge_id: edge.id.clone() }
}

/// Lift every edge, preserving order.
pub fn lift_edges(edges: &[OntologicalEdge]) -> (r: Vec<LiftedRelation>)
    ensures
        r@.len() == edges@.len(),
        forall|i: int| 0 <= i < edges@.len() ==> {
            &&& is_lift_of(#[trigger] r@[i].relation, r@[i].view_kind, edges@[i].relation, edges@[i].source.view_id(), edges@[i].target.view_id())
            &&& r@[i].source_edge_id@ == edges@[i].id@
        },
{
    let mut out: Vec<LiftedRelation> = Vec::new();
    let mut i: usize = 0;
    while i < edges.len()
        invariant
            i <= edges@.len(),
            out@.len() == i,
            forall|k: int| 0 <= k < i ==> {
                &&& is_lift_of(#[trigger] out@[k].relation, out@[k].view_kind, edges@[k].relation, edges@[k].source.view_id(), edges@[k].target.view_id())
                &&& out@[k].source_edge_id@ == edges@[k].id@
            },
        decreases edges@.len() - i,
    {
        out.push(lift_edge(&edges[i]));
        i = i + 1;
    }
    out
}

} // verus!
