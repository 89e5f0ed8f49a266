//! Recomputing a project's requirements graph from its newest snapshot:
//! every rule document's evaluation outcome, in order, folded into a fresh
//! graph for the snapshot's baseline.
use vstd::prelude::*;

use crate::model::ModelSnapshot;
use crate::ontology::{edges_view, EdgeView, OntologicalEdge};
use crate::requirements::{graph_v, BaselineV, GraphV, RequirementGraph};
use crate::requirements_sync::{baseline_for, register_violations, register_violations_spec};
use crate::rule_docs::{rule_doc_view, RuleDoc};
use crate::rule_eval::{outcome_view, RuleOutcome};

verus! {

/// A graph with a baseline and nothing else.
pub open spec fn empty_graph(b: BaselineV) -> GraphV {
    GraphV { baseline: b, requirements: Seq::empty(), evidence: Seq::empty(), relations: Seq::empty() }
}

/// [`register_violations_spec`] over the evaluated rules, in order.
pub open spec fn fold_outcomes(g: GraphV, edges: Seq<EdgeView>, evaluated: Seq<(RuleDoc, RuleOutcome)>) -> GraphV
    decreases evaluated.len(),
{
    if evaluated.len() == 0 {
        g
    } else {
        register_violations_spec(
            fold_outcomes(g, edges, evaluated.drop_last()),
            rule_doc_view(evaluated.last().0),
            edges,
            outcome_view(evaluated.last().1),
        )
    }
}

/// The requirements graph of a snapshot whose rule documents were evaluated
/// against the graph with edges `edges`: each `(rule, outcome)` pair is fed,
/// in order, into an empty graph for the snapshot's baseline.
pub fn fold_rule_outcomes(snapshot: &ModelSnapshot, edges: &[OntologicalEdge], evaluated: &[(RuleDoc, RuleOutcome)]) -> (r: RequirementGraph)
    ensures
        graph_v(r) == fold_outcomes(
            empty_graph(BaselineV { id: snapshot.project_id@, revision: snapshot.commit_id@, import_artifact_sha256: None, exported_baseline_sha256: None }),
            edges_view(edges@),
            evaluated@,
        ),
{
    let mut graph = RequirementGraph {
        baseline: baseline_for(snapshot),
        requirements: Vec::new(),
        evidence: Vec::new(),
        relations: Vec::new(),
    };
    let ghost g0 = graph_v(graph);
    assert(g0.requirements =~= Seq::empty());
    assert(g0.evidence =~= Seq::empty());
    assert(g0.relations =~= Seq::empty());
    assert(g0 == empty_graph(BaselineV { id: snapshot.project_id@, revision: snapshot.commit_id@, import_artifact_sha256: None, exported_baseline_sha256: None }));
    let mut i: usize = 0;
    assert(evaluated@.take(0) =~= Seq::<(RuleDoc, RuleOutcome)>::empty());
    while i < evaluated.len()
        invariant
            i <= evaluated@.len(),
            graph_v(graph) == fold_outcomes(g0, edges_view(edges@), evaluated@.take(i as int)),
        decreases evaluated@.len() - i,
    {
        proof {
            assert(evaluated@.take(i + 1).drop_last() =~= evaluated@.take(i as int));
            assert(evaluated@.take(i + 1).last() == evaluated@[i as int]);
        }
        let pair = &evaluated[i];
        register_violations(&mut graph, &pair.0, edges, &pair.1);
        i = i + 1;
    }
    assert(evaluated@.take(evaluated@.len() as int) =~= evaluated@);
    graph
}

} // verus!
