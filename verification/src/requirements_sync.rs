//! Feeding rule-evaluation results into a project's requirements graph: a
//! violated rule becomes a requirement (once), each violating element's
//! provenance becomes evidence (once per id), and an inferred `Satisfies`
//! relation from the rule to that evidence is inserted or replaced.
use vstd::prelude::*;

use crate::docgen::format::VERSION;
use crate::model::ModelSnapshot;
use crate::ontology::{edge_view, edges_view, opt_string_view, AnchorView, EdgeView, ElementId, OntologicalEdge, SourceAnchor};
use crate::reqif_adapter::RequirementRelationKind;
use crate::requirements::{
    baseline_v, evidence_v, evidences_v, graph_v, provenance_v, relation_v, requirement_v, AuthorityV, BaselineIdentity,
    BaselineV, EvidenceRef, EvidenceV, GraphV, ModelIdentity, NonAuthoritativeRelation, NonAuthoritativeV, Provenance,
    ProvenanceV, RelationAuthority, RelationV, Requirement, RequirementGraph, RequirementRelation, RequirementV,
};
use crate::rule_docs::{rule_doc_view, RuleDoc};
use crate::rule_eval::{outcome_view, Disposition, RuleOutcome};
use crate::text::{chars_to_string, decimal, has_prefix, lemma_split_on_nonempty, push_decimal, push_str, split_on, starts_with, str_chars, str_eq};

verus! {

/// The baseline a snapshot's requirements belong to: its project and commit.
pub fn baseline_for(snapshot: &ModelSnapshot) -> (r: BaselineIdentity)
    ensures
        baseline_v(r) == (BaselineV {
            id: snapshot.project_id@,
            revision: snapshot.commit_id@,
            import_artifact_sha256: None,
            exported_baseline_sha256: None,
        }),
{
    BaselineIdentity {
        id: snapshot.project_id.clone(),
        revision: snapshot.commit_id.clone(),
        import_artifact_sha256: None,
        exported_baseline_sha256: None,
    }
}

// ---------------------------------------------------------------------
// Rule documents as requirements
// ---------------------------------------------------------------------

pub open spec fn has_requirement(g: GraphV, id: Seq<char>) -> bool {
    exists|k: int| 0 <= k < g.requirements.len() && #[trigger] g.requirements[k].id == id
}

/// The requirement a rule document stands for.
pub open spec fn rule_requirement(g: GraphV, doc: (Seq<char>, Seq<char>, Seq<char>)) -> RequirementV {
    RequirementV {
        id: doc.0,
        title: doc.1,
        text: doc.2,
        baseline: g.baseline,
        provenance: ProvenanceV { source_uri: "kerml:"@ + doc.0, artifact_sha256: None, locator: None },
        attributes: seq![("kind"@, "rego-rule"@)],
        evidence: Seq::empty(),
    }
}

pub open spec fn with_requirements(g: GraphV, rs: Seq<RequirementV>) -> GraphV {
    GraphV { baseline: g.baseline, requirements: rs, evidence: g.evidence, relations: g.relations }
}

pub open spec fn with_evidence(g: GraphV, es: Seq<EvidenceV>) -> GraphV {
    GraphV { baseline: g.baseline, requirements: g.requirements, evidence: es, relations: g.relations }
}

pub open spec fn with_relations(g: GraphV, rs: Seq<RelationV>) -> GraphV {
    GraphV { baseline: g.baseline, requirements: g.requirements, evidence: g.evidence, relations: rs }
}

/// Registers a rule document as a requirement unless one with its id is
/// already there.
pub open spec fn register_rule_doc_spec(g: GraphV, doc: (Seq<char>, Seq<char>, Seq<char>)) -> GraphV {
    if has_requirement(g, doc.0) {
        g
    } else {
        with_requirements(g, g.requirements.push(rule_requirement(g, doc)))
    }
}

/// Idempotent: a rule doc already present (by id) is left untouched.
pub fn register_rule_doc(graph: &mut RequirementGraph, doc: &RuleDoc)
    ensures
        graph_v(*final(graph)) == register_rule_doc_spec(graph_v(*old(graph)), rule_doc_view(*doc)),
{
    let ghost g0 = graph_v(*graph);
    let id = doc.id.as_str();
    let mut k: usize = 0;
    while k < graph.requirements.len()
        invariant
            k <= graph.requirements@.len(),
            g0 == graph_v(*graph),
            id@ == doc.id.view_id(),
            forall|j: int| 0 <= j < k ==> g0.requirements[j].id != id@,
        decreases graph.requirements@.len() - k,
    {
        if str_eq(graph.requirements[k].id.as_str(), id) {
            assert(g0.requirements[k as int].id == id@);
            return;
        }
        k = k + 1;
    }
    let mut source_uri = String::new();
    push_str(&mut source_uri, "kerml:");
    push_str(&mut source_uri, id);
    let requirement = Requirement {
        id: id.to_owned(),
        title: doc.name.clone(),
        text: doc.rego_source.clone(),
        baseline: graph.baseline.duplicate(),
        provenance: Provenance { source_uri, artifact_sha256: None, locator: None },
        attributes: vec![("kind".to_owned(), "rego-rule".to_owned())],
        evidence: Vec::new(),
    };
    let ghost rv = requirement_v(requirement);
    graph.requirements.push(requirement);
    proof {
        assert(rv.attributes =~= seq![("kind"@, "rego-rule"@)]);
        assert(rv.evidence =~= Seq::<Seq<char>>::empty());
        assert(rv == rule_requirement(g0, rule_doc_view(*doc)));
        assert(graph_v(*graph).requirements =~= g0.requirements.push(rv));
    }
}

// ---------------------------------------------------------------------
// Evidence
// ---------------------------------------------------------------------

pub open spec fn opt_or(o: Option<Seq<char>>, d: Seq<char>) -> Seq<char> {
    match o {
        Some(x) => x,
        None => d,
    }
}

/// The provenance an edge's source anchor gives a piece of evidence.
pub open spec fn anchor_provenance(a: AnchorView) -> ProvenanceV {
    match a {
        AnchorView::KermlQualifiedName(qn) => ProvenanceV { source_uri: "kerml:"@ + qn, artifact_sha256: None, locator: None },
        AnchorView::Vcs { repo, commit, path } => ProvenanceV { source_uri: opt_or(repo, commit), artifact_sha256: None, locator: path },
        AnchorView::SysmlFile { path, line } => ProvenanceV {
            source_uri: "sysml-file:"@ + path,
            artifact_sha256: None,
            locator: match line {
                Some(l) => Some(decimal(l as nat)),
                None => None,
            },
        },
        AnchorView::K8sObject { api_version, kind, namespace, name, .. } => ProvenanceV {
            source_uri: "k8s:"@ + api_version + "/"@ + kind + "/"@ + opt_or(namespace, Seq::empty()) + "/"@ + name,
            artifact_sha256: None,
            locator: None,
        },
        AnchorView::RustSpan { file, line } => ProvenanceV {
            source_uri: "rust-span:"@ + file,
            artifact_sha256: None,
            locator: Some(decimal(line as nat)),
        },
        AnchorView::SymbolPath(p) => ProvenanceV { source_uri: "symbol:"@ + p, artifact_sha256: None, locator: None },
        AnchorView::Other(o) => ProvenanceV { source_uri: o, artifact_sha256: None, locator: None },
    }
}

fn opt_str(o: &Option<String>) -> (r: Option<String>)
    ensures
        opt_string_view(r) == opt_string_view(*o),
{
    match o {
        Some(x) => Some(x.clone()),
        None => None,
    }
}

fn decimal_string(n: u32) -> (r: String)
    ensures
        r@ == decimal(n as nat),
{
    let mut s = String::new();
    push_decimal(&mut s, n as u64);
    assert(s@ =~= decimal(n as nat));
    s
}

/// The provenance an edge's source anchor gives a piece of evidence.
pub fn provenance_from_anchor(anchor: &SourceAnchor) -> (r: Provenance)
    ensures
        provenance_v(r) == anchor_provenance(crate::ontology::anchor_view(*anchor)),
{
    match anchor {
        SourceAnchor::KermlQualifiedName(qn) => {
            let mut u = String::new();
            push_str(&mut u, "kerml:");
            push_str(&mut u, qn.as_str());
            Provenance { source_uri: u, artifact_sha256: None, locator: None }
        },
        SourceAnchor::Vcs { repo, commit, path } => {
            let source_uri = match repo {
                Some(r) => r.clone(),
                None => commit.clone(),
            };
            Provenance { source_uri, artifact_sha256: None, locator: opt_str(path) }
        },
        SourceAnchor::SysmlFile { path, line } => {
            let mut u = String::new();
            push_str(&mut u, "sysml-file:");
            push_str(&mut u, path.as_str());
            let locator = match line {
                Some(l) => Some(decimal_string(*l)),
                None => None,
            };
            Provenance { source_uri: u, artifact_sha256: None, locator }
        },
        SourceAnchor::K8sObject { api_version, kind, namespace, name, .. } => {
            let ns: &str = match namespace {
                Some(n) => n.as_str(),
                None => "",
            };
            proof {
                reveal_strlit("");
            }
            let mut u = String::new();
            push_str(&mut u, "k8s:");
            push_str(&mut u, api_version.as_str());
            push_str(&mut u, "/");
            push_str(&mut u, kind.as_str());
            push_str(&mut u, "/");
            push_str(&mut u, ns);
            push_str(&mut u, "/");
            push_str(&mut u, name.as_str());
            assert(ns@ == opt_or(opt_string_view(*namespace), Seq::empty()));
            Provenance { source_uri: u, artifact_sha256: None, locator: None }
        },
        SourceAnchor::RustSpan { file, line } => {
            let mut u = String::new();
            push_str(&mut u, "rust-span:");
            push_str(&mut u, file.as_str());
            Provenance { source_uri: u, artifact_sha256: None, locator: Some(decimal_string(*line)) }
        },
        SourceAnchor::SymbolPath(p) => {
            let mut u = String::new();
            push_str(&mut u, "symbol:");
            push_str(&mut u, p.as_str());
            Provenance { source_uri: u, artifact_sha256: None, locator: None }
        },
        SourceAnchor::Other(o) => Provenance { source_uri: o.clone(), artifact_sha256: None, locator: None },
    }
}

/// The id of the evidence the `j`-th anchor of the `i`-th incident edge of
/// element `eid` yields.
pub open spec fn evidence_id(eid: Seq<char>, i: nat, j: nat) -> Seq<char> {
    "node:"@ + eid + "#"@ + decimal(i) + "-"@ + decimal(j)
}

/// Whether an edge touches element `eid`.
pub open spec fn touches(e: EdgeView, eid: Seq<char>) -> bool {
    e.source == eid || e.target == eid
}

pub open spec fn incident(edges: Seq<EdgeView>, eid: Seq<char>) -> Seq<EdgeView> {
    edges.filter(|e: EdgeView| touches(e, eid))
}

/// The evidence of each anchor of the `i`-th incident edge.
pub open spec fn edge_entries(eid: Seq<char>, i: nat, e: EdgeView) -> Seq<EvidenceV> {
    e.provenance.map(|j: int, a: AnchorView| EvidenceV {
        id: evidence_id(eid, i, j as nat),
        label: eid,
        uri: None,
        provenance: Some(anchor_provenance(a)),
    })
}

/// The evidence of every anchor of every incident edge, in edge order.
pub open spec fn node_entries(eid: Seq<char>, inc: Seq<EdgeView>) -> Seq<EvidenceV>
    decreases inc.len(),
{
    if inc.len() == 0 {
        Seq::empty()
    } else {
        node_entries(eid, inc.drop_last()) + edge_entries(eid, (inc.len() - 1) as nat, inc.last())
    }
}

pub open spec fn has_evidence(es: Seq<EvidenceV>, id: Seq<char>) -> bool {
    exists|k: int| 0 <= k < es.len() && #[trigger] es[k].id == id
}

/// `es` with `x` appended unless evidence with its id is already there.
pub open spec fn add_one(es: Seq<EvidenceV>, x: EvidenceV) -> Seq<EvidenceV> {
    if has_evidence(es, x.id) {
        es
    } else {
        es.push(x)
    }
}

pub open spec fn add_absent(es: Seq<EvidenceV>, new: Seq<EvidenceV>) -> Seq<EvidenceV>
    decreases new.len(),
{
    if new.len() == 0 {
        es
    } else {
        add_one(add_absent(es, new.drop_last()), new.last())
    }
}

pub proof fn lemma_add_absent_append(es: Seq<EvidenceV>, a: Seq<EvidenceV>, b: Seq<EvidenceV>)
    ensures
        add_absent(es, a + b) == add_absent(add_absent(es, a), b),
    decreases b.len(),
{
    if b.len() == 0 {
        assert(a + b =~= a);
    } else {
        lemma_add_absent_append(es, a, b.drop_last());
        assert((a + b).drop_last() =~= a + b.drop_last());
        assert((a + b).last() == b.last());
    }
}

fn push_evidence(evidence: &mut Vec<EvidenceRef>, e: EvidenceRef)
    ensures
        evidences_v(final(evidence)@) == add_one(evidences_v(old(evidence)@), evidence_v(e)),
{
    let ghost ev = evidences_v(evidence@);
    let mut k: usize = 0;
    while k < evidence.len()
        invariant
            k <= evidence@.len(),
            ev == evidences_v(evidence@),
            forall|j: int| 0 <= j < k ==> ev[j].id != e.id@,
        decreases evidence@.len() - k,
    {
        if str_eq(evidence[k].id.as_str(), e.id.as_str()) {
            assert(ev[k as int].id == e.id@);
            return;
        }
        k = k + 1;
    }
    let ghost x = evidence_v(e);
    evidence.push(e);
    assert(evidences_v(evidence@) =~= ev.push(x));
}

fn evidence_id_exec(eid: &str, i: u64, j: u64) -> (r: String)
    ensures
        r@ == evidence_id(eid@, i as nat, j as nat),
{
    let mut s = String::new();
    push_str(&mut s, "node:");
    push_str(&mut s, eid);
    push_str(&mut s, "#");
    push_decimal(&mut s, i);
    push_str(&mut s, "-");
    push_decimal(&mut s, j);
    s
}

/// Registers one piece of evidence per anchor of every edge incident to
/// `element_id` (each at most once, by id) and returns their ids in edge
/// order.
fn register_node_evidence(graph: &mut RequirementGraph, element_id: &ElementId, edges: &[OntologicalEdge]) -> (ids: Vec<String>)
    ensures
        graph_v(*final(graph)) == with_evidence(graph_v(*old(graph)),
            add_absent(graph_v(*old(graph)).evidence, node_entries(element_id.view_id(), incident(edges_view(edges@), element_id.view_id())))),
        ids@.map_values(|s: String| s@) == node_entries(element_id.view_id(), incident(edges_view(edges@), element_id.view_id()))
            .map_values(|e: EvidenceV| e.id),
{
    let ghost g0 = graph_v(*graph);
    let ghost eid = element_id.view_id();
    let ghost ev = edges_view(edges@);
    let ghost pred = |e: EdgeView| touches(e, eid);
    let id = element_id.as_str();
    let mut ids: Vec<String> = Vec::new();
    let mut edge_idx: u64 = 0;
    let mut i: usize = 0;
    proof {
        reveal(Seq::filter);
        assert(ev.take(0).filter(pred) =~= Seq::<EdgeView>::empty());
    }
    while i < edges.len()
        invariant
            i <= edges@.len(),
            ev == edges_view(edges@),
            eid == element_id.view_id(),
            id@ == eid,
            pred == (|e: EdgeView| touches(e, eid)),
            edge_idx as int == ev.take(i as int).filter(pred).len(),
            edge_idx <= i,
            graph_v(*graph) == with_evidence(g0, add_absent(g0.evidence, node_entries(eid, ev.take(i as int).filter(pred)))),
            ids@.map_values(|s: String| s@) == node_entries(eid, ev.take(i as int).filter(pred)).map_values(|e: EvidenceV| e.id),
        decreases edges@.len() - i,
    {
        let ghost inc0 = ev.take(i as int).filter(pred);
        proof {
            reveal(Seq::filter);
            assert(ev.take(i + 1).drop_last() =~= ev.take(i as int));
            assert(ev.take(i + 1).last() == ev[i as int]);
        }
        let e = &edges[i];
        assert(edge_view(*e) == ev[i as int]);
        if str_eq(e.source.as_str(), id) || str_eq(e.target.as_str(), id) {
            let ghost inc1 = inc0.push(ev[i as int]);
            assert(ev.take(i + 1).filter(pred) == inc1);
            assert(inc1.drop_last() =~= inc0);
            let ghost new = edge_entries(eid, edge_idx as nat, ev[i as int]);
            assert(node_entries(eid, inc1) == node_entries(eid, inc0) + new);
            let ghost g1 = graph_v(*graph);
            let ghost ids1 = ids@.map_values(|s: String| s@);
            let mut j: usize = 0;
            while j < e.provenance.len()
                invariant
                    j <= e.provenance@.len(),
                    i < ev.len(),
                    e.provenance@.len() == new.len(),
                    edge_idx < u64::MAX,
                    new == edge_entries(eid, edge_idx as nat, ev[i as int]),
                    ev[i as int] == edge_view(*e),
                    id@ == eid,
                    graph_v(*graph) == with_evidence(g1, add_absent(g1.evidence, new.take(j as int))),
                    ids@.map_values(|s: String| s@) == ids1 + new.take(j as int).map_values(|x: EvidenceV| x.id),
                decreases e.provenance@.len() - j,
            {
                let evid = evidence_id_exec(id, edge_idx, j as u64);
                let ghost x = new[j as int];
                assert(x.id == evid@);
                let entry = EvidenceRef {
                    id: evid.clone(),
                    label: id.to_owned(),
                    uri: None,
                    provenance: Some(provenance_from_anchor(&e.provenance[j])),
                };
                assert(evidence_v(entry) == x);
                let ghost before = graph_v(*graph);
                push_evidence(&mut graph.evidence, entry);
                let ghost bids = ids@;
                ids.push(evid);
                proof {
                    assert(new.take(j + 1).drop_last() =~= new.take(j as int));
                    assert(new.take(j + 1).last() == x);
                    assert(graph_v(*graph) =~= with_evidence(g1, add_absent(g1.evidence, new.take(j + 1))));
                    assert(new.take(j + 1).map_values(|x: EvidenceV| x.id) =~= new.take(j as int).map_values(|x: EvidenceV| x.id).push(x.id));
                    assert(ids@.map_values(|s: String| s@) =~= bids.map_values(|s: String| s@).push(x.id));
                }
                j = j + 1;
            }
            proof {
                assert(new.take(new.len() as int) =~= new);
                lemma_add_absent_append(g0.evidence, node_entries(eid, inc0), new);
                assert(node_entries(eid, inc1).map_values(|x: EvidenceV| x.id)
                    =~= node_entries(eid, inc0).map_values(|x: EvidenceV| x.id) + new.map_values(|x: EvidenceV| x.id));
            }
            edge_idx = edge_idx + 1;
        } else {
            assert(ev.take(i + 1).filter(pred) == inc0);
        }
        i = i + 1;
    }
    assert(ev.take(ev.len() as int) =~= ev);
    ids
}

/// The evidence a node without provenance-bearing edges gets.
pub open spec fn fallback_entry(eid: Seq<char>) -> EvidenceV {
    EvidenceV { id: "node:"@ + eid + "#none"@, label: eid, uri: None, provenance: None }
}

fn register_fallback_evidence(graph: &mut RequirementGraph, element_id: &ElementId) -> (id: String)
    ensures
        graph_v(*final(graph)) == with_evidence(graph_v(*old(graph)), add_one(graph_v(*old(graph)).evidence, fallback_entry(element_id.view_id()))),
        id@ == fallback_entry(element_id.view_id()).id,
{
    let mut id = String::new();
    push_str(&mut id, "node:");
    push_str(&mut id, element_id.as_str());
    push_str(&mut id, "#none");
    let entry = EvidenceRef { id: id.clone(), label: element_id.as_str().to_owned(), uri: None, provenance: None };
    assert(evidence_v(entry) == fallback_entry(element_id.view_id()));
    push_evidence(&mut graph.evidence, entry);
    assert(graph_v(*graph) =~= with_evidence(graph_v(*old(graph)), add_one(graph_v(*old(graph)).evidence, fallback_entry(element_id.view_id()))));
    id
}

/// The first evidence with id `id`.
pub open spec fn first_evidence(es: Seq<EvidenceV>, id: Seq<char>) -> Option<EvidenceV>
    decreases es.len(),
{
    if es.len() == 0 {
        None
    } else if es[0].id == id {
        Some(es[0])
    } else {
        first_evidence(es.drop_first(), id)
    }
}

/// Position of the first relation with id `id`.
pub open spec fn first_relation(rs: Seq<RelationV>, id: Seq<char>) -> Option<int>
    decreases rs.len(),
{
    if rs.len() == 0 {
        None
    } else if rs[0].id == id {
        Some(0)
    } else {
        match first_relation(rs.drop_first(), id) {
            Some(k) => Some(k + 1),
            None => None,
        }
    }
}

pub open spec fn opt_seq<T>(o: Option<T>) -> Seq<T> {
    match o {
        Some(x) => seq![x],
        None => Seq::empty(),
    }
}

/// The inferred `Satisfies` relation from a rule to the first of its
/// evidence ids (or to the rule itself when there is none), carrying the
/// rationale and the evidence those ids name.
pub open spec fn rule_relation(g: GraphV, doc_id: Seq<char>, rationale: Seq<char>, ids: Seq<Seq<char>>) -> RelationV {
    let target = if ids.len() > 0 { ids[0] } else { doc_id };
    RelationV {
        id: "rule-eval:"@ + doc_id + ":"@ + target,
        source: doc_id,
        target,
        kind: RequirementRelationKind::Satisfies,
        authority: AuthorityV::Inferred(NonAuthoritativeV {
            rationale,
            evidence: crate::text::flat_map(ids, |id: Seq<char>| opt_seq(first_evidence(g.evidence, id))),
            model_name: "kr0ki-rule-eval"@,
            model_version: VERSION@,
        }),
        provenance: ProvenanceV { source_uri: "rule-eval:"@ + doc_id, artifact_sha256: None, locator: None },
    }
}

/// `rs` with `r` replacing the first relation of the same id, or appended.
pub open spec fn upsert_relation(rs: Seq<RelationV>, r: RelationV) -> Seq<RelationV> {
    match first_relation(rs, r.id) {
        Some(k) => rs.update(k, r),
        None => rs.push(r),
    }
}

proof fn lemma_first_evidence(es: Seq<EvidenceV>, id: Seq<char>)
    ensures
        match first_evidence(es, id) {
            Some(x) => exists|k: int| 0 <= k < es.len() && es[k] == x && x.id == id
                && forall|j: int| 0 <= j < k ==> (#[trigger] es[j]).id != id,
            None => forall|j: int| 0 <= j < es.len() ==> (#[trigger] es[j]).id != id,
        },
    decreases es.len(),
{
    if es.len() > 0 && es[0].id != id {
        lemma_first_evidence(es.drop_first(), id);
        match first_evidence(es, id) {
            Some(x) => {
                let k = choose|k: int| 0 <= k < es.drop_first().len() && es.drop_first()[k] == x && x.id == id
                    && forall|j: int| 0 <= j < k ==> (#[trigger] es.drop_first()[j]).id != id;
                assert(es[k + 1] == x);
                assert forall|j: int| 0 <= j < k + 1 implies (#[trigger] es[j]).id != id by {
                    if j > 0 {
                        assert(es[j] == es.drop_first()[j - 1]);
                    }
                }
            },
            None => {
                assert forall|j: int| 0 <= j < es.len() implies (#[trigger] es[j]).id != id by {
                    if j > 0 {
                        assert(es[j] == es.drop_first()[j - 1]);
                    }
                }
            },
        }
    }
}

proof fn lemma_first_relation(rs: Seq<RelationV>, id: Seq<char>)
    ensures
        match first_relation(rs, id) {
            Some(k) => 0 <= k < rs.len() && rs[k].id == id && forall|j: int| 0 <= j < k ==> (#[trigger] rs[j]).id != id,
            None => forall|j: int| 0 <= j < rs.len() ==> (#[trigger] rs[j]).id != id,
        },
    decreases rs.len(),
{
    if rs.len() > 0 && rs[0].id != id {
        lemma_first_relation(rs.drop_first(), id);
        assert forall|j: int| 0 < j < rs.len() implies rs[j] == rs.drop_first()[j - 1] by {}
    }
}

fn find_evidence(evidence: &Vec<EvidenceRef>, id: &str) -> (r: Option<EvidenceRef>)
    ensures
        match r {
            Some(e) => first_evidence(evidences_v(evidence@), id@) == Some(evidence_v(e)),
            None => first_evidence(evidences_v(evidence@), id@) is None,
        },
{
    let ghost ev = evidences_v(evidence@);
    let mut k: usize = 0;
    while k < evidence.len()
        invariant
            k <= evidence@.len(),
            ev == evidences_v(evidence@),
            forall|j: int| 0 <= j < k ==> (#[trigger] ev[j]).id != id@,
        decreases evidence@.len() - k,
    {
        if str_eq(evidence[k].id.as_str(), id) {
            proof {
                lemma_first_evidence(ev, id@);
                assert(ev[k as int].id == id@);
                match first_evidence(ev, id@) {
                    Some(x) => {
                        let m = choose|m: int| 0 <= m < ev.len() && ev[m] == x && x.id == id@
                            && forall|j: int| 0 <= j < m ==> (#[trigger] ev[j]).id != id@;
                        assert(m == k);
                    },
                    None => {},
                }
            }
            let e = evidence[k].duplicate();
            assert(evidence_v(e) == ev[k as int]);
            return Some(e);
        }
        k = k + 1;
    }
    proof { lemma_first_evidence(ev, id@); }
    None
}

fn find_relation(relations: &Vec<RequirementRelation>, id: &str) -> (r: Option<usize>)
    ensures
        match r {
            Some(k) => first_relation(relations@.map_values(|r: RequirementRelation| relation_v(r)), id@) == Some(k as int),
            None => first_relation(relations@.map_values(|r: RequirementRelation| relation_v(r)), id@) is None,
        },
{
    let ghost rv = relations@.map_values(|r: RequirementRelation| relation_v(r));
    proof { lemma_first_relation(rv, id@); }
    let mut k: usize = 0;
    while k < relations.len()
        invariant
            k <= relations@.len(),
            rv == relations@.map_values(|r: RequirementRelation| relation_v(r)),
            forall|j: int| 0 <= j < k ==> (#[trigger] rv[j]).id != id@,
        decreases relations@.len() - k,
    {
        if str_eq(relations[k].id.as_str(), id) {
            proof {
                lemma_first_relation(rv, id@);
                assert(rv[k as int].id == id@);
            }
            return Some(k);
        }
        k = k + 1;
    }
    None
}

/// Inserts, or replaces by id, the rule's inferred `Satisfies` relation.
fn register_relation(graph: &mut RequirementGraph, doc: &RuleDoc, rationale: &str, evidence_ids: &Vec<String>)
    ensures
        graph_v(*final(graph)) == with_relations(graph_v(*old(graph)), upsert_relation(graph_v(*old(graph)).relations,
            rule_relation(graph_v(*old(graph)), doc.id.view_id(), rationale@, evidence_ids@.map_values(|s: String| s@)))),
{
    let ghost g0 = graph_v(*graph);
    let ghost ids = evidence_ids@.map_values(|s: String| s@);
    let ghost f = |id: Seq<char>| opt_seq(first_evidence(g0.evidence, id));
    let doc_id = doc.id.as_str();
    let target: String = if evidence_ids.len() > 0 { evidence_ids[0].clone() } else { doc_id.to_owned() };
    let mut refs: Vec<EvidenceRef> = Vec::new();
    let mut i: usize = 0;
    assert(evidences_v(refs@) =~= crate::text::flat_map(ids.take(0), f));
    while i < evidence_ids.len()
        invariant
            i <= evidence_ids@.len(),
            g0 == graph_v(*graph),
            ids == evidence_ids@.map_values(|s: String| s@),
            f == (|id: Seq<char>| opt_seq(first_evidence(g0.evidence, id))),
            evidences_v(refs@) == crate::text::flat_map(ids.take(i as int), f),
        decreases evidence_ids@.len() - i,
    {
        proof { crate::text::lemma_flat_map_step(ids, i as int, f); }
        let ghost before = evidences_v(refs@);
        match find_evidence(&graph.evidence, evidence_ids[i].as_str()) {
            Some(e) => {
                refs.push(e);
            },
            None => {},
        }
        assert(evidences_v(refs@) =~= before + f(ids[i as int]));
        i = i + 1;
    }
    assert(ids.take(ids.len() as int) =~= ids);
    let mut relation_id = String::new();
    push_str(&mut relation_id, "rule-eval:");
    push_str(&mut relation_id, doc_id);
    push_str(&mut relation_id, ":");
    push_str(&mut relation_id, target.as_str());
    let mut source_uri = String::new();
    push_str(&mut source_uri, "rule-eval:");
    push_str(&mut source_uri, doc_id);
    let relation = RequirementRelation {
        id: relation_id.clone(),
        source: doc_id.to_owned(),
        target,
        kind: RequirementRelationKind::Satisfies,
        authority: RelationAuthority::Inferred(NonAuthoritativeRelation {
            rationale: rationale.to_owned(),
            evidence: refs,
            model: ModelIdentity { name: "kr0ki-rule-eval".to_owned(), version: VERSION.to_owned() },
        }),
        provenance: Provenance { source_uri, artifact_sha256: None, locator: None },
    };
    let ghost rv = relation_v(relation);
    assert(rv == rule_relation(g0, doc.id.view_id(), rationale@, ids));
    match find_relation(&graph.relations, relation_id.as_str()) {
        Some(k) => {
            proof {
                lemma_first_relation(g0.relations, rv.id);
                assert(g0.relations =~= graph.relations@.map_values(|r: RequirementRelation| relation_v(r)));
            }
            graph.relations.set(k, relation);
            proof {
                assert(graph_v(*graph).relations =~= g0.relations.update(k as int, rv));
            }
        },
        None => {
            graph.relations.push(relation);
            assert(graph_v(*graph).relations =~= g0.relations.push(rv));
        },
    }
    assert(graph_v(*graph) =~= with_relations(g0, upsert_relation(g0.relations, rv)));
}

// ---------------------------------------------------------------------
// Feeding an outcome into the graph
// ---------------------------------------------------------------------

/// The ids of the evidence an element's relation carries: one per anchor of
/// every incident edge or, when there is none, the fallback entry's.
pub open spec fn node_ids(eid: Seq<char>, edges: Seq<EdgeView>) -> Seq<Seq<char>> {
    let entries = node_entries(eid, incident(edges, eid));
    if entries.len() == 0 {
        seq![fallback_entry(eid).id]
    } else {
        entries.map_values(|e: EvidenceV| e.id)
    }
}

/// What one evidence node (`node:{element_id}`) of a violated rule adds:
/// the element's evidence (or its fallback entry when no incident edge
/// carries provenance) and the rule's relation to the first of them.
/// A node id without the `node:` prefix adds nothing.
pub open spec fn node_step(g: GraphV, doc_id: Seq<char>, edges: Seq<EdgeView>, reason: Seq<char>, node: Seq<char>) -> GraphV {
    if starts_with(node, "node:"@) {
        let eid = node.skip(5);
        let entries = node_entries(eid, incident(edges, eid));
        let g1 = with_evidence(g, add_absent(g.evidence, entries));
        let g2 = if entries.len() == 0 { with_evidence(g1, add_one(g1.evidence, fallback_entry(eid))) } else { g1 };
        with_relations(g2, upsert_relation(g2.relations, rule_relation(g2, doc_id, reason, node_ids(eid, edges))))
    } else {
        g
    }
}

/// [`node_step`] over the evidence nodes, in order.
pub open spec fn nodes_fold(g: GraphV, doc_id: Seq<char>, edges: Seq<EdgeView>, reason: Seq<char>, nodes: Seq<Seq<char>>) -> GraphV
    decreases nodes.len(),
{
    if nodes.len() == 0 {
        g
    } else {
        node_step(nodes_fold(g, doc_id, edges, reason, nodes.drop_last()), doc_id, edges, reason, nodes.last())
    }
}

/// The graph after one rule's outcome: unchanged unless the rule is
/// violated; then the rule is registered as a requirement and every
/// evidence node is folded in.
pub open spec fn register_violations_spec(
    g: GraphV,
    doc: (Seq<char>, Seq<char>, Seq<char>),
    edges: Seq<EdgeView>,
    outcome: (Option<Option<Seq<char>>>, Seq<Seq<char>>),
) -> GraphV {
    match outcome.0 {
        Some(Some(reason)) => nodes_fold(register_rule_doc_spec(g, doc), doc.0, edges, reason, outcome.1),
        _ => g,
    }
}

/// Feeds one rule's evaluation outcome into `graph`. Satisfied and unknown
/// outcomes change nothing.
pub fn register_violations(graph: &mut RequirementGraph, doc: &RuleDoc, edges: &[OntologicalEdge], result: &RuleOutcome)
    ensures
        graph_v(*final(graph)) == register_violations_spec(graph_v(*old(graph)), rule_doc_view(*doc), edges_view(edges@), outcome_view(*result)),
{
    let reason: &str = match &result.disposition {
        Disposition::Violated { reason } => reason.as_str(),
        _ => return,
    };
    register_rule_doc(graph, doc);
    let ghost g1 = graph_v(*graph);
    let ghost nodes = result.evidence_nodes@.map_values(|s: String| s@);
    let ghost ev = edges_view(edges@);
    let ghost doc_id = doc.id.view_id();
    let mut i: usize = 0;
    assert(nodes.take(0) =~= Seq::<Seq<char>>::empty());
    while i < result.evidence_nodes.len()
        invariant
            i <= result.evidence_nodes@.len(),
            nodes == result.evidence_nodes@.map_values(|s: String| s@),
            ev == edges_view(edges@),
            doc_id == doc.id.view_id(),
            graph_v(*graph) == nodes_fold(g1, doc_id, ev, reason@, nodes.take(i as int)),
        decreases result.evidence_nodes@.len() - i,
    {
        proof {
            assert(nodes.take(i + 1).drop_last() =~= nodes.take(i as int));
            assert(nodes.take(i + 1).last() == nodes[i as int]);
        }
        let node = result.evidence_nodes[i].as_str();
        if has_prefix(node, "node:") {
            proof {
                reveal_strlit("node:");
            }
            let chars = str_chars(node);
            let rest = chars_to_string(chars.as_slice(), 5, chars.len());
            assert(rest@ == nodes[i as int].skip(5));
            let element_id = ElementId::from_string(rest);
            let ghost g0 = graph_v(*graph);
            let mut evidence_ids = register_node_evidence(graph, &element_id, edges);
            let ghost entries = node_entries(element_id.view_id(), incident(ev, element_id.view_id()));
            assert(evidence_ids@.len() == entries.len()) by {
                assert(evidence_ids@.map_values(|s: String| s@).len() == entries.map_values(|e: EvidenceV| e.id).len());
            }
            if evidence_ids.len() == 0 {
                let fid = register_fallback_evidence(graph, &element_id);
                evidence_ids.push(fid);
                assert(evidence_ids@.map_values(|s: String| s@) =~= seq![fallback_entry(element_id.view_id()).id]);
            }
            register_relation(graph, doc, reason, &evidence_ids);
        } else {
            proof {
                reveal_strlit("node:");
            }
        }
        i = i + 1;
    }
    assert(nodes.take(nodes.len() as int) =~= nodes);
}

// ---------------------------------------------------------------------
// Registering the same outcome twice
// ---------------------------------------------------------------------

pub open spec fn has_relation(rs: Seq<RelationV>, id: Seq<char>) -> bool {
    exists|k: int| 0 <= k < rs.len() && #[trigger] rs[k].id == id
}

/// `b` keeps, position by position, the evidence ids of `a`.
pub open spec fn evidence_grows(a: Seq<EvidenceV>, b: Seq<EvidenceV>) -> bool {
    a.len() <= b.len() && forall|k: int| 0 <= k < a.len() ==> (#[trigger] b[k]).id == a[k].id
}

/// `b` keeps, position by position, the relation ids of `a`.
pub open spec fn relations_grow(a: Seq<RelationV>, b: Seq<RelationV>) -> bool {
    a.len() <= b.len() && forall|k: int| 0 <= k < a.len() ==> (#[trigger] b[k]).id == a[k].id
}

pub open spec fn graph_grows(a: GraphV, b: GraphV) -> bool {
    &&& b.requirements == a.requirements
    &&& evidence_grows(a.evidence, b.evidence)
    &&& relations_grow(a.relations, b.relations)
}

/// Everything folding evidence node `node` in would add is already in `g`.
pub open spec fn covers(g: GraphV, doc_id: Seq<char>, edges: Seq<EdgeView>, node: Seq<char>) -> bool {
    starts_with(node, "node:"@) ==> {
        let ids = node_ids(node.skip(5), edges);
        &&& forall|i: int| 0 <= i < ids.len() ==> has_evidence(g.evidence, #[trigger] ids[i])
        &&& has_relation(g.relations, "rule-eval:"@ + doc_id + ":"@ + ids[0])
    }
}

proof fn lemma_has_evidence_grows(a: Seq<EvidenceV>, b: Seq<EvidenceV>, id: Seq<char>)
    requires
        evidence_grows(a, b),
        has_evidence(a, id),
    ensures
        has_evidence(b, id),
{
    let k = choose|k: int| 0 <= k < a.len() && #[trigger] a[k].id == id;
    assert(b[k].id == id);
}

proof fn lemma_has_relation_grows(a: Seq<RelationV>, b: Seq<RelationV>, id: Seq<char>)
    requires
        relations_grow(a, b),
        has_relation(a, id),
    ensures
        has_relation(b, id),
{
    let k = choose|k: int| 0 <= k < a.len() && #[trigger] a[k].id == id;
    assert(b[k].id == id);
}

proof fn lemma_grows_trans(a: GraphV, b: GraphV, c: GraphV)
    requires
        graph_grows(a, b),
        graph_grows(b, c),
    ensures
        graph_grows(a, c),
{
    assert forall|k: int| 0 <= k < a.evidence.len() implies (#[trigger] c.evidence[k]).id == a.evidence[k].id by {
        assert(c.evidence[k].id == b.evidence[k].id);
    }
    assert forall|k: int| 0 <= k < a.relations.len() implies (#[trigger] c.relations[k]).id == a.relations[k].id by {
        assert(c.relations[k].id == b.relations[k].id);
    }
}

proof fn lemma_covers_grows(a: GraphV, b: GraphV, doc_id: Seq<char>, edges: Seq<EdgeView>, node: Seq<char>)
    requires
        graph_grows(a, b),
        covers(a, doc_id, edges, node),
    ensures
        covers(b, doc_id, edges, node),
{
    if starts_with(node, "node:"@) {
        let ids = node_ids(node.skip(5), edges);
        assert forall|i: int| 0 <= i < ids.len() implies has_evidence(b.evidence, #[trigger] ids[i]) by {
            lemma_has_evidence_grows(a.evidence, b.evidence, ids[i]);
        }
        lemma_has_relation_grows(a.relations, b.relations, "rule-eval:"@ + doc_id + ":"@ + ids[0]);
    }
}

proof fn lemma_add_one(es: Seq<EvidenceV>, x: EvidenceV)
    ensures
        evidence_grows(es, add_one(es, x)),
        has_evidence(add_one(es, x), x.id),
        has_evidence(es, x.id) ==> add_one(es, x) == es,
{
    if !has_evidence(es, x.id) {
        assert(es.push(x)[es.len() as int].id == x.id);
    }
}

proof fn lemma_add_absent(es: Seq<EvidenceV>, new: Seq<EvidenceV>)
    ensures
        evidence_grows(es, add_absent(es, new)),
        forall|i: int| 0 <= i < new.len() ==> has_evidence(add_absent(es, new), #[trigger] new[i].id),
        (forall|i: int| 0 <= i < new.len() ==> has_evidence(es, #[trigger] new[i].id)) ==> add_absent(es, new) == es,
    decreases new.len(),
{
    if new.len() > 0 {
        let init = new.drop_last();
        let mid = add_absent(es, init);
        lemma_add_absent(es, init);
        lemma_add_one(mid, new.last());
        assert forall|k: int| 0 <= k < es.len() implies (#[trigger] add_absent(es, new)[k]).id == es[k].id by {
            assert(add_absent(es, new)[k].id == mid[k].id);
        }
        assert forall|i: int| 0 <= i < new.len() implies has_evidence(add_absent(es, new), #[trigger] new[i].id) by {
            if i < new.len() - 1 {
                assert(new[i] == init[i]);
                lemma_has_evidence_grows(mid, add_absent(es, new), init[i].id);
            }
        }
        if forall|i: int| 0 <= i < new.len() ==> has_evidence(es, #[trigger] new[i].id) {
            assert forall|i: int| 0 <= i < init.len() implies has_evidence(es, #[trigger] init[i].id) by {
                assert(init[i] == new[i]);
            }
            assert(has_evidence(es, new[new.len() - 1].id));
        }
    }
}

proof fn lemma_upsert(rs: Seq<RelationV>, r: RelationV)
    ensures
        relations_grow(rs, upsert_relation(rs, r)),
        has_relation(upsert_relation(rs, r), r.id),
        has_relation(rs, r.id) ==> upsert_relation(rs, r).len() == rs.len(),
{
    lemma_first_relation(rs, r.id);
    match first_relation(rs, r.id) {
        Some(k) => {
            assert(upsert_relation(rs, r)[k].id == r.id);
        },
        None => {
            assert(upsert_relation(rs, r)[rs.len() as int].id == r.id);
            if has_relation(rs, r.id) {
                let k = choose|k: int| 0 <= k < rs.len() && #[trigger] rs[k].id == r.id;
                assert(rs[k].id != r.id);
            }
        },
    }
}

proof fn lemma_node_ids(eid: Seq<char>, edges: Seq<EdgeView>)
    ensures
        node_ids(eid, edges).len() > 0,
        node_entries(eid, incident(edges, eid)).len() == 0 ==> node_ids(eid, edges) == seq![fallback_entry(eid).id],
        node_entries(eid, incident(edges, eid)).len() > 0 ==> forall|i: int| 0 <= i < node_ids(eid, edges).len()
            ==> #[trigger] node_ids(eid, edges)[i] == node_entries(eid, incident(edges, eid))[i].id,
{
}

/// One step grows the graph, covers its own node, and adds nothing when
/// its node was already covered.
proof fn lemma_node_step(g: GraphV, doc_id: Seq<char>, edges: Seq<EdgeView>, reason: Seq<char>, node: Seq<char>)
    ensures
        graph_grows(g, node_step(g, doc_id, edges, reason, node)),
        covers(node_step(g, doc_id, edges, reason, node), doc_id, edges, node),
        covers(g, doc_id, edges, node) ==> {
            let h = node_step(g, doc_id, edges, reason, node);
            &&& h.evidence.len() == g.evidence.len()
            &&& h.relations.len() == g.relations.len()
        },
{
    let h = node_step(g, doc_id, edges, reason, node);
    if starts_with(node, "node:"@) {
        let eid = node.skip(5);
        let entries = node_entries(eid, incident(edges, eid));
        let g1 = with_evidence(g, add_absent(g.evidence, entries));
        let g2 = if entries.len() == 0 { with_evidence(g1, add_one(g1.evidence, fallback_entry(eid))) } else { g1 };
        let ids = node_ids(eid, edges);
        let r = rule_relation(g2, doc_id, reason, ids);
        lemma_node_ids(eid, edges);
        lemma_add_absent(g.evidence, entries);
        lemma_add_one(g1.evidence, fallback_entry(eid));
        lemma_upsert(g2.relations, r);
        assert(r.id == "rule-eval:"@ + doc_id + ":"@ + ids[0]);
        assert(h.evidence == g2.evidence);
        if entries.len() == 0 {
            lemma_grows_trans(g, g1, g2);
        }
        assert(graph_grows(g2, h));
        lemma_grows_trans(g, g2, h);
        assert forall|i: int| 0 <= i < ids.len() implies has_evidence(h.evidence, #[trigger] ids[i]) by {
            if entries.len() > 0 {
                assert(ids[i] == entries[i].id);
            }
        }
        if covers(g, doc_id, edges, node) {
            if entries.len() > 0 {
                assert forall|i: int| 0 <= i < entries.len() implies has_evidence(g.evidence, #[trigger] entries[i].id) by {
                    assert(ids[i] == entries[i].id);
                }
            } else {
                assert(ids[0] == fallback_entry(eid).id);
            }
            assert(g1.evidence == g.evidence);
            assert(g2.evidence == g.evidence);
        }
    }
}

proof fn lemma_fold_grows(g: GraphV, doc_id: Seq<char>, edges: Seq<EdgeView>, reason: Seq<char>, nodes: Seq<Seq<char>>)
    ensures
        graph_grows(g, nodes_fold(g, doc_id, edges, reason, nodes)),
        forall|i: int| 0 <= i < nodes.len() ==> covers(nodes_fold(g, doc_id, edges, reason, nodes), doc_id, edges, #[trigger] nodes[i]),
    decreases nodes.len(),
{
    if nodes.len() == 0 {
        assert(graph_grows(g, g));
    } else {
        let init = nodes.drop_last();
        let mid = nodes_fold(g, doc_id, edges, reason, init);
        let h = nodes_fold(g, doc_id, edges, reason, nodes);
        lemma_fold_grows(g, doc_id, edges, reason, init);
        lemma_node_step(mid, doc_id, edges, reason, nodes.last());
        lemma_grows_trans(g, mid, h);
        assert forall|i: int| 0 <= i < nodes.len() implies covers(h, doc_id, edges, #[trigger] nodes[i]) by {
            if i < nodes.len() - 1 {
                assert(nodes[i] == init[i]);
                lemma_covers_grows(mid, h, doc_id, edges, init[i]);
            }
        }
    }
}

// ---------------------------------------------------------------------
// Which node a relation id belongs to
// ---------------------------------------------------------------------

pub open spec fn no_hash(s: Seq<char>) -> bool {
    forall|i: int| 0 <= i < s.len() ==> s[i] != '#'
}

proof fn lemma_decimal_no_hash(n: nat)
    ensures
        no_hash(decimal(n)),
    decreases n,
{
    if n < 10 {
        assert(decimal(n) =~= seq![crate::text::digit_char(n)]);
        assert((48 + n) as char != '#');
    } else {
        lemma_decimal_no_hash(n / 10);
        assert((48 + n % 10) as char != '#');
    }
}

/// `id` is the id of some anchor evidence of element `eid`.
pub open spec fn is_evidence_id_of(eid: Seq<char>, id: Seq<char>) -> bool {
    exists|i: nat, j: nat| id == #[trigger] evidence_id(eid, i, j)
}

/// `id` is `node:{eid}#` followed by text without `#`.
pub open spec fn tagged_with(eid: Seq<char>, id: Seq<char>) -> bool {
    exists|s: Seq<char>| no_hash(s) && id == #[trigger] ("node:"@ + eid + "#"@ + s)
}

proof fn lemma_evidence_id_tagged(eid: Seq<char>, i: nat, j: nat)
    ensures
        tagged_with(eid, evidence_id(eid, i, j)),
{
    lemma_decimal_no_hash(i);
    lemma_decimal_no_hash(j);
    let s = decimal(i) + "-"@ + decimal(j);
    reveal_strlit("-");
    assert(no_hash(s));
    assert(evidence_id(eid, i, j) =~= "node:"@ + eid + "#"@ + s);
}

proof fn lemma_node_entries_ids(eid: Seq<char>, inc: Seq<EdgeView>)
    ensures
        forall|k: int| 0 <= k < node_entries(eid, inc).len() ==> is_evidence_id_of(eid, #[trigger] node_entries(eid, inc)[k].id),
    decreases inc.len(),
{
    if inc.len() > 0 {
        lemma_node_entries_ids(eid, inc.drop_last());
        let prev = node_entries(eid, inc.drop_last());
        let last = edge_entries(eid, (inc.len() - 1) as nat, inc.last());
        assert forall|k: int| 0 <= k < node_entries(eid, inc).len() implies is_evidence_id_of(eid, #[trigger] node_entries(eid, inc)[k].id) by {
            if k < prev.len() {
                assert(node_entries(eid, inc)[k] == prev[k]);
            } else {
                let j = k - prev.len();
                assert(node_entries(eid, inc)[k] == last[j]);
                assert(last[j].id == evidence_id(eid, (inc.len() - 1) as nat, j as nat));
            }
        }
    }
}

proof fn lemma_first_id_tagged(eid: Seq<char>, edges: Seq<EdgeView>)
    ensures
        node_ids(eid, edges).len() > 0,
        tagged_with(eid, node_ids(eid, edges)[0]),
{
    lemma_node_ids(eid, edges);
    let entries = node_entries(eid, incident(edges, eid));
    if entries.len() == 0 {
        reveal_strlit("#none");
        reveal_strlit("none");
        reveal_strlit("#");
        assert(no_hash("none"@));
        assert("#none"@ =~= "#"@ + "none"@);
        assert(fallback_entry(eid).id =~= "node:"@ + eid + "#"@ + "none"@);
    } else {
        lemma_node_entries_ids(eid, incident(edges, eid));
        assert(is_evidence_id_of(eid, entries[0].id));
        let (i, j) = choose|i: nat, j: nat| entries[0].id == #[trigger] evidence_id(eid, i, j);
        lemma_evidence_id_tagged(eid, i, j);
    }
}

proof fn lemma_tagged_injective(e1: Seq<char>, e2: Seq<char>, id: Seq<char>)
    requires
        tagged_with(e1, id),
        tagged_with(e2, id),
    ensures
        e1 == e2,
{
    let s1 = choose|s: Seq<char>| no_hash(s) && id == #[trigger] ("node:"@ + e1 + "#"@ + s);
    let s2 = choose|s: Seq<char>| no_hash(s) && id == #[trigger] ("node:"@ + e2 + "#"@ + s);
    reveal_strlit("node:");
    reveal_strlit("#");
    let x1 = "node:"@ + e1;
    let x2 = "node:"@ + e2;
    let a1 = x1 + "#"@;
    let a2 = x2 + "#"@;
    assert(a1.len() == x1.len() + 1);
    assert(a2.len() == x2.len() + 1);
    assert(id == a1 + s1);
    assert(id == a2 + s2);
    assert(id[x1.len() as int] == a1[x1.len() as int]);
    assert(id[x2.len() as int] == a2[x2.len() as int]);
    assert(id[x1.len() as int] == '#');
    assert(id[x2.len() as int] == '#');
    if x1.len() < x2.len() {
        let k = x2.len() - a1.len();
        assert(x2.len() < id.len());
        assert(0 <= k < s1.len());
        assert((a1 + s1)[x2.len() as int] == s1[k]);
        assert(id[x2.len() as int] == s1[k]);
        assert(s1[k] != '#');
    } else if x2.len() < x1.len() {
        let k = x1.len() - a2.len();
        assert(x1.len() < id.len());
        assert(0 <= k < s2.len());
        assert((a2 + s2)[x1.len() as int] == s2[k]);
        assert(id[x1.len() as int] == s2[k]);
        assert(s2[k] != '#');
    }
    assert(x1.len() == x2.len());
    assert forall|k: int| 0 <= k < x1.len() implies #[trigger] id[k] == x1[k] by {
        assert(id[k] == a1[k]);
        assert(a1[k] == x1[k]);
    }
    assert forall|k: int| 0 <= k < x2.len() implies #[trigger] id[k] == x2[k] by {
        assert(id[k] == a2[k]);
        assert(a2[k] == x2[k]);
    }
    assert(x1 =~= id.subrange(0, x1.len() as int));
    assert(x2 =~= id.subrange(0, x2.len() as int));
    assert(e1 =~= x1.skip(5));
    assert(e2 =~= x2.skip(5));
}

// ---------------------------------------------------------------------
// A second registration leaves the graph as it was
// ---------------------------------------------------------------------

/// `b` starts with `a`.
pub open spec fn evidence_extends(a: Seq<EvidenceV>, b: Seq<EvidenceV>) -> bool {
    a.len() <= b.len() && forall|k: int| 0 <= k < a.len() ==> #[trigger] b[k] == a[k]
}

/// The relation an evidence node's step writes, over graph `g`.
pub open spec fn node_relation(g: GraphV, doc_id: Seq<char>, edges: Seq<EdgeView>, reason: Seq<char>, node: Seq<char>) -> RelationV {
    rule_relation(g, doc_id, reason, node_ids(node.skip(5), edges))
}

/// The first relation with the id of the relation node `node` writes is
/// exactly that relation.
pub open spec fn settled(g: GraphV, doc_id: Seq<char>, edges: Seq<EdgeView>, reason: Seq<char>, node: Seq<char>) -> bool {
    starts_with(node, "node:"@) ==> {
        let r = node_relation(g, doc_id, edges, reason, node);
        &&& first_relation(g.relations, r.id) is Some
        &&& g.relations[first_relation(g.relations, r.id)->0] == r
    }
}

proof fn lemma_add_absent_extends(es: Seq<EvidenceV>, new: Seq<EvidenceV>)
    ensures
        evidence_extends(es, add_absent(es, new)),
    decreases new.len(),
{
    if new.len() > 0 {
        lemma_add_absent_extends(es, new.drop_last());
        let mid = add_absent(es, new.drop_last());
        assert forall|k: int| 0 <= k < es.len() implies #[trigger] add_absent(es, new)[k] == es[k] by {
            assert(mid[k] == es[k]);
            if !has_evidence(mid, new.last().id) {
                assert(mid.push(new.last())[k] == mid[k]);
            }
        }
    }
}

proof fn lemma_first_evidence_stable(a: Seq<EvidenceV>, b: Seq<EvidenceV>, id: Seq<char>)
    requires
        evidence_extends(a, b),
        has_evidence(a, id),
    ensures
        first_evidence(b, id) == first_evidence(a, id),
{
    lemma_first_evidence(a, id);
    lemma_first_evidence(b, id);
    let w = choose|k: int| 0 <= k < a.len() && #[trigger] a[k].id == id;
    assert(b[w] == a[w]);
    match first_evidence(a, id) {
        Some(x) => {
            let k = choose|k: int| 0 <= k < a.len() && a[k] == x && x.id == id
                && forall|j: int| 0 <= j < k ==> (#[trigger] a[j]).id != id;
            match first_evidence(b, id) {
                Some(y) => {
                    let m = choose|m: int| 0 <= m < b.len() && b[m] == y && y.id == id
                        && forall|j: int| 0 <= j < m ==> (#[trigger] b[j]).id != id;
                    assert(b[k] == a[k]);
                    if m < k {
                        assert(a[m] == b[m]);
                    }
                    assert(m == k);
                },
                None => {
                    assert(b[k] == a[k]);
                },
            }
        },
        None => {
            assert(a[w].id == id);
        },
    }
}

proof fn lemma_flat_map_agree<T, U>(s: Seq<T>, f: spec_fn(T) -> Seq<U>, g: spec_fn(T) -> Seq<U>)
    requires
        forall|i: int| 0 <= i < s.len() ==> #[trigger] f(s[i]) == g(s[i]),
    ensures
        crate::text::flat_map(s, f) == crate::text::flat_map(s, g),
    decreases s.len(),
{
    if s.len() > 0 {
        assert forall|i: int| 0 <= i < s.drop_last().len() implies #[trigger] f(s.drop_last()[i]) == g(s.drop_last()[i]) by {
            assert(s.drop_last()[i] == s[i]);
        }
        lemma_flat_map_agree(s.drop_last(), f, g);
        assert(f(s[s.len() - 1]) == g(s[s.len() - 1]));
    }
}

/// The relation a rule writes does not change as evidence is appended,
/// once every evidence id it names is present.
proof fn lemma_rule_relation_stable(g: GraphV, h: GraphV, doc_id: Seq<char>, reason: Seq<char>, ids: Seq<Seq<char>>)
    requires
        evidence_extends(g.evidence, h.evidence),
        forall|i: int| 0 <= i < ids.len() ==> has_evidence(g.evidence, #[trigger] ids[i]),
    ensures
        rule_relation(h, doc_id, reason, ids) == rule_relation(g, doc_id, reason, ids),
{
    let fg = |id: Seq<char>| opt_seq(first_evidence(g.evidence, id));
    let fh = |id: Seq<char>| opt_seq(first_evidence(h.evidence, id));
    assert forall|i: int| 0 <= i < ids.len() implies #[trigger] fh(ids[i]) == fg(ids[i]) by {
        lemma_first_evidence_stable(g.evidence, h.evidence, ids[i]);
    }
    lemma_flat_map_agree(ids, fh, fg);
}

/// Two evidence nodes whose relations share an id write from the same
/// evidence ids.
proof fn lemma_same_relation_id(g: GraphV, h: GraphV, doc_id: Seq<char>, edges: Seq<EdgeView>, reason: Seq<char>, n: Seq<char>, m: Seq<char>)
    requires
        starts_with(n, "node:"@),
        starts_with(m, "node:"@),
        node_relation(g, doc_id, edges, reason, n).id == node_relation(h, doc_id, edges, reason, m).id,
    ensures
        node_ids(n.skip(5), edges) == node_ids(m.skip(5), edges),
{
    let en = n.skip(5);
    let em = m.skip(5);
    lemma_first_id_tagged(en, edges);
    lemma_first_id_tagged(em, edges);
    let a = node_ids(en, edges)[0];
    let b = node_ids(em, edges)[0];
    let p = "rule-eval:"@ + doc_id + ":"@;
    assert(node_relation(g, doc_id, edges, reason, n).id == p + a);
    assert(node_relation(h, doc_id, edges, reason, m).id == p + b);
    assert(a =~= (p + a).skip(p.len() as int));
    assert(b =~= (p + b).skip(p.len() as int));
    lemma_tagged_injective(en, em, a);
}

proof fn lemma_first_relation_at(rs: Seq<RelationV>, id: Seq<char>, k: int)
    requires
        0 <= k < rs.len(),
        rs[k].id == id,
        forall|j: int| 0 <= j < k ==> (#[trigger] rs[j]).id != id,
    ensures
        first_relation(rs, id) == Some(k),
{
    lemma_first_relation(rs, id);
    match first_relation(rs, id) {
        Some(p) => {
            if p < k {
                assert(rs[p].id != id);
            } else if p > k {
                assert(rs[k].id != id);
            }
        },
        None => {
            assert(rs[k].id != id);
        },
    }
}

/// Upserting `r` leaves the first relation of its id being `r`, and
/// leaves the first relation of every other id where and what it was.
proof fn lemma_upsert_first(rs: Seq<RelationV>, r: RelationV, id: Seq<char>)
    ensures
        first_relation(upsert_relation(rs, r), r.id) is Some,
        upsert_relation(rs, r)[first_relation(upsert_relation(rs, r), r.id)->0] == r,
        id != r.id ==> first_relation(upsert_relation(rs, r), id) == first_relation(rs, id),
        id != r.id && first_relation(rs, id) is Some ==>
            upsert_relation(rs, r)[first_relation(rs, id)->0] == rs[first_relation(rs, id)->0],
{
    lemma_first_relation(rs, r.id);
    lemma_first_relation(rs, id);
    let us = upsert_relation(rs, r);
    match first_relation(rs, r.id) {
        Some(p) => {
            assert forall|j: int| 0 <= j < p implies (#[trigger] us[j]).id != r.id by {
                assert(us[j] == rs[j]);
            }
            lemma_first_relation_at(us, r.id, p);
            if id != r.id {
                match first_relation(rs, id) {
                    Some(q) => {
                        assert(q != p);
                        assert forall|j: int| 0 <= j < q implies (#[trigger] us[j]).id != id by {
                            if j != p {
                                assert(us[j] == rs[j]);
                            }
                        }
                        assert(us[q] == rs[q]);
                        lemma_first_relation_at(us, id, q);
                    },
                    None => {
                        lemma_first_relation(us, id);
                        if first_relation(us, id) is Some {
                            let q = first_relation(us, id)->0;
                            if q != p {
                                assert(us[q] == rs[q]);
                            }
                        }
                    },
                }
            }
        },
        None => {
            assert forall|j: int| 0 <= j < rs.len() implies (#[trigger] us[j]).id != r.id by {
                assert(us[j] == rs[j]);
            }
            lemma_first_relation_at(us, r.id, rs.len() as int);
            if id != r.id {
                match first_relation(rs, id) {
                    Some(q) => {
                        assert forall|j: int| 0 <= j < q implies (#[trigger] us[j]).id != id by {
                            assert(us[j] == rs[j]);
                        }
                        assert(us[q] == rs[q]);
                        lemma_first_relation_at(us, id, q);
                    },
                    None => {
                        lemma_first_relation(us, id);
                        if first_relation(us, id) is Some {
                            let q = first_relation(us, id)->0;
                            if q < rs.len() {
                                assert(us[q] == rs[q]);
                            }
                        }
                    },
                }
            }
        },
    }
}

proof fn lemma_rule_relation_same_evidence(g: GraphV, h: GraphV, doc_id: Seq<char>, reason: Seq<char>, ids: Seq<Seq<char>>)
    requires
        g.evidence == h.evidence,
    ensures
        rule_relation(g, doc_id, reason, ids) == rule_relation(h, doc_id, reason, ids),
{
    let fg = |id: Seq<char>| opt_seq(first_evidence(g.evidence, id));
    let fh = |id: Seq<char>| opt_seq(first_evidence(h.evidence, id));
    assert(fg == fh);
}

/// What one step of a prefixed node does, in terms of the graph after it.
proof fn lemma_step_shape(g: GraphV, doc_id: Seq<char>, edges: Seq<EdgeView>, reason: Seq<char>, m: Seq<char>)
    ensures
        ({
            let h = node_step(g, doc_id, edges, reason, m);
            &&& h.requirements == g.requirements
            &&& evidence_extends(g.evidence, h.evidence)
            &&& starts_with(m, "node:"@) ==> h.relations == upsert_relation(g.relations, node_relation(h, doc_id, edges, reason, m))
            &&& !starts_with(m, "node:"@) ==> h == g
        }),
{
    let h = node_step(g, doc_id, edges, reason, m);
    if starts_with(m, "node:"@) {
        let eid = m.skip(5);
        let entries = node_entries(eid, incident(edges, eid));
        let g1 = with_evidence(g, add_absent(g.evidence, entries));
        let g2 = if entries.len() == 0 { with_evidence(g1, add_one(g1.evidence, fallback_entry(eid))) } else { g1 };
        lemma_add_absent_extends(g.evidence, entries);
        lemma_add_absent_extends(g1.evidence, seq![fallback_entry(eid)]);
        assert(add_absent(g1.evidence, seq![fallback_entry(eid)]) == add_one(g1.evidence, fallback_entry(eid))) by {
            let one = seq![fallback_entry(eid)];
            assert(one.drop_last() =~= Seq::<EvidenceV>::empty());
            assert(add_absent(g1.evidence, Seq::<EvidenceV>::empty()) == g1.evidence);
            assert(one.last() == fallback_entry(eid));
        }
        assert(evidence_extends(g.evidence, g2.evidence));
        assert(h.evidence == g2.evidence);
        lemma_rule_relation_same_evidence(g2, h, doc_id, reason, node_ids(eid, edges));
    }
}

proof fn lemma_step_settles_self(g: GraphV, doc_id: Seq<char>, edges: Seq<EdgeView>, reason: Seq<char>, m: Seq<char>)
    ensures
        settled(node_step(g, doc_id, edges, reason, m), doc_id, edges, reason, m),
{
    if starts_with(m, "node:"@) {
        let h = node_step(g, doc_id, edges, reason, m);
        lemma_step_shape(g, doc_id, edges, reason, m);
        let r = node_relation(h, doc_id, edges, reason, m);
        lemma_upsert_first(g.relations, r, r.id);
    }
}

proof fn lemma_step_settles_other(g: GraphV, doc_id: Seq<char>, edges: Seq<EdgeView>, reason: Seq<char>, m: Seq<char>, n: Seq<char>)
    requires
        covers(g, doc_id, edges, n),
        settled(g, doc_id, edges, reason, n),
    ensures
        settled(node_step(g, doc_id, edges, reason, m), doc_id, edges, reason, n),
{
    let h = node_step(g, doc_id, edges, reason, m);
    lemma_step_shape(g, doc_id, edges, reason, m);
    if starts_with(n, "node:"@) && starts_with(m, "node:"@) {
        let ids_n = node_ids(n.skip(5), edges);
        lemma_rule_relation_stable(g, h, doc_id, reason, ids_n);
        let rn = node_relation(h, doc_id, edges, reason, n);
        let rm = node_relation(h, doc_id, edges, reason, m);
        assert(rn == node_relation(g, doc_id, edges, reason, n));
        if rn.id == rm.id {
            lemma_same_relation_id(h, h, doc_id, edges, reason, n, m);
            assert(rn == rm);
            lemma_step_settles_self(g, doc_id, edges, reason, m);
        } else {
            lemma_upsert_first(g.relations, rm, rn.id);
        }
    }
}

proof fn lemma_fold_settled(g: GraphV, doc_id: Seq<char>, edges: Seq<EdgeView>, reason: Seq<char>, nodes: Seq<Seq<char>>)
    ensures
        forall|i: int| 0 <= i < nodes.len() ==> settled(nodes_fold(g, doc_id, edges, reason, nodes), doc_id, edges, reason, #[trigger] nodes[i]),
    decreases nodes.len(),
{
    if nodes.len() > 0 {
        let init = nodes.drop_last();
        let mid = nodes_fold(g, doc_id, edges, reason, init);
        lemma_fold_settled(g, doc_id, edges, reason, init);
        lemma_fold_grows(g, doc_id, edges, reason, init);
        lemma_step_settles_self(mid, doc_id, edges, reason, nodes.last());
        assert forall|i: int| 0 <= i < nodes.len() implies settled(nodes_fold(g, doc_id, edges, reason, nodes), doc_id, edges, reason, #[trigger] nodes[i]) by {
            if i < nodes.len() - 1 {
                assert(nodes[i] == init[i]);
                lemma_step_settles_other(mid, doc_id, edges, reason, nodes.last(), init[i]);
            }
        }
    }
}

proof fn lemma_step_fixed(g: GraphV, doc_id: Seq<char>, edges: Seq<EdgeView>, reason: Seq<char>, n: Seq<char>)
    requires
        covers(g, doc_id, edges, n),
        settled(g, doc_id, edges, reason, n),
    ensures
        node_step(g, doc_id, edges, reason, n) == g,
{
    if starts_with(n, "node:"@) {
        let eid = n.skip(5);
        let entries = node_entries(eid, incident(edges, eid));
        let ids = node_ids(eid, edges);
        lemma_node_ids(eid, edges);
        if entries.len() > 0 {
            assert forall|i: int| 0 <= i < entries.len() implies has_evidence(g.evidence, #[trigger] entries[i].id) by {
                assert(ids[i] == entries[i].id);
            }
            lemma_add_absent(g.evidence, entries);
        } else {
            assert(add_absent(g.evidence, entries) == g.evidence);
            assert(ids[0] == fallback_entry(eid).id);
            lemma_add_one(g.evidence, fallback_entry(eid));
        }
        let r = rule_relation(g, doc_id, reason, ids);
        assert(r == node_relation(g, doc_id, edges, reason, n));
        let p = first_relation(g.relations, r.id)->0;
        assert(first_relation(g.relations, r.id) == Some(p));
        assert(g.relations[p] == r);
        lemma_first_relation(g.relations, r.id);
        assert(upsert_relation(g.relations, r) == g.relations.update(p, r));
        assert(g.relations.update(p, r) =~= g.relations);
    }
}

proof fn lemma_fold_fixed(g: GraphV, doc_id: Seq<char>, edges: Seq<EdgeView>, reason: Seq<char>, nodes: Seq<Seq<char>>)
    requires
        forall|i: int| 0 <= i < nodes.len() ==> covers(g, doc_id, edges, #[trigger] nodes[i]),
        forall|i: int| 0 <= i < nodes.len() ==> settled(g, doc_id, edges, reason, #[trigger] nodes[i]),
    ensures
        nodes_fold(g, doc_id, edges, reason, nodes) == g,
    decreases nodes.len(),
{
    if nodes.len() > 0 {
        let init = nodes.drop_last();
        assert forall|i: int| 0 <= i < init.len() implies covers(g, doc_id, edges, #[trigger] init[i]) && settled(g, doc_id, edges, reason, init[i]) by {
            assert(init[i] == nodes[i]);
        }
        lemma_fold_fixed(g, doc_id, edges, reason, init);
        lemma_step_fixed(g, doc_id, edges, reason, nodes[nodes.len() - 1]);
    }
}

/// Feeding the same outcome in a second time changes nothing: the graph is
/// exactly what the first registration left.
pub proof fn law_second_registration_is_idempotent(
    g: GraphV,
    doc: (Seq<char>, Seq<char>, Seq<char>),
    edges: Seq<EdgeView>,
    outcome: (Option<Option<Seq<char>>>, Seq<Seq<char>>),
)
    ensures
        register_violations_spec(register_violations_spec(g, doc, edges, outcome), doc, edges, outcome)
            == register_violations_spec(g, doc, edges, outcome),
{
    match outcome.0 {
        Some(Some(reason)) => {
            let g0 = register_rule_doc_spec(g, doc);
            let once = nodes_fold(g0, doc.0, edges, reason, outcome.1);
            assert(has_requirement(g0, doc.0)) by {
                if !has_requirement(g, doc.0) {
                    assert(g0.requirements[g.requirements.len() as int].id == doc.0);
                }
            }
            lemma_fold_grows(g0, doc.0, edges, reason, outcome.1);
            lemma_fold_settled(g0, doc.0, edges, reason, outcome.1);
            assert(once.requirements == g0.requirements);
            assert(register_rule_doc_spec(once, doc) == once);
            lemma_fold_fixed(once, doc.0, edges, reason, outcome.1);
        },
        _ => {},
    }
}

proof fn lemma_fold_relation_count(g: GraphV, doc_id: Seq<char>, edges: Seq<EdgeView>, reason: Seq<char>, nodes: Seq<Seq<char>>)
    ensures
        nodes_fold(g, doc_id, edges, reason, nodes).relations.len() <= g.relations.len() + nodes.len(),
        nodes_fold(g, doc_id, edges, reason, nodes).requirements == g.requirements,
    decreases nodes.len(),
{
    if nodes.len() > 0 {
        lemma_fold_relation_count(g, doc_id, edges, reason, nodes.drop_last());
        let mid = nodes_fold(g, doc_id, edges, reason, nodes.drop_last());
        let node = nodes.last();
        if starts_with(node, "node:"@) {
            let eid = node.skip(5);
            let entries = node_entries(eid, incident(edges, eid));
            let g1 = with_evidence(mid, add_absent(mid.evidence, entries));
            let g2 = if entries.len() == 0 { with_evidence(g1, add_one(g1.evidence, fallback_entry(eid))) } else { g1 };
            let r = rule_relation(g2, doc_id, reason, node_ids(eid, edges));
            assert(g2.relations == mid.relations);
            lemma_first_relation(g2.relations, r.id);
            assert(upsert_relation(g2.relations, r).len() <= g2.relations.len() + 1);
        }
    }
}

/// What registering a violated rule does: the rule is a requirement of the
/// graph afterwards; every evidence node `node:{id}` is covered, its
/// element's evidence present and the rule's relation to that evidence
/// present; each evidence node adds at most one relation; and nothing
/// already in the graph is dropped or reordered. A satisfied or unknown
/// outcome leaves the graph as it was.
pub proof fn law_violation_registration(
    g: GraphV,
    doc: (Seq<char>, Seq<char>, Seq<char>),
    edges: Seq<EdgeView>,
    outcome: (Option<Option<Seq<char>>>, Seq<Seq<char>>),
)
    ensures
        !(outcome.0 matches Some(Some(_))) ==> register_violations_spec(g, doc, edges, outcome) == g,
        outcome.0 matches Some(Some(_)) ==> {
            let h = register_violations_spec(g, doc, edges, outcome);
            &&& has_requirement(h, doc.0)
            &&& forall|i: int| 0 <= i < outcome.1.len() ==> covers(h, doc.0, edges, #[trigger] outcome.1[i])
            &&& h.relations.len() <= g.relations.len() + outcome.1.len()
            &&& relations_grow(g.relations, h.relations)
            &&& evidence_grows(g.evidence, h.evidence)
        },
{
    match outcome.0 {
        Some(Some(reason)) => {
            let g0 = register_rule_doc_spec(g, doc);
            assert(has_requirement(g0, doc.0)) by {
                if !has_requirement(g, doc.0) {
                    assert(g0.requirements[g.requirements.len() as int].id == doc.0);
                }
            }
            lemma_fold_grows(g0, doc.0, edges, reason, outcome.1);
            lemma_fold_relation_count(g0, doc.0, edges, reason, outcome.1);
            let h = nodes_fold(g0, doc.0, edges, reason, outcome.1);
            let k = choose|k: int| 0 <= k < g0.requirements.len() && #[trigger] g0.requirements[k].id == doc.0;
            assert(h.requirements[k].id == doc.0);
        },
        _ => {},
    }
}

proof fn lemma_infix_injective(p: Seq<char>, x: Seq<char>, y: Seq<char>, q: Seq<char>)
    requires
        p + x + q == p + y + q,
    ensures
        x == y,
{
    let a = p + x + q;
    let b = p + y + q;
    assert(a.len() == p.len() + x.len() + q.len());
    assert(b.len() == p.len() + y.len() + q.len());
    assert(x.len() == y.len());
    assert forall|k: int| 0 <= k < x.len() implies x[k] == y[k] by {
        assert(a[p.len() + k] == x[k]);
        assert(b[p.len() + k] == y[k]);
    }
    assert(x =~= y);
}

/// A Kubernetes object's evidence URI tells objects apart: two anchors
/// that differ in only one of api version, kind, namespace (an absent one
/// read as empty) or name get different source URIs, so same-named objects
/// of different namespaces (or kinds, or versions) never collapse into one
/// piece of evidence.
pub proof fn law_k8s_evidence_uri_distinguishes_objects(a: AnchorView, b: AnchorView)
    requires
        a matches AnchorView::K8sObject { api_version: av1, kind: k1, namespace: ns1, name: n1, .. },
        b matches AnchorView::K8sObject { api_version: av2, kind: k2, namespace: ns2, name: n2, .. },
        ({
            let (av1, k1, ns1, n1) = match a { AnchorView::K8sObject { api_version, kind, namespace, name, .. } => (api_version, kind, opt_or(namespace, Seq::empty()), name), _ => arbitrary() };
            let (av2, k2, ns2, n2) = match b { AnchorView::K8sObject { api_version, kind, namespace, name, .. } => (api_version, kind, opt_or(namespace, Seq::empty()), name), _ => arbitrary() };
            ||| (av1 != av2 && k1 == k2 && ns1 == ns2 && n1 == n2)
            ||| (av1 == av2 && k1 != k2 && ns1 == ns2 && n1 == n2)
            ||| (av1 == av2 && k1 == k2 && ns1 != ns2 && n1 == n2)
            ||| (av1 == av2 && k1 == k2 && ns1 == ns2 && n1 != n2)
        }),
    ensures
        anchor_provenance(a).source_uri != anchor_provenance(b).source_uri,
{
    match (a, b) {
        (AnchorView::K8sObject { api_version: av1, kind: k1, namespace: o1, name: n1, .. },
         AnchorView::K8sObject { api_version: av2, kind: k2, namespace: o2, name: n2, .. }) => {
            let ns1 = opt_or(o1, Seq::empty());
            let ns2 = opt_or(o2, Seq::empty());
            let u1 = anchor_provenance(a).source_uri;
            let u2 = anchor_provenance(b).source_uri;
            if u1 == u2 {
                let s = "/"@;
                if av1 != av2 {
                    assert(u1 == "k8s:"@ + av1 + (s + k1 + s + ns1 + s + n1));
                    assert(u2 == "k8s:"@ + av2 + (s + k1 + s + ns1 + s + n1));
                    lemma_infix_injective("k8s:"@, av1, av2, s + k1 + s + ns1 + s + n1);
                } else if k1 != k2 {
                    assert(u1 == ("k8s:"@ + av1 + s) + k1 + (s + ns1 + s + n1));
                    assert(u2 == ("k8s:"@ + av1 + s) + k2 + (s + ns1 + s + n1));
                    lemma_infix_injective("k8s:"@ + av1 + s, k1, k2, s + ns1 + s + n1);
                } else if ns1 != ns2 {
                    assert(u1 == ("k8s:"@ + av1 + s + k1 + s) + ns1 + (s + n1));
                    assert(u2 == ("k8s:"@ + av1 + s + k1 + s) + ns2 + (s + n1));
                    lemma_infix_injective("k8s:"@ + av1 + s + k1 + s, ns1, ns2, s + n1);
                } else {
                    assert(u1 == ("k8s:"@ + av1 + s + k1 + s + ns1 + s) + n1 + Seq::<char>::empty());
                    assert(u2 == ("k8s:"@ + av1 + s + k1 + s + ns1 + s) + n2 + Seq::<char>::empty());
                    lemma_infix_injective("k8s:"@ + av1 + s + k1 + s + ns1 + s, n1, n2, Seq::empty());
                }
            }
        },
        _ => {},
    }
}

pub open spec fn no_slash(s: Seq<char>) -> bool {
    forall|i: int| 0 <= i < s.len() ==> s[i] != '/'
}

proof fn lemma_split_plain(x: Seq<char>)
    requires
        no_slash(x),
    ensures
        split_on(x, '/') == seq![x],
    decreases x.len(),
{
    if x.len() > 0 {
        lemma_split_plain(x.drop_last());
        assert(x.drop_last().push(x.last()) =~= x);
        assert(x.last() != '/');
        assert(seq![x.drop_last()].update(0, x.drop_last().push(x.last())) =~= seq![x]);
    } else {
        assert(x =~= Seq::<char>::empty());
    }
}

proof fn lemma_split_join(a: Seq<char>, b: Seq<char>)
    ensures
        split_on(a + seq!['/'] + b, '/') == split_on(a, '/') + split_on(b, '/'),
    decreases b.len(),
{
    let s = a + seq!['/'] + b;
    if b.len() == 0 {
        assert(s.drop_last() =~= a);
        assert(split_on(a, '/').push(Seq::empty()) =~= split_on(a, '/') + seq![Seq::<char>::empty()]);
    } else {
        let b1 = b.drop_last();
        lemma_split_join(a, b1);
        lemma_split_on_nonempty(b1, '/');
        lemma_split_on_nonempty(a, '/');
        assert(s.drop_last() =~= a + seq!['/'] + b1);
        assert(s.last() == b.last());
        let pa = split_on(a, '/');
        let pb = split_on(b1, '/');
        if b.last() == '/' {
            assert((pa + pb).push(Seq::empty()) =~= pa + pb.push(Seq::empty()));
        } else {
            let prev = pa + pb;
            assert(prev.update(prev.len() - 1, prev.last().push(b.last()))
                =~= pa + pb.update(pb.len() - 1, pb.last().push(b.last())));
        }
    }
}

/// A Kubernetes object's evidence URI reads back into the object's
/// identity: split on `/`, it is `k8s:{api version}`, the kind, the
/// namespace (empty when absent), then the name's own segments, whenever
/// the api version, kind and namespace hold no `/` themselves.
pub proof fn law_k8s_evidence_uri_reads_back(
    api_version: Seq<char>,
    kind: Seq<char>,
    namespace: Option<Seq<char>>,
    name: Seq<char>,
    uid: Option<Seq<char>>,
)
    requires
        no_slash(api_version),
        no_slash(kind),
        no_slash(opt_or(namespace, Seq::empty())),
    ensures
        split_on(anchor_provenance(AnchorView::K8sObject { api_version, kind, namespace, name, uid }).source_uri, '/')
            == seq!["k8s:"@ + api_version, kind, opt_or(namespace, Seq::empty())] + split_on(name, '/'),
{
    reveal_strlit("k8s:");
    reveal_strlit("/");
    let ns = opt_or(namespace, Seq::empty());
    let head = "k8s:"@ + api_version;
    assert(no_slash(head)) by {
        assert forall|i: int| 0 <= i < head.len() implies head[i] != '/' by {
            if i >= 4 {
                assert(head[i] == api_version[i - 4]);
            }
        }
    }
    let uri = anchor_provenance(AnchorView::K8sObject { api_version, kind, namespace, name, uid }).source_uri;
    let sl = seq!['/'];
    assert("/"@ =~= sl);
    assert(uri =~= head + sl + (kind + sl + (ns + sl + name)));
    lemma_split_join(head, kind + sl + (ns + sl + name));
    lemma_split_join(kind, ns + sl + name);
    lemma_split_join(ns, name);
    lemma_split_plain(head);
    lemma_split_plain(kind);
    lemma_split_plain(ns);
    assert(seq![head] + (seq![kind] + (seq![ns] + split_on(name, '/')))
        =~= seq![head, kind, ns] + split_on(name, '/'));
}

} // verus!
