//! b00t knowledge graph: Turtle triples -> type graph -> D2 text.
//!
//! Classification rules (over each parsed triple `(subject, predicate, object)`):
//! - every subject becomes a node; a node's `kind` is the first `/`-segment of
//!   its IRI's local name and its default `label` the last segment;
//! - `rdfs:label` with a literal object overrides the subject's label;
//! - a `b00t:`-namespace predicate whose object is an IRI becomes a
//!   relationship when its local name has an edge mapping
//!   ([`relation_kind_for_predicate`]); the target becomes a node too;
//! - literal- and blank-node-valued objects never become edges.
//!
//! The D2 emitter quotes every id and label, so caller-supplied text can
//! never alter diagram structure.
use vstd::prelude::*;

use crate::requirements_render::{assigns, lemma_lex_irreflexive, lemma_sorted_same_keys, lemma_lex_total, lemma_lex_transitive, lex_less, lex_lt, table_view};
use crate::text::{
    chars_eq, chars_to_string, concat_map, d2_escape_char, flat_map, lemma_concat_map_step,
    lemma_flat_map_step, push_str, find_first, find_last, first_index_of,
    flatten_newline_char, last_index_of, lemma_first_index_of, lemma_last_index_of, map_chars,
    push_char, push_d2_escaped, push_d2_label_escaped, str_chars, str_eq,
};

verus! {

/// b00t's ontology namespace.
pub const B00T_NS: &'static str = "http://b00t.promptexecution.com/ontology#";

/// The standard RDFS namespace.
pub const RDFS_NS: &'static str = "http://www.w3.org/2000/01/rdf-schema#";

// ---------------------------------------------------------------------
// Terms, triples and the type graph
// ---------------------------------------------------------------------

/// An RDF term as parsed: an IRI, a blank node (by its id) or a literal
/// (by its lexical value).
#[derive(Debug, Clone, PartialEq, Eq)]
pub enum RdfTerm {
    NamedNode(String),
    BlankNode(String),
    Literal(String),
}

/// The mathematical content of an [`RdfTerm`].
pub enum TermView {
    NamedNode(Seq<char>),
    BlankNode(Seq<char>),
    Literal(Seq<char>),
}

impl RdfTerm {
    pub open spec fn view(&self) -> TermView {
        match self {
            RdfTerm::NamedNode(s) => TermView::NamedNode(s@),
            RdfTerm::BlankNode(s) => TermView::BlankNode(s@),
            RdfTerm::Literal(s) => TermView::Literal(s@),
        }
    }
}

/// A parsed triple: subject id (an IRI, or `_:` and a blank-node id),
/// predicate IRI, object term.
pub type TripleView = (Seq<char>, Seq<char>, TermView);

pub open spec fn triples_view(ts: Seq<(String, String, RdfTerm)>) -> Seq<TripleView> {
    ts.map_values(|t: (String, String, RdfTerm)| (t.0@, t.1@, t.2.view()))
}

/// The kind of a relationship between two nodes of the type graph.
#[derive(Debug, Clone, Copy, PartialEq, Eq, Structural)]
pub enum TypeRelationshipKind {
    References,
    Contains,
    ClassifiedAs,
    BelongsTo,
    Attests,
}

/// A node of the type graph.
#[derive(Debug, Clone, PartialEq, Eq)]
pub struct TypeNode {
    pub id: String,
    pub label: String,
    pub kind: String,
}

/// A directed, typed relationship between two node ids.
#[derive(Debug, Clone, PartialEq, Eq)]
pub struct TypeRelationship {
    pub source: String,
    pub target: String,
    pub kind: TypeRelationshipKind,
}

/// Nodes and relationships of a type graph.
#[derive(Debug, Clone, Default, PartialEq, Eq)]
pub struct TypeRelationshipGraph {
    pub nodes: Vec<TypeNode>,
    pub relationships: Vec<TypeRelationship>,
}

/// `(id, label, kind)` of a node.
pub type NodeView = (Seq<char>, Seq<char>, Seq<char>);

/// `(source, target, kind)` of a relationship.
pub type RelView = (Seq<char>, Seq<char>, TypeRelationshipKind);

pub open spec fn nodes_view(ns: Seq<TypeNode>) -> Seq<NodeView> {
    ns.map_values(|n: TypeNode| (n.id@, n.label@, n.kind@))
}

pub open spec fn rels_view(rs: Seq<TypeRelationship>) -> Seq<RelView> {
    rs.map_values(|r: TypeRelationship| (r.source@, r.target@, r.kind))
}

// ---------------------------------------------------------------------
// IRIs and local names
// ---------------------------------------------------------------------

/// Where an IRI splits into namespace and local name: just after its last
/// `#`, failing that just after its last `/`, failing that at the start.
pub open spec fn split_index(iri: Seq<char>) -> int {
    match last_index_of(iri, '#') {
        Some(i) => i + 1,
        None => match last_index_of(iri, '/') {
            Some(i) => i + 1,
            None => 0,
        },
    }
}

/// The namespace part of an IRI (ends in `#` or `/`, or is empty).
pub open spec fn iri_namespace(iri: Seq<char>) -> Seq<char> {
    iri.take(split_index(iri))
}

/// The local-name part of an IRI.
pub open spec fn iri_local(iri: Seq<char>) -> Seq<char> {
    iri.skip(split_index(iri))
}

/// A subject's kind: the first `/`-segment of its local name.
pub open spec fn subject_kind_spec(local: Seq<char>) -> Seq<char> {
    match first_index_of(local, '/') {
        Some(i) => local.take(i),
        None => local,
    }
}

/// A subject's readable label: the last `/`-segment of its local name.
pub open spec fn subject_label_spec(local: Seq<char>) -> Seq<char> {
    match last_index_of(local, '/') {
        Some(i) => local.skip(i + 1),
        None => local,
    }
}

/// The label a node gets when no `rdfs:label` names it.
pub open spec fn derived_label(id: Seq<char>) -> Seq<char> {
    subject_label_spec(iri_local(id))
}

/// The kind of a node.
pub open spec fn derived_kind(id: Seq<char>) -> Seq<char> {
    subject_kind_spec(iri_local(id))
}

/// The relationship kind a `b00t:` predicate's local name maps to when its
/// object is an IRI.
pub open spec fn predicate_kind(local: Seq<char>) -> Option<TypeRelationshipKind> {
    if local == "dependsOn"@ || local == "requires"@ {
        Some(TypeRelationshipKind::References)
    } else if local == "hasPart"@ {
        Some(TypeRelationshipKind::Contains)
    } else if local == "hasType"@ {
        Some(TypeRelationshipKind::ClassifiedAs)
    } else if local == "hasR0le"@ {
        Some(TypeRelationshipKind::BelongsTo)
    } else if local == "allowsTool"@ || local == "grantsShard"@ {
        Some(TypeRelationshipKind::Attests)
    } else {
        None
    }
}

/// Position where `iri` splits into namespace and local name.
fn split_point(iri: &[char]) -> (r: usize)
    ensures
        r as int == split_index(iri@),
        r <= iri@.len(),
{
    proof {
        lemma_last_index_of(iri@, '#');
        lemma_last_index_of(iri@, '/');
    }
    let n = iri.len();
    match find_last(iri, '#') {
        Some(i) => {
            assert(i < n);
            i + 1
        },
        None => match find_last(iri, '/') {
            Some(i) => {
                assert(i < n);
                i + 1
            },
            None => 0,
        },
    }
}

/// The kind of the node with id `id`.
fn node_kind(id: &[char]) -> (r: String)
    ensures
        r@ == derived_kind(id@),
{
    let p = split_point(id);
    let local = chars_to_string(id, p, id.len());
    let lv = str_chars(local.as_str());
    assert(lv@ =~= iri_local(id@));
    proof { lemma_first_index_of(lv@, '/'); }
    match find_first(lv.as_slice(), '/') {
        Some(i) => chars_to_string(lv.as_slice(), 0, i),
        None => local,
    }
}

/// The derived label of the node with id `id`.
fn node_derived_label(id: &[char]) -> (r: Vec<char>)
    ensures
        r@ == derived_label(id@),
{
    let p = split_point(id);
    let local = chars_to_string(id, p, id.len());
    let lv = str_chars(local.as_str());
    assert(lv@ =~= iri_local(id@));
    proof { lemma_last_index_of(lv@, '/'); }
    match find_last(lv.as_slice(), '/') {
        Some(i) => {
            let s = chars_to_string(lv.as_slice(), i + 1, lv.len());
            let r = str_chars(s.as_str());
            assert(r@ =~= lv@.skip(i + 1));
            r
        },
        None => lv,
    }
}

/// The relationship kind of a `b00t:` predicate local name, if it has one.
fn relation_kind_for_predicate(local: &str) -> (r: Option<TypeRelationshipKind>)
    ensures
        r == predicate_kind(local@),
{
    if str_eq(local, "dependsOn") || str_eq(local, "requires") {
        Some(TypeRelationshipKind::References)
    } else if str_eq(local, "hasPart") {
        Some(TypeRelationshipKind::Contains)
    } else if str_eq(local, "hasType") {
        Some(TypeRelationshipKind::ClassifiedAs)
    } else if str_eq(local, "hasR0le") {
        Some(TypeRelationshipKind::BelongsTo)
    } else if str_eq(local, "allowsTool") || str_eq(local, "grantsShard") {
        Some(TypeRelationshipKind::Attests)
    } else {
        None
    }
}

// ---------------------------------------------------------------------
// The node table: (id, label) pairs kept in strictly increasing id order
// ---------------------------------------------------------------------

pub open spec fn ids_sorted(t: Seq<(Seq<char>, Seq<char>)>) -> bool {
    forall|i: int, j: int| 0 <= i < j < t.len() ==> lex_lt(#[trigger] t[i].0, #[trigger] t[j].0)
}

/// Where `id` is, or would go, in the sorted table.
fn find_slot(table: &Vec<(Vec<char>, Vec<char>)>, id: &[char]) -> (r: (usize, bool))
    requires
        ids_sorted(table_view(table@)),
    ensures
        r.0 <= table@.len(),
        forall|k: int| 0 <= k < r.0 ==> lex_lt(#[trigger] table_view(table@)[k].0, id@),
        r.1 ==> r.0 < table@.len() && table_view(table@)[r.0 as int].0 == id@,
        !r.1 ==> !assigns(table_view(table@), id@),
        !r.1 && r.0 < table@.len() ==> lex_lt(id@, table_view(table@)[r.0 as int].0),
{
    let ghost t = table_view(table@);
    let mut p: usize = 0;
    while p < table.len() && lex_less(table[p].0.as_slice(), id)
        invariant
            p <= table@.len(),
            t == table_view(table@),
            forall|k: int| 0 <= k < p ==> lex_lt(#[trigger] t[k].0, id@),
        decreases table@.len() - p,
    {
        p = p + 1;
    }
    if p < table.len() && chars_eq(table[p].0.as_slice(), id) {
        (p, true)
    } else {
        proof {
            if p < t.len() {
                lemma_lex_total(t[p as int].0, id@);
            }
            if assigns(t, id@) {
                let k = choose|k: int| 0 <= k < t.len() && t[k].0 == id@;
                if k < p {
                    lemma_lex_irreflexive(id@);
                } else if k > p {
                    lemma_lex_transitive(id@, t[p as int].0, t[k].0);
                    lemma_lex_irreflexive(id@);
                }
            }
        }
        (p, false)
    }
}

/// Adds a node `(id, label)` unless `id` is already in the table.
pub(crate) fn ensure_node(table: &mut Vec<(Vec<char>, Vec<char>)>, id: Vec<char>, label: Vec<char>)
    requires
        ids_sorted(table_view(old(table)@)),
    ensures
        ids_sorted(table_view(final(table)@)),
        forall|x: Seq<char>| #[trigger] assigns(table_view(final(table)@), x) <==> (assigns(table_view(old(table)@), x) || x == id@),
        forall|k: int, j: int| 0 <= k < final(table)@.len() && 0 <= j < old(table)@.len()
            && #[trigger] table_view(final(table)@)[k].0 == #[trigger] table_view(old(table)@)[j].0
            ==> table_view(final(table)@)[k].1 == table_view(old(table)@)[j].1,
        forall|k: int| 0 <= k < final(table)@.len() && #[trigger] table_view(final(table)@)[k].0 == id@
            && !assigns(table_view(old(table)@), id@) ==> table_view(final(table)@)[k].1 == label@,
{
    let ghost old_t = table_view(table@);
    let (p, found) = find_slot(table, id.as_slice());
    if found {
        proof {
            assert forall|k: int, j: int| 0 <= k < old_t.len() && 0 <= j < old_t.len()
                && #[trigger] old_t[k].0 == #[trigger] old_t[j].0 implies old_t[k].1 == old_t[j].1 by {
                if k < j {
                    lemma_lex_irreflexive(old_t[k].0);
                } else if j < k {
                    lemma_lex_irreflexive(old_t[k].0);
                }
            }
        }
        return;
    }
    let ghost idv = id@;
    let ghost lv = label@;
    table.insert(p, (id, label));
    proof {
        let t = table_view(table@);
        assert(t =~= old_t.insert(p as int, (idv, lv)));
        assert forall|i: int, j: int| 0 <= i < j < t.len() implies lex_lt(#[trigger] t[i].0, #[trigger] t[j].0) by {
            if j < p {
            } else if i < p && j == p {
            } else if i < p && j > p {
                assert(t[j] == old_t[j - 1]);
                if j - 1 > p {
                    lemma_lex_transitive(idv, old_t[p as int].0, old_t[j - 1].0);
                }
                assert(t[i] == old_t[i]);
                lemma_lex_transitive(t[i].0, idv, t[j].0);
            } else if i == p {
                assert(t[j] == old_t[j - 1]);
                if j - 1 > p {
                    lemma_lex_transitive(idv, old_t[p as int].0, old_t[j - 1].0);
                }
            } else {
                assert(t[i] == old_t[i - 1]);
                assert(t[j] == old_t[j - 1]);
            }
        }
        assert forall|x: Seq<char>| #[trigger] assigns(t, x) <==> (assigns(old_t, x) || x == idv) by {
            if assigns(t, x) {
                let k = choose|k: int| 0 <= k < t.len() && t[k].0 == x;
                if k < p {
                    assert(old_t[k].0 == x);
                } else if k > p {
                    assert(old_t[k - 1].0 == x);
                }
            }
            if assigns(old_t, x) {
                let k = choose|k: int| 0 <= k < old_t.len() && old_t[k].0 == x;
                if k < p {
                    assert(t[k].0 == x);
                } else {
                    assert(t[k + 1].0 == x);
                }
            }
            if x == idv {
                assert(t[p as int].0 == x);
            }
        }
        assert forall|k: int, j: int| 0 <= k < t.len() && 0 <= j < old_t.len()
            && #[trigger] t[k].0 == #[trigger] old_t[j].0 implies t[k].1 == old_t[j].1 by {
            if k == p {
                assert(assigns(old_t, idv));
            } else {
                let k0 = if k < p { k } else { k - 1 };
                assert(t[k] == old_t[k0]);
                if k0 < j {
                    lemma_lex_irreflexive(old_t[k0].0);
                } else if j < k0 {
                    lemma_lex_irreflexive(old_t[k0].0);
                }
            }
        }
        assert forall|k: int| 0 <= k < t.len() && #[trigger] t[k].0 == idv && !assigns(old_t, idv)
            implies t[k].1 == lv by {
            if k != p {
                let k0 = if k < p { k } else { k - 1 };
                assert(t[k] == old_t[k0]);
            }
        }
    }
}

/// Overwrites the label of the node `id`, which must be in the table.
fn set_label(table: &mut Vec<(Vec<char>, Vec<char>)>, id: &[char], label: Vec<char>)
    requires
        ids_sorted(table_view(old(table)@)),
        assigns(table_view(old(table)@), id@),
    ensures
        final(table)@.len() == old(table)@.len(),
        forall|k: int| 0 <= k < final(table)@.len() ==> (#[trigger] table_view(final(table)@)[k]).0 == table_view(old(table)@)[k].0
            && table_view(final(table)@)[k].1 == (if table_view(old(table)@)[k].0 == id@ { label@ } else { table_view(old(table)@)[k].1 }),
{
    let ghost old_t = table_view(table@);
    let (p, found) = find_slot(table, id);
    assert(found);
    let ghost lv = label@;
    let entry_id = str_chars(chars_to_string(id, 0, id.len()).as_str());
    assert(entry_id@ =~= id@);
    table.set(p, (entry_id, label));
    proof {
        let t = table_view(table@);
        assert(t =~= old_t.update(p as int, (id@, lv)));
        assert forall|k: int| 0 <= k < t.len() implies (#[trigger] t[k]).0 == old_t[k].0
            && t[k].1 == (if old_t[k].0 == id@ { lv } else { old_t[k].1 }) by {
            if k != p && old_t[k].0 == id@ {
                if k < p {
                    lemma_lex_irreflexive(id@);
                } else {
                    lemma_lex_irreflexive(old_t[p as int].0);
                }
            }
        }
    }
}

// ---------------------------------------------------------------------
// Classification of triples
// ---------------------------------------------------------------------

/// `rdfs:label`.
pub open spec fn is_label_predicate(p: Seq<char>) -> bool {
    iri_namespace(p) == RDFS_NS@ && iri_local(p) == "label"@
}

/// The label a triple gives its subject: an `rdfs:label` literal.
pub open spec fn triple_label(t: TripleView) -> Option<Seq<char>> {
    if is_label_predicate(t.1) {
        match t.2 {
            TermView::Literal(l) => Some(l),
            _ => None,
        }
    } else {
        None
    }
}

/// The relationship a triple states: a `b00t:` predicate with an edge
/// mapping and an IRI object.
pub open spec fn triple_edge(t: TripleView) -> Option<RelView> {
    if is_label_predicate(t.1) || iri_namespace(t.1) != B00T_NS@ {
        None
    } else {
        match t.2 {
            TermView::NamedNode(target) => match predicate_kind(iri_local(t.1)) {
                Some(k) => Some((t.0, target, k)),
                None => None,
            },
            _ => None,
        }
    }
}

pub open spec fn edge_seq(t: TripleView) -> Seq<RelView> {
    match triple_edge(t) {
        Some(e) => seq![e],
        None => Seq::empty(),
    }
}

/// Every relationship stated by `ts`, in triple order.
pub open spec fn edges_of(ts: Seq<TripleView>) -> Seq<RelView> {
    flat_map(ts, |t: TripleView| edge_seq(t))
}

/// Whether a triple makes `id` a node: as its subject, or as the target of
/// the relationship it states.
pub open spec fn triple_mentions(t: TripleView, id: Seq<char>) -> bool {
    t.0 == id || (triple_edge(t) matches Some(e) && e.1 == id)
}

pub open spec fn mentioned(ts: Seq<TripleView>, id: Seq<char>) -> bool {
    exists|i: int| 0 <= i < ts.len() && #[trigger] triple_mentions(ts[i], id)
}

/// The last `rdfs:label` literal given to `id`, if any.
pub open spec fn explicit_label(ts: Seq<TripleView>, id: Seq<char>) -> Option<Seq<char>>
    decreases ts.len(),
{
    if ts.len() == 0 {
        None
    } else if ts.last().0 == id && triple_label(ts.last()) is Some {
        triple_label(ts.last())
    } else {
        explicit_label(ts.drop_last(), id)
    }
}

/// The label of node `id`: its last `rdfs:label`, else the last segment of
/// its local name.
pub open spec fn node_label(ts: Seq<TripleView>, id: Seq<char>) -> Seq<char> {
    match explicit_label(ts, id) {
        Some(l) => l,
        None => derived_label(id),
    }
}

/// `nodes` is the node list of the type graph of `ts`: one node per
/// mentioned id, in strictly increasing id order, each with its label and
/// kind.
pub open spec fn is_node_list(ts: Seq<TripleView>, nodes: Seq<NodeView>) -> bool {
    &&& forall|i: int, j: int| 0 <= i < j < nodes.len() ==> lex_lt(#[trigger] nodes[i].0, #[trigger] nodes[j].0)
    &&& forall|id: Seq<char>| mentioned(ts, id) <==> exists|k: int| 0 <= k < nodes.len() && #[trigger] nodes[k].0 == id
    &&& forall|k: int| 0 <= k < nodes.len() ==> (#[trigger] nodes[k]).1 == node_label(ts, nodes[k].0)
        && nodes[k].2 == derived_kind(nodes[k].0)
}

proof fn lemma_mentioned_push(ts: Seq<TripleView>, t: TripleView, id: Seq<char>)
    ensures
        mentioned(ts.push(t), id) <==> (mentioned(ts, id) || triple_mentions(t, id)),
{
    let ts2 = ts.push(t);
    if mentioned(ts, id) {
        let i = choose|i: int| 0 <= i < ts.len() && #[trigger] triple_mentions(ts[i], id);
        assert(ts2[i] == ts[i]);
    }
    if triple_mentions(t, id) {
        assert(ts2[ts.len() as int] == t);
    }
    if mentioned(ts2, id) {
        let i = choose|i: int| 0 <= i < ts2.len() && #[trigger] triple_mentions(ts2[i], id);
        if i < ts.len() {
            assert(ts2[i] == ts[i]);
        }
    }
}

proof fn lemma_explicit_label_mentioned(ts: Seq<TripleView>, id: Seq<char>)
    ensures
        explicit_label(ts, id) is Some ==> mentioned(ts, id),
    decreases ts.len(),
{
    if ts.len() > 0 {
        lemma_explicit_label_mentioned(ts.drop_last(), id);
        assert(ts.drop_last().push(ts.last()) =~= ts);
        lemma_mentioned_push(ts.drop_last(), ts.last(), id);
    }
}

/// The table holds exactly the nodes of `ts`, with their labels.
pub open spec fn table_describes(t: Seq<(Seq<char>, Seq<char>)>, ts: Seq<TripleView>) -> bool {
    &&& ids_sorted(t)
    &&& forall|x: Seq<char>| #[trigger] assigns(t, x) <==> mentioned(ts, x)
    &&& forall|k: int| 0 <= k < t.len() ==> (#[trigger] t[k]).1 == node_label(ts, t[k].0)
}

/// Classifies one triple into the node table and relationship list.
fn process_triple(
    table: &mut Vec<(Vec<char>, Vec<char>)>,
    rels: &mut Vec<TypeRelationship>,
    s: &String,
    p: &String,
    o: &RdfTerm,
    Ghost(ts): Ghost<Seq<TripleView>>,
)
    requires
        table_describes(table_view(old(table)@), ts),
    ensures
        table_describes(table_view(final(table)@), ts.push((s@, p@, o.view()))),
        rels_view(final(rels)@) == rels_view(old(rels)@) + edge_seq((s@, p@, o.view())),
{
    let ghost tv: TripleView = (s@, p@, o.view());
    let ghost ts2 = ts.push(tv);
    let ghost t0 = table_view(table@);
    proof {
        assert forall|x: Seq<char>| mentioned(ts2, x) <==> (mentioned(ts, x) || triple_mentions(tv, x)) by {
            lemma_mentioned_push(ts, tv, x);
        }
        assert(ts2.drop_last() =~= ts);
        assert(ts2.last() == tv);
        lemma_explicit_label_mentioned(ts, s@);
    }
    let sv = str_chars(s.as_str());
    let sl = node_derived_label(sv.as_slice());
    ensure_node(table, sv, sl);
    let ghost t1 = table_view(table@);
    assert forall|k: int| 0 <= k < t1.len() implies (#[trigger] t1[k]).1 == node_label(ts, t1[k].0) by {
        let id = t1[k].0;
        assert(assigns(t1, id));
        if assigns(t0, id) {
            let j = choose|j: int| 0 <= j < t0.len() && t0[j].0 == id;
            assert(t1[k].1 == t0[j].1);
        } else {
            lemma_explicit_label_mentioned(ts, id);
        }
    }
    let pv = str_chars(p.as_str());
    let k = split_point(pv.as_slice());
    let ns = chars_to_string(pv.as_slice(), 0, k);
    let local = chars_to_string(pv.as_slice(), k, pv.len());
    assert(ns@ =~= iri_namespace(p@));
    assert(local@ =~= iri_local(p@));
    let is_label = str_eq(ns.as_str(), RDFS_NS) && str_eq(local.as_str(), "label");
    let in_b00t = str_eq(ns.as_str(), B00T_NS);
    assert(is_label == is_label_predicate(p@));
    if is_label {
        assert(triple_edge(tv) is None);
        assert forall|x: Seq<char>| mentioned(ts2, x) <==> (mentioned(ts, x) || x == s@) by {}
        match o {
            RdfTerm::Literal(l) => {
                let sv2 = str_chars(s.as_str());
                let lv = str_chars(l.as_str());
                assert(assigns(t1, s@));
                set_label(table, sv2.as_slice(), lv);
                proof {
                    let t = table_view(table@);
                    assert forall|x: Seq<char>| #[trigger] assigns(t, x) <==> assigns(t1, x) by {
                        if assigns(t, x) {
                            let j = choose|j: int| 0 <= j < t.len() && t[j].0 == x;
                            assert(t1[j].0 == x);
                        }
                        if assigns(t1, x) {
                            let j = choose|j: int| 0 <= j < t1.len() && t1[j].0 == x;
                            assert(t[j].0 == x);
                        }
                    }
                    assert forall|i: int, j: int| 0 <= i < j < t.len() implies lex_lt(#[trigger] t[i].0, #[trigger] t[j].0) by {
                        assert(t[i].0 == t1[i].0);
                        assert(t[j].0 == t1[j].0);
                    }
                    assert forall|k: int| 0 <= k < t.len() implies (#[trigger] t[k]).1 == node_label(ts2, t[k].0) by {
                        assert(t[k].0 == t1[k].0);
                    }
                }
            },
            _ => {
                assert forall|x: Seq<char>| explicit_label(ts2, x) == explicit_label(ts, x) by {}
            },
        }
        assert(rels_view(rels@) =~= rels_view(old(rels)@) + edge_seq(tv));
    } else {
        assert(triple_label(tv) is None);
        assert forall|x: Seq<char>| explicit_label(ts2, x) == explicit_label(ts, x) by {}
        let mut edge_made = false;
        if in_b00t {
            match o {
                RdfTerm::NamedNode(target) => {
                    match relation_kind_for_predicate(local.as_str()) {
                        Some(kind) => {
                            let tgt = str_chars(target.as_str());
                            let tl = node_derived_label(tgt.as_slice());
                            ensure_node(table, tgt, tl);
                            rels.push(TypeRelationship { source: s.clone(), target: target.clone(), kind });
                            assert(triple_edge(tv) == Some((s@, target@, kind)));
                            assert(rels_view(rels@) =~= rels_view(old(rels)@) + edge_seq(tv));
                            edge_made = true;
                            proof {
                                let t = table_view(table@);
                                assert forall|x: Seq<char>| mentioned(ts2, x) <==> (mentioned(ts, x) || x == s@ || x == target@) by {}
                                assert forall|k: int| 0 <= k < t.len() implies (#[trigger] t[k]).1 == node_label(ts2, t[k].0) by {
                                    let id = t[k].0;
                                    assert(assigns(t, id));
                                    assert(explicit_label(ts2, id) == explicit_label(ts, id));
                                    if assigns(t1, id) {
                                        let j = choose|j: int| 0 <= j < t1.len() && t1[j].0 == id;
                                        assert(t[k].1 == t1[j].1);
                                        assert(t1[j].1 == node_label(ts, t1[j].0));
                                    } else {
                                        assert(id == target@);
                                        assert(!mentioned(ts, id));
                                        lemma_explicit_label_mentioned(ts, id);
                                        assert(t[k].1 == derived_label(id));
                                    }
                                }
                            }
                        },
                        None => {},
                    }
                },
                _ => {},
            }
        }
        if !edge_made {
            assert(triple_edge(tv) is None);
            assert(rels_view(rels@) =~= rels_view(old(rels)@) + edge_seq(tv));
            assert forall|x: Seq<char>| mentioned(ts2, x) <==> (mentioned(ts, x) || x == s@) by {}
        }
    }
}

impl TypeRelationshipGraph {
    pub fn new(nodes: Vec<TypeNode>, relationships: Vec<TypeRelationship>) -> (r: TypeRelationshipGraph)
        ensures
            r.nodes@ == nodes@,
            r.relationships@ == relationships@,
    {
        TypeRelationshipGraph { nodes, relationships }
    }
}

/// Builds the type graph of parsed Turtle triples: every subject (and every
/// relationship target) becomes a node, listed in id order; `rdfs:label`
/// literals override a node's derived label (the last one wins); `b00t:`
/// predicates with an edge mapping and an IRI object become relationships,
/// in triple order; literal- and blank-node objects never become edges.
pub fn triples_to_type_graph(triples: &[(String, String, RdfTerm)]) -> (g: TypeRelationshipGraph)
    ensures
        is_node_list(triples_view(triples@), nodes_view(g.nodes@)),
        rels_view(g.relationships@) == edges_of(triples_view(triples@)),
{
    let ghost ts = triples_view(triples@);
    let mut table: Vec<(Vec<char>, Vec<char>)> = Vec::new();
    let mut rels: Vec<TypeRelationship> = Vec::new();
    let mut i: usize = 0;
    assert(ts.take(0) =~= Seq::<TripleView>::empty());
    while i < triples.len()
        invariant
            i <= triples@.len(),
            ts == triples_view(triples@),
            table_describes(table_view(table@), ts.take(i as int)),
            rels_view(rels@) == edges_of(ts.take(i as int)),
        decreases triples@.len() - i,
    {
        let (s, p, o) = &triples[i];
        proof {
            lemma_flat_map_step(ts, i as int, |t: TripleView| edge_seq(t));
            assert(ts.take(i + 1) =~= ts.take(i as int).push(ts[i as int]));
        }
        process_triple(&mut table, &mut rels, s, p, o, Ghost(ts.take(i as int)));
        i = i + 1;
    }
    assert(ts.take(ts.len() as int) =~= ts);
    let ghost t = table_view(table@);
    let mut nodes: Vec<TypeNode> = Vec::new();
    let mut k: usize = 0;
    while k < table.len()
        invariant
            k <= table@.len(),
            t == table_view(table@),
            nodes@.len() == k,
            forall|j: int| 0 <= j < k ==> (#[trigger] nodes_view(nodes@)[j]) == (t[j].0, t[j].1, derived_kind(t[j].0)),
        decreases table@.len() - k,
    {
        let id = chars_to_string(table[k].0.as_slice(), 0, table[k].0.len());
        let label = chars_to_string(table[k].1.as_slice(), 0, table[k].1.len());
        let kind = node_kind(table[k].0.as_slice());
        assert(table@[k as int].0@ == t[k as int].0);
        assert(id@ =~= t[k as int].0);
        assert(label@ =~= t[k as int].1);
        let ghost before = nodes@;
        nodes.push(TypeNode { id, label, kind });
        proof {
            assert forall|j: int| 0 <= j < k + 1 implies (#[trigger] nodes_view(nodes@)[j]) == (t[j].0, t[j].1, derived_kind(t[j].0)) by {
                if j < k {
                    assert(nodes@[j] == before[j]);
                    assert(nodes_view(before)[j] == (t[j].0, t[j].1, derived_kind(t[j].0)));
                } else {
                    assert(nodes@[j].id@ == t[j].0);
                    assert(nodes@[j].kind@ == derived_kind(t[j].0));
                }
            }
        }
        k = k + 1;
    }
    proof {
        let nv = nodes_view(nodes@);
        assert forall|id: Seq<char>| mentioned(ts, id) <==> exists|k: int| 0 <= k < nv.len() && #[trigger] nv[k].0 == id by {
            if assigns(t, id) {
                let j = choose|j: int| 0 <= j < t.len() && t[j].0 == id;
                assert(nv[j].0 == id);
            }
            if exists|k: int| 0 <= k < nv.len() && #[trigger] nv[k].0 == id {
                let j = choose|j: int| 0 <= j < nv.len() && #[trigger] nv[j].0 == id;
                assert(t[j].0 == id);
            }
        }
        assert forall|i: int, j: int| 0 <= i < j < nv.len() implies lex_lt(#[trigger] nv[i].0, #[trigger] nv[j].0) by {
            assert(nv[i].0 == t[i].0);
            assert(nv[j].0 == t[j].0);
        }
    }
    TypeRelationshipGraph::new(nodes, rels)
}

/// `g` is the type graph of `ts`.
pub open spec fn is_type_graph_of(ts: Seq<TripleView>, g: TypeRelationshipGraph) -> bool {
    is_node_list(ts, nodes_view(g.nodes@)) && rels_view(g.relationships@) == edges_of(ts)
}

proof fn lemma_edges_mentioned(ts: Seq<TripleView>, k: int)
    requires
        0 <= k < edges_of(ts).len(),
    ensures
        mentioned(ts, edges_of(ts)[k].0),
        mentioned(ts, edges_of(ts)[k].1),
    decreases ts.len(),
{
    let init = ts.drop_last();
    let prev = edges_of(init);
    assert(edges_of(ts) == prev + edge_seq(ts.last()));
    if k < prev.len() {
        lemma_edges_mentioned(init, k);
        let e = prev[k];
        let i = choose|i: int| 0 <= i < init.len() && #[trigger] triple_mentions(init[i], e.0);
        assert(ts[i] == init[i]);
        let j = choose|j: int| 0 <= j < init.len() && #[trigger] triple_mentions(init[j], e.1);
        assert(ts[j] == init[j]);
    } else {
        let t = ts.last();
        assert(ts[ts.len() - 1] == t);
        assert(triple_mentions(ts[ts.len() - 1], edges_of(ts)[k].0));
        assert(triple_mentions(ts[ts.len() - 1], edges_of(ts)[k].1));
    }
}

/// Law: a type graph has no dangling relationship — the source and the
/// target of every relationship are nodes of the graph.
pub proof fn law_type_graph_closed(ts: Seq<TripleView>, g: TypeRelationshipGraph, k: int)
    requires
        is_type_graph_of(ts, g),
        0 <= k < g.relationships@.len(),
    ensures
        exists|a: int| 0 <= a < g.nodes@.len() && #[trigger] g.nodes@[a].id@ == g.relationships@[k].source@,
        exists|b: int| 0 <= b < g.nodes@.len() && #[trigger] g.nodes@[b].id@ == g.relationships@[k].target@,
{
    let nv = nodes_view(g.nodes@);
    assert(rels_view(g.relationships@)[k] == edges_of(ts)[k]);
    lemma_edges_mentioned(ts, k);
    let e = edges_of(ts)[k];
    let a = choose|a: int| 0 <= a < nv.len() && #[trigger] nv[a].0 == e.0;
    let b = choose|b: int| 0 <= b < nv.len() && #[trigger] nv[b].0 == e.1;
    assert(g.nodes@[a].id@ == g.relationships@[k].source@);
    assert(g.nodes@[b].id@ == g.relationships@[k].target@);
}

/// Law: the node list of a set of triples is determined by them — two
/// lists that both satisfy the node-list contract are the same list.
pub proof fn law_node_list_unique(ts: Seq<TripleView>, a: Seq<NodeView>, b: Seq<NodeView>)
    requires
        is_node_list(ts, a),
        is_node_list(ts, b),
    ensures
        a == b,
{
    let ka = a.map_values(|n: NodeView| (n.0, n.1));
    let kb = b.map_values(|n: NodeView| (n.0, n.1));
    assert forall|i: int, j: int| 0 <= i < j < ka.len() implies lex_lt(#[trigger] ka[i].0, #[trigger] ka[j].0) by {
        assert(ka[i].0 == a[i].0 && ka[j].0 == a[j].0);
    }
    assert forall|i: int, j: int| 0 <= i < j < kb.len() implies lex_lt(#[trigger] kb[i].0, #[trigger] kb[j].0) by {
        assert(kb[i].0 == b[i].0 && kb[j].0 == b[j].0);
    }
    assert forall|id: Seq<char>| assigns(ka, id) <==> assigns(kb, id) by {
        if assigns(ka, id) {
            let k = choose|k: int| 0 <= k < ka.len() && ka[k].0 == id;
            assert(a[k].0 == id);
            assert(mentioned(ts, id));
            let m = choose|m: int| 0 <= m < b.len() && #[trigger] b[m].0 == id;
            assert(kb[m].0 == id);
        }
        if assigns(kb, id) {
            let k = choose|k: int| 0 <= k < kb.len() && kb[k].0 == id;
            assert(b[k].0 == id);
            assert(mentioned(ts, id));
            let m = choose|m: int| 0 <= m < a.len() && #[trigger] a[m].0 == id;
            assert(ka[m].0 == id);
        }
    }
    lemma_sorted_same_keys(ka, kb);
    assert forall|i: int| 0 <= i < a.len() implies #[trigger] a[i] == b[i] by {
        assert(ka[i].0 == kb[i].0);
    }
    assert(a =~= b);
}

// ---------------------------------------------------------------------
// Parsing Turtle
// ---------------------------------------------------------------------

#[verifier::external_type_specification]
#[verifier::external_body]
pub struct ExTurtleSyntaxError(oxttl::TurtleSyntaxError);

/// Why Turtle text could not be read.
#[derive(Debug)]
pub enum TurtleGraphError {
    Syntax(oxttl::TurtleSyntaxError),
}

/// Whether oxttl's lenient Turtle parser reads `ttl` to the end without a
/// syntax error.
pub uninterp spec fn turtle_accepts(ttl: Seq<u8>) -> bool;

/// Whether `triples` (subject, predicate IRI, object) is what oxttl's
/// lenient Turtle parser reads from `ttl`, in document order. A relation,
/// not a function: anonymous blank nodes get fresh ids on every parse.
pub uninterp spec fn is_turtle_parse(ttl: Seq<u8>, triples: Seq<(TermView, Seq<char>, TermView)>) -> bool;

pub open spec fn raw_triples_view(ts: Seq<(RdfTerm, String, RdfTerm)>) -> Seq<(TermView, Seq<char>, TermView)> {
    ts.map_values(|t: (RdfTerm, String, RdfTerm)| (t.0.view(), t.1@, t.2.view()))
}

/// `oxttl::TurtleParser::new().lenient().for_slice(ttl)`, collected: each
/// triple's subject (an IRI or a blank node, never a literal), predicate IRI
/// and object (an IRI, a blank node or a literal's lexical value), in
/// document order; or the first syntax error.
#[verifier::external_body]
fn read_turtle(ttl: &[u8]) -> (r: Result<Vec<(RdfTerm, String, RdfTerm)>, oxttl::TurtleSyntaxError>)
    ensures
        r is Ok <==> turtle_accepts(ttl@),
        r matches Ok(v) ==> is_turtle_parse(ttl@, raw_triples_view(v@))
            && forall|i: int| 0 <= i < v@.len() ==> !((#[trigger] v@[i]).0 is Literal),
{
    let mut out = Vec::new();
    for t in oxttl::TurtleParser::new().lenient().for_slice(ttl) {
        let t = t?;
        let s = match t.subject {
            oxrdf::NamedOrBlankNode::NamedNode(n) => RdfTerm::NamedNode(n.into_string()),
            oxrdf::NamedOrBlankNode::BlankNode(b) => RdfTerm::BlankNode(b.into_string()),
        };
        let o = match t.object {
            oxrdf::Term::NamedNode(n) => RdfTerm::NamedNode(n.into_string()),
            oxrdf::Term::BlankNode(b) => RdfTerm::BlankNode(b.into_string()),
            oxrdf::Term::Literal(l) => RdfTerm::Literal(l.value().to_string()),
        };
        out.push((s, t.predicate.into_string(), o));
    }
    Ok(out)
}

/// The id a subject node gets: its IRI, or `_:` and its blank-node id.
pub open spec fn subject_id(t: RdfTerm) -> Seq<char> {
    match t {
        RdfTerm::BlankNode(b) => "_:"@ + b@,
        RdfTerm::NamedNode(n) => n@,
        RdfTerm::Literal(l) => l@,
    }
}

/// The id a subject node gets, over views.
pub open spec fn subject_id_view(t: TermView) -> Seq<char> {
    match t {
        TermView::BlankNode(b) => "_:"@ + b,
        TermView::NamedNode(n) => n,
        TermView::Literal(l) => l,
    }
}

/// Parsed triples with their subjects turned into node ids.
pub open spec fn with_subject_ids(raw: Seq<(TermView, Seq<char>, TermView)>) -> Seq<TripleView> {
    raw.map_values(|t: (TermView, Seq<char>, TermView)| (subject_id_view(t.0), t.1, t.2))
}

/// Parses UTF-8 Turtle text into `(subject id, predicate IRI, object)`
/// triples, in document order; the first syntax error is returned instead.
fn parse_triples(ttl: &[u8]) -> (r: Result<Vec<(String, String, RdfTerm)>, TurtleGraphError>)
    ensures
        r is Ok <==> turtle_accepts(ttl@),
        r matches Ok(v) ==> exists|raw: Seq<(TermView, Seq<char>, TermView)>|
            is_turtle_parse(ttl@, raw) && #[trigger] with_subject_ids(raw) == triples_view(v@),
{
    let raw = match read_turtle(ttl) {
        Ok(v) => v,
        Err(e) => return Err(TurtleGraphError::Syntax(e)),
    };
    let ghost rv = raw_triples_view(raw@);
    let mut out: Vec<(String, String, RdfTerm)> = Vec::new();
    let mut i: usize = 0;
    while i < raw.len()
        invariant
            i <= raw@.len(),
            rv == raw_triples_view(raw@),
            triples_view(out@) == with_subject_ids(rv.take(i as int)),
        decreases raw@.len() - i,
    {
        let t = &raw[i];
        let subject = match &t.0 {
            RdfTerm::BlankNode(b) => {
                let mut s = String::new();
                push_str(&mut s, "_:");
                push_str(&mut s, b.as_str());
                s
            },
            RdfTerm::NamedNode(n) => n.clone(),
            RdfTerm::Literal(l) => l.clone(),
        };
        let object = match &t.2 {
            RdfTerm::BlankNode(b) => RdfTerm::BlankNode(b.clone()),
            RdfTerm::NamedNode(n) => RdfTerm::NamedNode(n.clone()),
            RdfTerm::Literal(l) => RdfTerm::Literal(l.clone()),
        };
        let ghost before = triples_view(out@);
        let row = (subject, t.1.clone(), object);
        proof {
            assert(rv[i as int] == (t.0.view(), t.1@, t.2.view()));
            assert(row.2.view() == t.2.view());
            assert(row.0@ == subject_id_view(t.0.view()));
        }
        out.push(row);
        proof {
            assert(rv.take(i + 1) =~= rv.take(i as int).push(rv[i as int]));
            assert(triples_view(out@) =~= before.push((row.0@, row.1@, row.2.view())));
            assert(with_subject_ids(rv.take(i + 1)) =~= with_subject_ids(rv.take(i as int)).push((row.0@, row.1@, row.2.view())));
        }
        i = i + 1;
    }
    assert(rv.take(rv.len() as int) =~= rv);
    Ok(out)
}

/// Parses `ttl` and builds its type graph in one step.
pub fn parse_turtle_to_type_graph(ttl: &[u8]) -> (r: Result<TypeRelationshipGraph, TurtleGraphError>)
    ensures
        r is Ok <==> turtle_accepts(ttl@),
        r matches Ok(g) ==> exists|raw: Seq<(TermView, Seq<char>, TermView)>|
            is_turtle_parse(ttl@, raw) && #[trigger] is_type_graph_of(with_subject_ids(raw), g),
{
    match parse_triples(ttl) {
        Ok(triples) => {
            let g = triples_to_type_graph(triples.as_slice());
            let ghost ts = triples_view(triples@);
            let ghost raw = choose|raw: Seq<(TermView, Seq<char>, TermView)>|
                is_turtle_parse(ttl@, raw) && #[trigger] with_subject_ids(raw) == ts;
            let r: Result<TypeRelationshipGraph, TurtleGraphError> = Ok(g);
            assert(is_type_graph_of(with_subject_ids(raw), r->Ok_0));
            r
        },
        Err(e) => Err(e),
    }
}

// ---------------------------------------------------------------------
// Cytoscape form and D2
// ---------------------------------------------------------------------

/// A node of the Cytoscape form of a graph.
#[derive(Debug, Clone, PartialEq, Eq)]
pub struct CytoscapeNode {
    pub id: String,
    pub label: String,
}

/// An edge of the Cytoscape form of a graph.
#[derive(Debug, Clone, PartialEq, Eq)]
pub struct CytoscapeEdge {
    pub source: String,
    pub target: String,
    pub label: String,
}

/// The display form of a type graph: labelled nodes and labelled edges.
#[derive(Debug, Clone, Default, PartialEq, Eq)]
pub struct CytoscapeGraph {
    pub nodes: Vec<CytoscapeNode>,
    pub edges: Vec<CytoscapeEdge>,
}

/// The label an edge of each relationship kind carries.
pub open spec fn kind_label(k: TypeRelationshipKind) -> Seq<char> {
    match k {
        TypeRelationshipKind::References => "references"@,
        TypeRelationshipKind::Contains => "contains"@,
        TypeRelationshipKind::ClassifiedAs => "classified_as"@,
        TypeRelationshipKind::BelongsTo => "belongs_to"@,
        TypeRelationshipKind::Attests => "attests"@,
    }
}

fn kind_label_str(k: TypeRelationshipKind) -> (r: &'static str)
    ensures
        r@ == kind_label(k),
{
    match k {
        TypeRelationshipKind::References => "references",
        TypeRelationshipKind::Contains => "contains",
        TypeRelationshipKind::ClassifiedAs => "classified_as",
        TypeRelationshipKind::BelongsTo => "belongs_to",
        TypeRelationshipKind::Attests => "attests",
    }
}

fn copy_string(s: &String) -> (r: String)
    ensures
        r@ == s@,
{
    let mut r = String::new();
    push_str(&mut r, s.as_str());
    r
}

impl TypeRelationshipGraph {
    /// The Cytoscape form: each node with its label, each relationship as an
    /// edge labelled with its kind, both in graph order.
    pub fn to_cytoscape(&self) -> (c: CytoscapeGraph)
        ensures
            c.nodes@.len() == self.nodes@.len(),
            forall|i: int| 0 <= i < self.nodes@.len() ==> (#[trigger] c.nodes@[i]).id@ == self.nodes@[i].id@
                && c.nodes@[i].label@ == self.nodes@[i].label@,
            c.edges@.len() == self.relationships@.len(),
            forall|i: int| 0 <= i < self.relationships@.len() ==> (#[trigger] c.edges@[i]).source@ == self.relationships@[i].source@
                && c.edges@[i].target@ == self.relationships@[i].target@
                && c.edges@[i].label@ == kind_label(self.relationships@[i].kind),
    {
        let mut nodes: Vec<CytoscapeNode> = Vec::new();
        let mut i: usize = 0;
        while i < self.nodes.len()
            invariant
                i <= self.nodes@.len(),
                nodes@.len() == i,
                forall|j: int| 0 <= j < i ==> (#[trigger] nodes@[j]).id@ == self.nodes@[j].id@
                    && nodes@[j].label@ == self.nodes@[j].label@,
            decreases self.nodes@.len() - i,
        {
            let n = &self.nodes[i];
            nodes.push(CytoscapeNode { id: copy_string(&n.id), label: copy_string(&n.label) });
            i = i + 1;
        }
        let mut edges: Vec<CytoscapeEdge> = Vec::new();
        let mut j: usize = 0;
        while j < self.relationships.len()
            invariant
                j <= self.relationships@.len(),
                edges@.len() == j,
                forall|k: int| 0 <= k < j ==> (#[trigger] edges@[k]).source@ == self.relationships@[k].source@
                    && edges@[k].target@ == self.relationships@[k].target@
                    && edges@[k].label@ == kind_label(self.relationships@[k].kind),
            decreases self.relationships@.len() - j,
        {
            let r = &self.relationships[j];
            let mut label = String::new();
            push_str(&mut label, kind_label_str(r.kind));
            edges.push(CytoscapeEdge { source: copy_string(&r.source), target: copy_string(&r.target), label });
            j = j + 1;
        }
        CytoscapeGraph { nodes, edges }
    }
}

/// One D2 node declaration: `"id": "label"` and a newline.
pub open spec fn d2_node_line(n: CytoscapeNode) -> Seq<char> {
    d2_quote_spec(n.id@) + ": "@ + d2_label_spec(n.label@) + seq!['\n']
}

/// One D2 edge: `"source" -> "target": "label"` and a newline.
pub open spec fn d2_edge_line(e: CytoscapeEdge) -> Seq<char> {
    d2_quote_spec(e.source@) + " -> "@ + d2_quote_spec(e.target@) + ": "@ + d2_label_spec(e.label@) + seq!['\n']
}

/// The D2 text of a graph: node declarations in graph order, then edges.
pub open spec fn d2_text(g: CytoscapeGraph) -> Seq<char> {
    concat_map(g.nodes@, |n: CytoscapeNode| d2_node_line(n)) + concat_map(g.edges@, |e: CytoscapeEdge| d2_edge_line(e))
}

/// Emits D2 text from a [`CytoscapeGraph`].
pub struct D2Emitter;

impl D2Emitter {
    /// Deterministic: node declarations first (graph order), then edges, one
    /// per line. Ids and labels are D2-quoted, so arbitrary text never needs
    /// escaping logic of its own and can never alter diagram structure.
    pub fn emit(graph: &CytoscapeGraph) -> (r: String)
        ensures
            r@ == d2_text(*graph),
    {
        let ghost fnode = |n: CytoscapeNode| d2_node_line(n);
        let ghost fedge = |e: CytoscapeEdge| d2_edge_line(e);
        let mut out = String::new();
        let mut i: usize = 0;
        while i < graph.nodes.len()
            invariant
                i <= graph.nodes@.len(),
                fnode == (|n: CytoscapeNode| d2_node_line(n)),
                out@ == concat_map(graph.nodes@.take(i as int), fnode),
            decreases graph.nodes@.len() - i,
        {
            proof { lemma_concat_map_step(graph.nodes@, i as int, fnode); }
            let n = &graph.nodes[i];
            let id = str_chars(n.id.as_str());
            let label = str_chars(n.label.as_str());
            push_d2_quoted(&mut out, id.as_slice());
            push_str(&mut out, ": ");
            push_d2_label(&mut out, label.as_slice());
            push_char(&mut out, '\n');
            i = i + 1;
        }
        assert(graph.nodes@.take(graph.nodes@.len() as int) =~= graph.nodes@);
        let ghost head = out@;
        let mut j: usize = 0;
        while j < graph.edges.len()
            invariant
                j <= graph.edges@.len(),
                fedge == (|e: CytoscapeEdge| d2_edge_line(e)),
                out@ == head + concat_map(graph.edges@.take(j as int), fedge),
            decreases graph.edges@.len() - j,
        {
            proof { lemma_concat_map_step(graph.edges@, j as int, fedge); }
            let e = &graph.edges[j];
            let src = str_chars(e.source.as_str());
            let tgt = str_chars(e.target.as_str());
            let label = str_chars(e.label.as_str());
            push_d2_quoted(&mut out, src.as_slice());
            push_str(&mut out, " -> ");
            push_d2_quoted(&mut out, tgt.as_slice());
            push_str(&mut out, ": ");
            push_d2_label(&mut out, label.as_slice());
            push_char(&mut out, '\n');
            assert(out@ =~= head + concat_map(graph.edges@.take(j + 1), fedge));
            j = j + 1;
        }
        assert(graph.edges@.take(graph.edges@.len() as int) =~= graph.edges@);
        out
    }
}

// ---------------------------------------------------------------------
// D2 quoting
// ---------------------------------------------------------------------

/// A D2 quoted-string token for `id`: `"` + escaped text + `"`.
pub open spec fn d2_quote_spec(id: Seq<char>) -> Seq<char> {
    seq!['"'] + map_chars(id, |c: char| d2_escape_char(c)) + seq!['"']
}

/// A D2 label: newlines flattened to spaces, then quoted like an id.
pub open spec fn d2_label_spec(label: Seq<char>) -> Seq<char> {
    seq!['"'] + map_chars(map_chars(label, |c: char| flatten_newline_char(c)), |c: char| d2_escape_char(c)) + seq!['"']
}

/// Appends the D2 quoted form of `id`.
pub fn push_d2_quoted(out: &mut String, id: &[char])
    ensures
        final(out)@ == old(out)@ + d2_quote_spec(id@),
{
    push_char(out, '"');
    push_d2_escaped(out, id);
    push_char(out, '"');
}

/// Appends the D2 label form of `label`.
pub fn push_d2_label(out: &mut String, label: &[char])
    ensures
        final(out)@ == old(out)@ + d2_label_spec(label@),
{
    push_char(out, '"');
    push_d2_label_escaped(out, label);
    push_char(out, '"');
}

/// D2 identifiers quoted with `"..."`, embedded `"` and `\` escaped, so the
/// result is always one quoted-string token.
pub fn d2_quote(id: &str) -> (r: String)
    ensures
        r@ == d2_quote_spec(id@),
{
    let v = str_chars(id);
    let mut out = String::new();
    push_d2_quoted(&mut out, v.as_slice());
    out
}

/// A D2 label after `:`, always emitted as a quoted string (newlines
/// flattened to spaces first) so label text can never open a block or end a
/// statement.
pub fn d2_escape_label(label: &str) -> (r: String)
    ensures
        r@ == d2_label_spec(label@),
{
    let v = str_chars(label);
    let mut out = String::new();
    push_d2_label(&mut out, v.as_slice());
    out
}

proof fn lemma_d2_escape_injective(s1: Seq<char>, s2: Seq<char>)
    requires
        map_chars(s1, |c: char| d2_escape_char(c)) == map_chars(s2, |c: char| d2_escape_char(c)),
    ensures
        s1 == s2,
    decreases s1.len() + s2.len(),
{
    let f = |c: char| d2_escape_char(c);
    let m1 = map_chars(s1, f);
    if s1.len() == 0 && s2.len() == 0 {
    } else if s1.len() == 0 {
        assert(f(s2.last()).len() >= 1);
        assert(m1.len() == 0);
    } else if s2.len() == 0 {
        assert(f(s1.last()).len() >= 1);
    } else {
        let p1 = map_chars(s1.drop_last(), f);
        let p2 = map_chars(s2.drop_last(), f);
        let c1 = s1.last();
        let c2 = s2.last();
        assert(m1 == p1 + f(c1));
        assert(m1 == p2 + f(c2));
        assert(m1.last() == f(c1).last());
        assert(m1.last() == f(c2).last());
        assert(c1 == c2);
        assert(p1 =~= m1.subrange(0, m1.len() - f(c1).len()));
        assert(p2 =~= m1.subrange(0, m1.len() - f(c2).len()));
        lemma_d2_escape_injective(s1.drop_last(), s2.drop_last());
        assert(s1 =~= s1.drop_last().push(c1));
        assert(s2 =~= s2.drop_last().push(c2));
    }
}

/// Law: D2 quoting is injective — distinct ids always yield distinct tokens,
/// so two nodes can never collapse into one in the emitted diagram.
pub proof fn law_d2_quote_injective(a: Seq<char>, b: Seq<char>)
    ensures
        d2_quote_spec(a) == d2_quote_spec(b) <==> a == b,
{
    if d2_quote_spec(a) == d2_quote_spec(b) {
        let f = |c: char| d2_escape_char(c);
        let qa = d2_quote_spec(a);
        assert(map_chars(a, f) =~= qa.subrange(1, qa.len() - 1));
        assert(map_chars(b, f) =~= qa.subrange(1, qa.len() - 1));
        lemma_d2_escape_injective(a, b);
    }
}

proof fn lemma_map_chars_no_char(s: Seq<char>, f: spec_fn(char) -> Seq<char>, x: char)
    requires
        forall|c: char| !(#[trigger] f(c)).contains(x),
    ensures
        !map_chars(s, f).contains(x),
    decreases s.len(),
{
    if s.len() > 0 {
        lemma_map_chars_no_char(s.drop_last(), f, x);
        let a = map_chars(s.drop_last(), f);
        let b = f(s.last());
        assert(map_chars(s, f) == a + b);
        if (a + b).contains(x) {
            let k = choose|k: int| 0 <= k < (a + b).len() && (a + b)[k] == x;
            if k < a.len() {
                assert(a[k] == x);
            } else {
                assert(b[k - a.len()] == x);
            }
        }
    }
}

/// Law: an emitted D2 label never contains a newline, so it can never end
/// the single-line statement it is part of.
pub proof fn law_d2_label_single_line(label: Seq<char>)
    ensures
        !d2_label_spec(label).contains('\n'),
{
    let f = |c: char| flatten_newline_char(c);
    let g = |c: char| d2_escape_char(c);
    assert forall|c: char| !(#[trigger] f(c)).contains('\n') by {
        if f(c).contains('\n') {
            assert(f(c)[0] == '\n');
        }
    }
    lemma_map_chars_no_char(label, f, '\n');
    let m = map_chars(label, f);
    assert forall|c: char| c != '\n' implies !(#[trigger] g(c)).contains('\n') by {
        if c == '\\' {
            assert(g(c) =~= seq!['\\', '\\']);
        } else if c == '"' {
            assert(g(c) =~= seq!['\\', '"']);
        } else {
            assert(g(c) =~= seq![c]);
        }
    }
    lemma_map_chars_no_char_on(m, g);
    let q = d2_label_spec(label);
    let mm = map_chars(m, g);
    if q.contains('\n') {
        let k = choose|k: int| 0 <= k < q.len() && q[k] == '\n';
        if k == 0 || k == q.len() - 1 {
        } else {
            assert(mm[k - 1] == '\n');
        }
    }
}

proof fn lemma_map_chars_no_char_on(m: Seq<char>, g: spec_fn(char) -> Seq<char>)
    requires
        !m.contains('\n'),
        forall|c: char| c != '\n' ==> !(#[trigger] g(c)).contains('\n'),
    ensures
        !map_chars(m, g).contains('\n'),
    decreases m.len(),
{
    if m.len() > 0 {
        assert(m.contains(m.last()) ==> m.last() != '\n');
        assert(m[m.len() - 1] == m.last());
        assert(!m.drop_last().contains('\n')) by {
            if m.drop_last().contains('\n') {
                let k = choose|k: int| 0 <= k < m.drop_last().len() && m.drop_last()[k] == '\n';
                assert(m[k] == '\n');
            }
        }
        lemma_map_chars_no_char_on(m.drop_last(), g);
        let a = map_chars(m.drop_last(), g);
        let b = g(m.last());
        if (a + b).contains('\n') {
            let k = choose|k: int| 0 <= k < (a + b).len() && (a + b)[k] == '\n';
            if k < a.len() {
                assert(a[k] == '\n');
            } else {
                assert(b[k - a.len()] == '\n');
            }
        }
    }
}

} // verus!
