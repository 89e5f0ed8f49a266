//! D2 and Mermaid emitters for lifted KerML / SysML v2 relations.
//!
//! Every distinct element id (first-seen order over each relation's
//! endpoints) is declared once, then each relation becomes one edge per
//! consecutive endpoint pair, labelled with the KerML relationship name (a
//! `Domain` relation with its own `kind`). Output is deterministic.
use vstd::prelude::*;

use crate::b00t_graph::{d2_quote_spec, push_d2_quoted};
use crate::text::{flatten_newline_char, push_flattened};
use crate::ontology::{canonical_name_of, endpoints_of, ElementId, Relation, SysmlViewKind, UfoRelation};
use crate::sysml_lift::{is_lift_of, relation_tag};
use crate::text::{
    add_distinct, concat_map, decimal, first_pos, lemma_add_distinct_concat,
    lemma_add_distinct_step, lemma_add_distinct_unique, lemma_concat_map_step, lemma_first_pos,
    lemma_first_pos_unique, map_chars, mermaid_escape_char, push_decimal, push_mermaid_escaped,
    push_str, str_chars, str_eq,
};

verus! {

/// The KerML relationship name labelling a relation's edges.
pub open spec fn label_of(r: Relation) -> Seq<char> {
    match r {
        Relation::FeatureMembership { .. } => "feature_membership"@,
        Relation::Specialization { .. } => "specialization"@,
        Relation::Subsetting { .. } => "subsetting"@,
        Relation::Redefinition { .. } => "redefinition"@,
        Relation::Connection { .. } => "connection"@,
        Relation::Succession { .. } => "succession"@,
        Relation::Allocation { .. } => "allocation"@,
        Relation::Satisfy { .. } => "satisfy"@,
        Relation::Verify { .. } => "verify"@,
        Relation::Refine { .. } => "refine"@,
        Relation::Dependency { .. } => "dependency"@,
        Relation::Domain { kind, .. } => kind@,
    }
}

/// The KerML/SysML-v2 relationship name for a relation's edges, or (for
/// `Domain`) its own free-form `kind` classifier.
pub fn relation_label(relation: &Relation) -> (r: &str)
    ensures
        r@ == label_of(*relation),
{
    match relation {
        Relation::FeatureMembership { .. } => "feature_membership",
        Relation::Specialization { .. } => "specialization",
        Relation::Subsetting { .. } => "subsetting",
        Relation::Redefinition { .. } => "redefinition",
        Relation::Connection { .. } => "connection",
        Relation::Succession { .. } => "succession",
        Relation::Allocation { .. } => "allocation",
        Relation::Satisfy { .. } => "satisfy",
        Relation::Verify { .. } => "verify",
        Relation::Refine { .. } => "refine",
        Relation::Dependency { .. } => "dependency",
        Relation::Domain { kind, .. } => kind.as_str(),
    }
}

/// Every relation's endpoints, concatenated in order.
pub open spec fn flat_endpoints(rels: Seq<Relation>) -> Seq<Seq<char>>
    decreases rels.len(),
{
    if rels.len() == 0 {
        Seq::empty()
    } else {
        flat_endpoints(rels.drop_last()) + endpoints_of(rels.last())
    }
}

/// Every distinct endpoint id, in first-seen order.
pub open spec fn distinct_nodes_spec(rels: Seq<Relation>) -> Seq<Seq<char>> {
    add_distinct(Seq::empty(), flat_endpoints(rels))
}

/// Consecutive endpoint pairs: `windows(2)`.
pub open spec fn edge_pairs(e: Seq<Seq<char>>) -> Seq<(Seq<char>, Seq<char>)> {
    Seq::new(if e.len() > 0 { (e.len() - 1) as nat } else { 0 }, |i: int| (e[i], e[i + 1]))
}

pub open spec fn ids_view(v: Seq<&ElementId>) -> Seq<Seq<char>> {
    v.map_values(|e: &ElementId| e.view_id())
}

/// A D2 label as bare trailing text, newlines flattened to spaces.
pub open spec fn d2_bare_label(s: Seq<char>) -> Seq<char> {
    map_chars(s, |c: char| flatten_newline_char(c))
}

pub open spec fn d2_node_line(id: Seq<char>) -> Seq<char> {
    d2_quote_spec(id) + ": "@ + d2_bare_label(id) + "\n"@
}

pub open spec fn d2_edge_line(source: Seq<char>, target: Seq<char>, label: Seq<char>) -> Seq<char> {
    d2_quote_spec(source) + " -> "@ + d2_quote_spec(target) + ": "@ + d2_bare_label(label) + "\n"@
}

pub open spec fn d2_relation_lines(r: Relation) -> Seq<char> {
    concat_map(edge_pairs(endpoints_of(r)), |p: (Seq<char>, Seq<char>)| d2_edge_line(p.0, p.1, label_of(r)))
}

/// The D2 text for `rels`: node declarations, then edge lines.
pub open spec fn to_d2_spec(rels: Seq<Relation>) -> Seq<char> {
    concat_map(distinct_nodes_spec(rels), |id: Seq<char>| d2_node_line(id))
        + concat_map(rels, |r: Relation| d2_relation_lines(r))
}

/// Position of `id` among `seen`, if present.
fn find_id(seen: &Vec<&ElementId>, id: &ElementId) -> (r: Option<usize>)
    ensures
        match r {
            Some(i) => first_pos(ids_view(seen@), id.view_id()) == i as int,
            None => !ids_view(seen@).contains(id.view_id()),
        },
{
    let ghost v = ids_view(seen@);
    let mut i: usize = 0;
    while i < seen.len()
        invariant
            i <= seen@.len(),
            v == ids_view(seen@),
            forall|k: int| 0 <= k < i ==> v[k] != id.view_id(),
        decreases seen@.len() - i,
    {
        if str_eq(seen[i].as_str(), id.as_str()) {
            proof { lemma_first_pos_unique(v, id.view_id(), i as int); }
            return Some(i);
        }
        i = i + 1;
    }
    proof {
        if v.contains(id.view_id()) {
            let k = choose|k: int| 0 <= k < v.len() && v[k] == id.view_id();
        }
    }
    None
}

proof fn lemma_flat_step(rels: Seq<Relation>, i: int)
    requires
        0 <= i < rels.len(),
    ensures
        flat_endpoints(rels.take(i + 1)) == flat_endpoints(rels.take(i)) + endpoints_of(rels[i]),
{
    assert(rels.take(i + 1).drop_last() =~= rels.take(i));
}

/// Every distinct endpoint id of `relations`, in first-seen order.
fn distinct_nodes<'a>(relations: &'a [Relation]) -> (r: Vec<&'a ElementId>)
    ensures
        ids_view(r@) == distinct_nodes_spec(relations@),
{
    let mut seen: Vec<&ElementId> = Vec::new();
    let mut i: usize = 0;
    while i < relations.len()
        invariant
            i <= relations@.len(),
            ids_view(seen@) == add_distinct(Seq::<Seq<char>>::empty(), flat_endpoints(relations@.take(i as int))),
        decreases relations@.len() - i,
    {
        let eps = relations[i].endpoints();
        let ghost ev = eps@.map_values(|e: &ElementId| e.view_id());
        let ghost base = ids_view(seen@);
        let mut j: usize = 0;
        while j < eps.len()
            invariant
                j <= eps@.len(),
                ev == eps@.map_values(|e: &ElementId| e.view_id()),
                ids_view(seen@) == add_distinct(base, ev.take(j as int)),
            decreases eps@.len() - j,
        {
            let id = eps[j];
            proof { lemma_add_distinct_step(base, ev, j as int); }
            match find_id(&seen, id) {
                Some(_) => {
                    proof {
                        lemma_first_pos(ids_view(seen@), id.view_id());
                    }
                }
                None => {
                    seen.push(id);
                    assert(ids_view(seen@) =~= add_distinct(base, ev.take(j as int)).push(ev[j as int]));
                }
            }
            j = j + 1;
        }
        proof {
            assert(ev.take(eps@.len() as int) =~= ev);
            lemma_flat_step(relations@, i as int);
            lemma_add_distinct_concat(Seq::<Seq<char>>::empty(), flat_endpoints(relations@.take(i as int)), ev);
        }
        i = i + 1;
    }
    assert(relations@.take(relations@.len() as int) =~= relations@);
    seen
}

/// Emit D2 text: one declaration per distinct element id, then one edge
/// line per consecutive endpoint pair of each relation, in input order.
pub fn to_d2(relations: &[Relation]) -> (out: String)
    ensures
        out@ == to_d2_spec(relations@),
{
    let nodes = distinct_nodes(relations);
    let ghost nv = ids_view(nodes@);
    let ghost nf = |id: Seq<char>| d2_node_line(id);
    let ghost rf = |r: Relation| d2_relation_lines(r);
    let mut out = String::new();
    let mut i: usize = 0;
    while i < nodes.len()
        invariant
            i <= nodes@.len(),
            nv == ids_view(nodes@),
            nf == (|id: Seq<char>| d2_node_line(id)),
            out@ == concat_map(nv.take(i as int), nf),
        decreases nodes@.len() - i,
    {
        let v = str_chars(nodes[i].as_str());
        proof { lemma_concat_map_step(nv, i as int, nf); }
        push_d2_quoted(&mut out, v.as_slice());
        push_str(&mut out, ": ");
        push_flattened(&mut out, v.as_slice());
        push_str(&mut out, "\n");
        i = i + 1;
    }
    assert(nv.take(nodes@.len() as int) =~= nv);
    let ghost head = out@;
    let mut k: usize = 0;
    while k < relations.len()
        invariant
            k <= relations@.len(),
            rf == (|r: Relation| d2_relation_lines(r)),
            out@ == head + concat_map(relations@.take(k as int), rf),
        decreases relations@.len() - k,
    {
        let rel = &relations[k];
        let label = str_chars(relation_label(rel));
        let eps = rel.endpoints();
        let ghost ev = eps@.map_values(|e: &ElementId| e.view_id());
        let ghost pairs = edge_pairs(ev);
        let ghost ef = |p: (Seq<char>, Seq<char>)| d2_edge_line(p.0, p.1, label_of(*rel));
        let ghost mid = out@;
        proof { lemma_concat_map_step(relations@, k as int, rf); }
        if eps.len() > 1 {
            let mut j: usize = 0;
            while j < eps.len() - 1
                invariant
                    j + 1 <= eps@.len(),
                    ev == eps@.map_values(|e: &ElementId| e.view_id()),
                    pairs == edge_pairs(ev),
                    label@ == label_of(*rel),
                    ef == (|p: (Seq<char>, Seq<char>)| d2_edge_line(p.0, p.1, label_of(*rel))),
                    out@ == mid + concat_map(pairs.take(j as int), ef),
                decreases eps@.len() - j,
            {
                let s = str_chars(eps[j].as_str());
                let t = str_chars(eps[j + 1].as_str());
                proof { lemma_concat_map_step(pairs, j as int, ef); }
                push_d2_quoted(&mut out, s.as_slice());
                push_str(&mut out, " -> ");
                push_d2_quoted(&mut out, t.as_slice());
                push_str(&mut out, ": ");
                push_flattened(&mut out, label.as_slice());
                push_str(&mut out, "\n");
                j = j + 1;
            }
            assert(pairs.take(j as int) =~= pairs);
        } else {
            assert(pairs.len() == 0);
            assert(pairs =~= Seq::<(Seq<char>, Seq<char>)>::empty());
        }
        assert(endpoints_of(*rel) == ev);
        k = k + 1;
    }
    assert(relations@.take(relations@.len() as int) =~= relations@);
    out
}

// ---------------------------------------------------------------------
// Mermaid
// ---------------------------------------------------------------------

pub open spec fn mermaid_header() -> Seq<char> {
    "%%{ init: { 'theme': 'neutral' } }%%\nflowchart TD\n"@
}

pub open spec fn mermaid_label(s: Seq<char>) -> Seq<char> {
    map_chars(s, |c: char| mermaid_escape_char(c))
}

pub open spec fn mermaid_node_line(idx: nat, id: Seq<char>) -> Seq<char> {
    "    n"@ + decimal(idx) + "[\""@ + mermaid_label(id) + "\"]\n"@
}

pub open spec fn mermaid_edge_line(si: nat, label: Seq<char>, ti: nat) -> Seq<char> {
    "    n"@ + decimal(si) + " -->|"@ + mermaid_label(label) + "| n"@ + decimal(ti) + "\n"@
}

pub open spec fn mermaid_relation_lines(nodes: Seq<Seq<char>>, r: Relation) -> Seq<char> {
    concat_map(
        edge_pairs(endpoints_of(r)),
        |p: (Seq<char>, Seq<char>)| mermaid_edge_line(first_pos(nodes, p.0) as nat, label_of(r), first_pos(nodes, p.1) as nat),
    )
}

/// The Mermaid flowchart for `rels`: header, `n{i}["id"]` per distinct id,
/// then `n{s} -->|label| n{t}` per consecutive endpoint pair.
pub open spec fn to_mermaid_spec(rels: Seq<Relation>) -> Seq<char> {
    let nodes = distinct_nodes_spec(rels);
    mermaid_header()
        + concat_map(Seq::new(nodes.len(), |i: int| (i as nat, nodes[i])), |p: (nat, Seq<char>)| mermaid_node_line(p.0, p.1))
        + concat_map(rels, |r: Relation| mermaid_relation_lines(nodes, r))
}

proof fn lemma_endpoint_in_flat(rels: Seq<Relation>, k: int, j: int)
    requires
        0 <= k < rels.len(),
        0 <= j < endpoints_of(rels[k]).len(),
    ensures
        flat_endpoints(rels).contains(endpoints_of(rels[k])[j]),
    decreases rels.len(),
{
    let x = endpoints_of(rels[k])[j];
    let f = flat_endpoints(rels.drop_last());
    if k == rels.len() - 1 {
        assert(flat_endpoints(rels)[f.len() + j] == x);
    } else {
        assert(rels.drop_last()[k] == rels[k]);
        lemma_endpoint_in_flat(rels.drop_last(), k, j);
        let i = choose|i: int| 0 <= i < f.len() && f[i] == x;
        assert(flat_endpoints(rels)[i] == x);
    }
}

/// Emit a Mermaid flowchart. Element ids become synthetic `n0`, `n1`, …
/// node ids (first-seen order) with the real id as the quoted label.
pub fn to_mermaid(relations: &[Relation]) -> (out: String)
    ensures
        out@ == to_mermaid_spec(relations@),
{
    let nodes = distinct_nodes(relations);
    let ghost nv = ids_view(nodes@);
    proof {
        lemma_add_distinct_unique(Seq::<Seq<char>>::empty(), flat_endpoints(relations@));
    }
    let ghost indexed = Seq::new(nv.len(), |i: int| (i as nat, nv[i]));
    let ghost nf = |p: (nat, Seq<char>)| mermaid_node_line(p.0, p.1);
    let ghost rf = |r: Relation| mermaid_relation_lines(nv, r);
    let mut out = String::new();
    push_str(&mut out, "%%{ init: { 'theme': 'neutral' } }%%\nflowchart TD\n");
    let ghost head0 = out@;
    let mut i: usize = 0;
    while i < nodes.len()
        invariant
            i <= nodes@.len(),
            nv == ids_view(nodes@),
            indexed == Seq::new(nv.len(), |i: int| (i as nat, nv[i])),
            nf == (|p: (nat, Seq<char>)| mermaid_node_line(p.0, p.1)),
            out@ == head0 + concat_map(indexed.take(i as int), nf),
        decreases nodes@.len() - i,
    {
        let v = str_chars(nodes[i].as_str());
        proof { lemma_concat_map_step(indexed, i as int, nf); }
        push_str(&mut out, "    n");
        push_decimal(&mut out, i as u64);
        push_str(&mut out, "[\"");
        push_mermaid_escaped(&mut out, v.as_slice());
        push_str(&mut out, "\"]\n");
        i = i + 1;
    }
    assert(indexed.take(nodes@.len() as int) =~= indexed);
    let ghost head = out@;
    let mut k: usize = 0;
    while k < relations.len()
        invariant
            k <= relations@.len(),
            nv == ids_view(nodes@),
            nv == distinct_nodes_spec(relations@),
            forall|x: Seq<char>| #[trigger] nv.contains(x) <==> flat_endpoints(relations@).contains(x),
            rf == (|r: Relation| mermaid_relation_lines(nv, r)),
            out@ == head + concat_map(relations@.take(k as int), rf),
        decreases relations@.len() - k,
    {
        let rel = &relations[k];
        let label = str_chars(relation_label(rel));
        let eps = rel.endpoints();
        let ghost ev = eps@.map_values(|e: &ElementId| e.view_id());
        let ghost pairs = edge_pairs(ev);
        let ghost ef = |p: (Seq<char>, Seq<char>)| mermaid_edge_line(first_pos(nv, p.0) as nat, label_of(*rel), first_pos(nv, p.1) as nat);
        let ghost mid = out@;
        proof { lemma_concat_map_step(relations@, k as int, rf); }
        if eps.len() > 1 {
            let mut j: usize = 0;
            while j < eps.len() - 1
                invariant
                    j + 1 <= eps@.len(),
                    k < relations@.len(),
                    rel == &relations@[k as int],
                    ev == eps@.map_values(|e: &ElementId| e.view_id()),
                    ev == endpoints_of(*rel),
                    pairs == edge_pairs(ev),
                    label@ == label_of(*rel),
                    nv == ids_view(nodes@),
                    forall|x: Seq<char>| #[trigger] nv.contains(x) <==> flat_endpoints(relations@).contains(x),
                    ef == (|p: (Seq<char>, Seq<char>)| mermaid_edge_line(first_pos(nv, p.0) as nat, label_of(*rel), first_pos(nv, p.1) as nat)),
                    out@ == mid + concat_map(pairs.take(j as int), ef),
                decreases eps@.len() - j,
            {
                proof {
                    lemma_concat_map_step(pairs, j as int, ef);
                    lemma_endpoint_in_flat(relations@, k as int, j as int);
                    lemma_endpoint_in_flat(relations@, k as int, j as int + 1);
                    lemma_first_pos(nv, ev[j as int]);
                    lemma_first_pos(nv, ev[j as int + 1]);
                }
                let si = find_id(&nodes, eps[j]);
                let ti = find_id(&nodes, eps[j + 1]);
                let (s_idx, t_idx) = match (si, ti) {
                    (Some(a), Some(b)) => (a, b),
                    _ => {
                        proof {
                            assert(nv.contains(ev[j as int]));
                            assert(nv.contains(ev[j as int + 1]));
                        }
                        (0, 0)
                    }
                };
                push_str(&mut out, "    n");
                push_decimal(&mut out, s_idx as u64);
                push_str(&mut out, " -->|");
                push_mermaid_escaped(&mut out, label.as_slice());
                push_str(&mut out, "| n");
                push_decimal(&mut out, t_idx as u64);
                push_str(&mut out, "\n");
                j = j + 1;
            }
            assert(pairs.take(j as int) =~= pairs);
        } else {
            assert(pairs =~= Seq::<(Seq<char>, Seq<char>)>::empty());
        }
        k = k + 1;
    }
    assert(relations@.take(relations@.len() as int) =~= relations@);
    out
}

} // verus!

verus! {

/// Law: the emitted node set is exactly the set of relation endpoints, each
/// declared once.
pub proof fn law_nodes_declared_once(rels: Seq<Relation>)
    ensures
        distinct_nodes_spec(rels).no_duplicates(),
        forall|x: Seq<char>| #[trigger] distinct_nodes_spec(rels).contains(x) <==> flat_endpoints(rels).contains(x),
{
    lemma_add_distinct_unique(Seq::<Seq<char>>::empty(), flat_endpoints(rels));
}

/// Distinct kinds of KerML relationship are drawn with distinct labels:
/// two relations that are not `Domain` relations carry the same edge label
/// exactly when they are the same kind of relation.
pub proof fn law_relation_labels_distinguish_kinds(a: Relation, b: Relation)
    requires
        !(a is Domain),
        !(b is Domain),
    ensures
        label_of(a) == label_of(b) <==> relation_tag(a) == relation_tag(b),
{
    reveal_strlit("feature_membership");
    reveal_strlit("specialization");
    reveal_strlit("subsetting");
    reveal_strlit("redefinition");
    reveal_strlit("connection");
    reveal_strlit("succession");
    reveal_strlit("allocation");
    reveal_strlit("satisfy");
    reveal_strlit("verify");
    reveal_strlit("refine");
    reveal_strlit("dependency");
    assert("feature_membership"@[0] != "specialization"@[0]);
    assert("feature_membership"@[0] != "subsetting"@[0]);
    assert("feature_membership"@[0] != "redefinition"@[0]);
    assert("feature_membership"@[0] != "connection"@[0]);
    assert("feature_membership"@[0] != "succession"@[0]);
    assert("feature_membership"@[0] != "allocation"@[0]);
    assert("feature_membership"@[0] != "satisfy"@[0]);
    assert("feature_membership"@[0] != "verify"@[0]);
    assert("feature_membership"@[0] != "refine"@[0]);
    assert("feature_membership"@[0] != "dependency"@[0]);
    assert("specialization"@[1] != "subsetting"@[1]);
    assert("specialization"@[0] != "redefinition"@[0]);
    assert("specialization"@[0] != "connection"@[0]);
    assert("specialization"@[1] != "succession"@[1]);
    assert("specialization"@[0] != "allocation"@[0]);
    assert("specialization"@[1] != "satisfy"@[1]);
    assert("specialization"@[0] != "verify"@[0]);
    assert("specialization"@[0] != "refine"@[0]);
    assert("specialization"@[0] != "dependency"@[0]);
    assert("subsetting"@[0] != "redefinition"@[0]);
    assert("subsetting"@[0] != "connection"@[0]);
    assert("subsetting"@[2] != "succession"@[2]);
    assert("subsetting"@[0] != "allocation"@[0]);
    assert("subsetting"@[1] != "satisfy"@[1]);
    assert("subsetting"@[0] != "verify"@[0]);
    assert("subsetting"@[0] != "refine"@[0]);
    assert("subsetting"@[0] != "dependency"@[0]);
    assert("redefinition"@[0] != "connection"@[0]);
    assert("redefinition"@[0] != "succession"@[0]);
    assert("redefinition"@[0] != "allocation"@[0]);
    assert("redefinition"@[0] != "satisfy"@[0]);
    assert("redefinition"@[0] != "verify"@[0]);
    assert("redefinition"@[2] != "refine"@[2]);
    assert("redefinition"@[0] != "dependency"@[0]);
    assert("connection"@[0] != "succession"@[0]);
    assert("connection"@[0] != "allocation"@[0]);
    assert("connection"@[0] != "satisfy"@[0]);
    assert("connection"@[0] != "verify"@[0]);
    assert("connection"@[0] != "refine"@[0]);
    assert("connection"@[0] != "dependency"@[0]);
    assert("succession"@[0] != "allocation"@[0]);
    assert("succession"@[1] != "satisfy"@[1]);
    assert("succession"@[0] != "verify"@[0]);
    assert("succession"@[0] != "refine"@[0]);
    assert("succession"@[0] != "dependency"@[0]);
    assert("allocation"@[0] != "satisfy"@[0]);
    assert("allocation"@[0] != "verify"@[0]);
    assert("allocation"@[0] != "refine"@[0]);
    assert("allocation"@[0] != "dependency"@[0]);
    assert("satisfy"@[0] != "verify"@[0]);
    assert("satisfy"@[0] != "refine"@[0]);
    assert("satisfy"@[0] != "dependency"@[0]);
    assert("verify"@[0] != "refine"@[0]);
    assert("verify"@[0] != "dependency"@[0]);
    assert("refine"@[0] != "dependency"@[0]);
}

/// The label of a lifted edge names the UFO relation it came from: a
/// `Domain` edge carries the relation's canonical name, and a lifted
/// `satisfies` / `verifies` edge is drawn as `satisfy` / `verify`, the verb
/// whose third person is that canonical name (`satisf|y` / `satisf|ies`).
pub proof fn law_lifted_labels_name_the_ufo_relation(
    lifted: Relation,
    view: SysmlViewKind,
    u: UfoRelation,
    source: Seq<char>,
    target: Seq<char>,
)
    requires
        is_lift_of(lifted, view, u, source, target),
    ensures
        lifted is Domain ==> label_of(lifted) == canonical_name_of(u),
        (u == UfoRelation::Satisfies || u == UfoRelation::Verifies)
            ==> label_of(lifted).len() > 0 && label_of(lifted).drop_last() + "ies"@ == canonical_name_of(u),
{
    reveal_strlit("satisfy");
    reveal_strlit("verify");
    reveal_strlit("satisfies");
    reveal_strlit("verifies");
    reveal_strlit("ies");
    if u == UfoRelation::Satisfies {
        assert("satisfy"@.drop_last() + "ies"@ =~= "satisfies"@);
    }
    if u == UfoRelation::Verifies {
        assert("verify"@.drop_last() + "ies"@ =~= "verifies"@);
    }
}

} // verus!
