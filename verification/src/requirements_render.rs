//! D2 lowering of an already-induced requirements view: one node per
//! requirement or evidence id (in id order, the last label given for an id
//! winning), then one edge per relation, labelled with its kind and
//! authority.
use vstd::prelude::*;

use crate::b00t_graph::{d2_label_spec, d2_quote_spec, push_d2_label, push_d2_quoted};
use crate::reqif_adapter::{relation_kind_spec, RequirementRelationKind};
use crate::text::ascii_lower;
use crate::text::{concat_map, lemma_concat_map_step, push_str, str_chars};

verus! {

/// A requirement of the view: its id and title.
#[derive(Debug, Clone)]
pub struct ViewRequirement {
    pub id: String,
    pub title: String,
}

/// An evidence item of the view: its id and label.
#[derive(Debug, Clone)]
pub struct ViewEvidence {
    pub id: String,
    pub label: String,
}

/// Who stands behind a relation.
#[derive(Debug, Clone, Copy, PartialEq, Eq, Structural)]
pub enum RelationAuthority {
    Asserted,
    Inferred,
    Proposed,
}

/// A relation of the view.
#[derive(Debug, Clone)]
pub struct ViewRelation {
    pub source: String,
    pub target: String,
    pub kind: RequirementRelationKind,
    pub authority: RelationAuthority,
}

/// The graph of an induced view.
#[derive(Debug, Clone)]
pub struct ViewGraph {
    pub requirements: Vec<ViewRequirement>,
    pub evidence: Vec<ViewEvidence>,
    pub relations: Vec<ViewRelation>,
}

/// An induced requirements view.
#[derive(Debug, Clone)]
pub struct ViewResult {
    pub graph: ViewGraph,
}

// ---------------------------------------------------------------------
// Ordering of ids
// ---------------------------------------------------------------------

/// Lexicographic order of character sequences (the order of `str`).
pub open spec fn lex_lt(a: Seq<char>, b: Seq<char>) -> bool
    decreases a.len(),
{
    if a.len() == 0 {
        b.len() > 0
    } else if b.len() == 0 {
        false
    } else if a[0] != b[0] {
        a[0] < b[0]
    } else {
        lex_lt(a.drop_first(), b.drop_first())
    }
}

pub proof fn lemma_lex_irreflexive(a: Seq<char>)
    ensures
        !lex_lt(a, a),
    decreases a.len(),
{
    if a.len() > 0 {
        lemma_lex_irreflexive(a.drop_first());
    }
}

pub proof fn lemma_lex_asymmetric(a: Seq<char>, b: Seq<char>)
    ensures
        !(lex_lt(a, b) && lex_lt(b, a)),
    decreases a.len(),
{
    if a.len() > 0 && b.len() > 0 && a[0] == b[0] {
        lemma_lex_asymmetric(a.drop_first(), b.drop_first());
    }
}

pub proof fn lemma_lex_transitive(a: Seq<char>, b: Seq<char>, c: Seq<char>)
    requires
        lex_lt(a, b),
        lex_lt(b, c),
    ensures
        lex_lt(a, c),
    decreases a.len(),
{
    if a.len() > 0 && b.len() > 0 && c.len() > 0 && a[0] == b[0] && b[0] == c[0] {
        lemma_lex_transitive(a.drop_first(), b.drop_first(), c.drop_first());
    }
}

pub proof fn lemma_lex_total(a: Seq<char>, b: Seq<char>)
    ensures
        a != b ==> lex_lt(a, b) || lex_lt(b, a),
    decreases a.len(),
{
    if a.len() > 0 && b.len() > 0 && a[0] == b[0] {
        lemma_lex_total(a.drop_first(), b.drop_first());
        if a.drop_first() == b.drop_first() {
            assert(a =~= seq![a[0]] + a.drop_first());
            assert(b =~= seq![b[0]] + b.drop_first());
        }
    } else if a.len() == 0 && b.len() == 0 {
        assert(a =~= b);
    }
}

/// `a` before `b`, computed.
pub fn lex_less(a: &[char], b: &[char]) -> (r: bool)
    ensures
        r == lex_lt(a@, b@),
{
    let mut i: usize = 0;
    assert(a@.skip(0) =~= a@);
    assert(b@.skip(0) =~= b@);
    while i < a.len() && i < b.len() && a[i] == b[i]
        invariant
            i <= a@.len(),
            i <= b@.len(),
            lex_lt(a@, b@) == lex_lt(a@.skip(i as int), b@.skip(i as int)),
        decreases a@.len() - i,
    {
        assert(a@.skip(i as int).drop_first() =~= a@.skip(i + 1));
        assert(b@.skip(i as int).drop_first() =~= b@.skip(i + 1));
        i = i + 1;
    }
    if i == a.len() {
        i < b.len()
    } else if i == b.len() {
        false
    } else {
        a[i] < b[i]
    }
}

// ---------------------------------------------------------------------
// The label table
// ---------------------------------------------------------------------

/// Every (id, label) assignment of the view, requirements then evidence.
pub open spec fn assignments(view: ViewResult) -> Seq<(Seq<char>, Seq<char>)> {
    view.graph.requirements@.map_values(|r: ViewRequirement| (r.id@, r.title@))
        + view.graph.evidence@.map_values(|e: ViewEvidence| (e.id@, e.label@))
}

/// Whether some assignment names `id`.
pub open spec fn assigns(a: Seq<(Seq<char>, Seq<char>)>, id: Seq<char>) -> bool {
    exists|k: int| 0 <= k < a.len() && a[k].0 == id
}

/// The label of the last assignment to `id`.
pub open spec fn last_label(a: Seq<(Seq<char>, Seq<char>)>, id: Seq<char>) -> Seq<char>
    decreases a.len(),
{
    if a.len() == 0 {
        Seq::empty()
    } else if a.last().0 == id {
        a.last().1
    } else {
        last_label(a.drop_last(), id)
    }
}

/// `table` lists every assigned id once, in strictly increasing order,
/// each with the last label assigned to it.
pub open spec fn is_label_table(a: Seq<(Seq<char>, Seq<char>)>, table: Seq<(Seq<char>, Seq<char>)>) -> bool {
    &&& forall|i: int, j: int| 0 <= i < j < table.len() ==> lex_lt(#[trigger] table[i].0, #[trigger] table[j].0)
    &&& forall|id: Seq<char>| assigns(a, id) <==> assigns(table, id)
    &&& forall|i: int| 0 <= i < table.len() ==> (#[trigger] table[i]).1 == last_label(a, table[i].0)
}

pub open spec fn table_view(t: Seq<(Vec<char>, Vec<char>)>) -> Seq<(Seq<char>, Seq<char>)> {
    t.map_values(|p: (Vec<char>, Vec<char>)| (p.0@, p.1@))
}

/// Inserts or overwrites `(id, label)` in the sorted `table`.
pub(crate) fn upsert(table: &mut Vec<(Vec<char>, Vec<char>)>, id: Vec<char>, label: Vec<char>, Ghost(a): Ghost<Seq<(Seq<char>, Seq<char>)>>)
    requires
        is_label_table(a, table_view(old(table)@)),
    ensures
        is_label_table(a.push((id@, label@)), table_view(final(table)@)),
{
    let ghost a2 = a.push((id@, label@));
    let ghost t0 = table_view(table@);
    let mut p: usize = 0;
    while p < table.len() && lex_less(table[p].0.as_slice(), id.as_slice())
        invariant
            p <= table@.len(),
            t0 == table_view(table@),
            forall|k: int| 0 <= k < p ==> lex_lt(#[trigger] t0[k].0, id@),
        decreases table@.len() - p,
    {
        p = p + 1;
    }
    proof {
        assert forall|id2: Seq<char>| assigns(a2, id2) <==> (assigns(a, id2) || id2 == id@) by {
            if assigns(a2, id2) {
                let k = choose|k: int| 0 <= k < a2.len() && a2[k].0 == id2;
                if k < a.len() {
                    assert(a[k].0 == id2);
                }
            }
            if assigns(a, id2) {
                let k = choose|k: int| 0 <= k < a.len() && a[k].0 == id2;
                assert(a2[k].0 == id2);
            }
            if id2 == id@ {
                assert(a2[a.len() as int].0 == id2);
            }
        }
        assert forall|id2: Seq<char>| id2 != id@ implies last_label(a2, id2) == last_label(a, id2) by {
            assert(a2.drop_last() =~= a);
        }
        assert(last_label(a2, id@) == label@) by {
            assert(a2.last() == (id@, label@));
        }
    }
    if p < table.len() && crate::text::chars_eq(table[p].0.as_slice(), id.as_slice()) {
        let ghost old_t = table_view(table@);
        assert(old_t[p as int].0 == id@);
        assert(assigns(old_t, id@));
        table.set(p, (id, label));
        proof {
            let t = table_view(table@);
            assert(t =~= old_t.update(p as int, (id@, label@)));
            assert forall|i: int, j: int| 0 <= i < j < t.len() implies lex_lt(#[trigger] t[i].0, #[trigger] t[j].0) by {
                assert(t[i].0 == old_t[i].0);
                assert(t[j].0 == old_t[j].0);
            }
            assert forall|id2: Seq<char>| assigns(a2, id2) <==> assigns(t, id2) by {
                if assigns(t, id2) {
                    let k = choose|k: int| 0 <= k < t.len() && t[k].0 == id2;
                    assert(old_t[k].0 == id2);
                }
                if assigns(old_t, id2) {
                    let k = choose|k: int| 0 <= k < old_t.len() && old_t[k].0 == id2;
                    assert(t[k].0 == id2);
                }
            }
            assert forall|i: int| 0 <= i < t.len() implies (#[trigger] t[i]).1 == last_label(a2, t[i].0) by {
                if i != p {
                    assert(t[i] == old_t[i]);
                    assert(old_t[i].0 != id@) by {
                        if i < p {
                            lemma_lex_irreflexive(id@);
                        } else {
                            lemma_lex_irreflexive(old_t[p as int].0);
                        }
                    }
                }
            }
        }
    } else {
        let ghost old_t = table_view(table@);
        table.insert(p, (id, label));
        proof {
            let t = table_view(table@);
            assert(t =~= old_t.insert(p as int, (id@, label@)));
            if p < old_t.len() {
                lemma_lex_total(old_t[p as int].0, id@);
                assert(lex_lt(id@, old_t[p as int].0));
            }
            assert forall|i: int, j: int| 0 <= i < j < t.len() implies lex_lt(#[trigger] t[i].0, #[trigger] t[j].0) by {
                if j < p {
                } else if i < p && j == p {
                } else if i < p && j > p {
                    assert(t[j] == old_t[j - 1]);
                    if j - 1 > p {
                        lemma_lex_transitive(id@, old_t[p as int].0, old_t[j - 1].0);
                    }
                    assert(lex_lt(id@, t[j].0));
                    assert(t[i] == old_t[i]);
                    lemma_lex_transitive(t[i].0, id@, t[j].0);
                } else if i == p {
                    assert(t[j] == old_t[j - 1]);
                    if j - 1 > p {
                        lemma_lex_transitive(id@, old_t[p as int].0, old_t[j - 1].0);
                    }
                } else {
                    assert(t[i] == old_t[i - 1]);
                    assert(t[j] == old_t[j - 1]);
                }
            }
            assert forall|id2: Seq<char>| assigns(a2, id2) <==> assigns(t, id2) by {
                if assigns(t, id2) {
                    let k = choose|k: int| 0 <= k < t.len() && t[k].0 == id2;
                    if k < p {
                        assert(old_t[k].0 == id2);
                    } else if k > p {
                        assert(old_t[k - 1].0 == id2);
                    }
                }
                if assigns(old_t, id2) {
                    let k = choose|k: int| 0 <= k < old_t.len() && old_t[k].0 == id2;
                    if k < p {
                        assert(t[k].0 == id2);
                    } else {
                        assert(t[k + 1].0 == id2);
                    }
                }
                if id2 == id@ {
                    assert(t[p as int].0 == id2);
                }
            }
            assert forall|i: int| 0 <= i < t.len() implies (#[trigger] t[i]).1 == last_label(a2, t[i].0) by {
                if i < p {
                    assert(t[i] == old_t[i]);
                    assert(old_t[i].0 != id@) by {
                        lemma_lex_irreflexive(id@);
                    }
                } else if i > p {
                    assert(t[i] == old_t[i - 1]);
                    assert(old_t[i - 1].0 != id@) by {
                        if i - 1 == p {
                            lemma_lex_irreflexive(id@);
                        } else {
                            lemma_lex_transitive(id@, old_t[p as int].0, old_t[i - 1].0);
                            lemma_lex_irreflexive(id@);
                        }
                    }
                }
            }
        }
    }
}

/// Two label tables of the same assignments are the same table: the table
/// is determined by the view.
pub proof fn law_label_table_unique(
    a: Seq<(Seq<char>, Seq<char>)>,
    t1: Seq<(Seq<char>, Seq<char>)>,
    t2: Seq<(Seq<char>, Seq<char>)>,
)
    requires
        is_label_table(a, t1),
        is_label_table(a, t2),
    ensures
        t1 == t2,
{
    lemma_sorted_same_keys(t1, t2);
    assert(t1 =~= t2);
}

pub proof fn lemma_sorted_same_keys(t1: Seq<(Seq<char>, Seq<char>)>, t2: Seq<(Seq<char>, Seq<char>)>)
    requires
        forall|i: int, j: int| 0 <= i < j < t1.len() ==> lex_lt(#[trigger] t1[i].0, #[trigger] t1[j].0),
        forall|i: int, j: int| 0 <= i < j < t2.len() ==> lex_lt(#[trigger] t2[i].0, #[trigger] t2[j].0),
        forall|id: Seq<char>| assigns(t1, id) <==> assigns(t2, id),
    ensures
        t1.len() == t2.len(),
        forall|i: int| 0 <= i < t1.len() ==> #[trigger] t1[i].0 == t2[i].0,
    decreases t1.len() + t2.len(),
{
    if t1.len() == 0 {
        if t2.len() > 0 {
            assert(assigns(t2, t2[0].0));
        }
    } else if t2.len() == 0 {
        assert(assigns(t1, t1[0].0));
    } else {
        let k1 = t1[0].0;
        let k2 = t2[0].0;
        assert(assigns(t1, k1));
        assert(assigns(t2, k2));
        let j = choose|j: int| 0 <= j < t2.len() && t2[j].0 == k1;
        let i = choose|i: int| 0 <= i < t1.len() && t1[i].0 == k2;
        if j > 0 && i > 0 {
            assert(lex_lt(k2, k1));
            assert(lex_lt(k1, k2));
            lemma_lex_asymmetric(k1, k2);
        }
        assert(k1 == k2);
        let r1 = t1.drop_first();
        let r2 = t2.drop_first();
        assert forall|id: Seq<char>| assigns(r1, id) <==> assigns(r2, id) by {
            if assigns(r1, id) {
                let k = choose|k: int| 0 <= k < r1.len() && r1[k].0 == id;
                assert(t1[k + 1].0 == id);
                assert(lex_lt(k1, id));
                lemma_lex_irreflexive(k1);
                assert(assigns(t1, id));
                assert(assigns(t2, id));
                let m = choose|m: int| 0 <= m < t2.len() && t2[m].0 == id;
                assert(m != 0);
                assert(r2[m - 1].0 == id);
            }
            if assigns(r2, id) {
                let k = choose|k: int| 0 <= k < r2.len() && r2[k].0 == id;
                assert(t2[k + 1].0 == id);
                assert(lex_lt(k2, id));
                lemma_lex_irreflexive(k2);
                assert(assigns(t2, id));
                assert(assigns(t1, id));
                let m = choose|m: int| 0 <= m < t1.len() && t1[m].0 == id;
                assert(m != 0);
                assert(r1[m - 1].0 == id);
            }
        }
        assert forall|x: int, y: int| 0 <= x < y < r1.len() implies lex_lt(#[trigger] r1[x].0, #[trigger] r1[y].0) by {
            assert(r1[x] == t1[x + 1]);
            assert(r1[y] == t1[y + 1]);
        }
        assert forall|x: int, y: int| 0 <= x < y < r2.len() implies lex_lt(#[trigger] r2[x].0, #[trigger] r2[y].0) by {
            assert(r2[x] == t2[x + 1]);
            assert(r2[y] == t2[y + 1]);
        }
        lemma_sorted_same_keys(r1, r2);
        assert forall|x: int| 0 <= x < t1.len() implies #[trigger] t1[x].0 == t2[x].0 by {
            if x > 0 {
                assert(r1[x - 1].0 == r2[x - 1].0);
            }
        }
    }
}

// ---------------------------------------------------------------------
// D2
// ---------------------------------------------------------------------

/// The name a relation kind prints as (its `Debug` form).
pub open spec fn kind_name(k: RequirementRelationKind) -> Seq<char> {
    match k {
        RequirementRelationKind::Contains => "Contains"@,
        RequirementRelationKind::Derives => "Derives"@,
        RequirementRelationKind::Refines => "Refines"@,
        RequirementRelationKind::Requires => "Requires"@,
        RequirementRelationKind::Satisfies => "Satisfies"@,
        RequirementRelationKind::Verifies => "Verifies"@,
        RequirementRelationKind::Implements => "Implements"@,
        RequirementRelationKind::Traces => "Traces"@,
        RequirementRelationKind::AllocatedTo => "AllocatedTo"@,
        RequirementRelationKind::Precedes => "Precedes"@,
    }
}

fn kind_str(k: RequirementRelationKind) -> (r: &'static str)
    ensures
        r@ == kind_name(k),
{
    match k {
        RequirementRelationKind::Contains => "Contains",
        RequirementRelationKind::Derives => "Derives",
        RequirementRelationKind::Refines => "Refines",
        RequirementRelationKind::Requires => "Requires",
        RequirementRelationKind::Satisfies => "Satisfies",
        RequirementRelationKind::Verifies => "Verifies",
        RequirementRelationKind::Implements => "Implements",
        RequirementRelationKind::Traces => "Traces",
        RequirementRelationKind::AllocatedTo => "AllocatedTo",
        RequirementRelationKind::Precedes => "Precedes",
    }
}

pub open spec fn authority_name(a: RelationAuthority) -> Seq<char> {
    match a {
        RelationAuthority::Asserted => "asserted"@,
        RelationAuthority::Inferred => "inferred"@,
        RelationAuthority::Proposed => "proposed"@,
    }
}

fn authority_str(a: RelationAuthority) -> (r: &'static str)
    ensures
        r@ == authority_name(a),
{
    match a {
        RelationAuthority::Asserted => "asserted",
        RelationAuthority::Inferred => "inferred",
        RelationAuthority::Proposed => "proposed",
    }
}

pub open spec fn node_line(entry: (Seq<char>, Seq<char>)) -> Seq<char> {
    d2_quote_spec(entry.0) + ": "@ + d2_label_spec(entry.1) + "\n"@
}

pub open spec fn edge_line(r: ViewRelation) -> Seq<char> {
    d2_quote_spec(r.source@) + " -> "@ + d2_quote_spec(r.target@) + ": "@ + kind_name(r.kind) + " ("@
        + authority_name(r.authority) + ")\n"@
}

/// The D2 text of a view, given its label table.
pub open spec fn d2_spec(view: ViewResult, table: Seq<(Seq<char>, Seq<char>)>) -> Seq<char> {
    concat_map(table, |e: (Seq<char>, Seq<char>)| node_line(e))
        + concat_map(view.graph.relations@, |r: ViewRelation| edge_line(r))
}

fn push_edge_line(out: &mut String, r: &ViewRelation)
    ensures
        final(out)@ == old(out)@ + edge_line(*r),
{
    let s = owned_chars(r.source.as_str());
    let t = owned_chars(r.target.as_str());
    push_d2_quoted(out, s.as_slice());
    push_str(out, " -> ");
    push_d2_quoted(out, t.as_slice());
    push_str(out, ": ");
    push_str(out, kind_str(r.kind));
    push_str(out, " (");
    push_str(out, authority_str(r.authority));
    push_str(out, ")\n");
    assert(out@ =~= old(out)@ + edge_line(*r));
}

fn owned_chars(s: &str) -> (r: Vec<char>)
    ensures
        r@ == s@,
{
    str_chars(s)
}

/// Deterministically lowers an induced requirement view to D2: each id
/// once, in increasing id order, labelled with the last title or label
/// given for it, then every relation as `source -> target: Kind (authority)`.
pub fn to_d2(view: &ViewResult) -> (out: String)
    ensures
        exists|table: Seq<(Seq<char>, Seq<char>)>| is_label_table(assignments(*view), table) && out@ == d2_spec(*view, table),
{
    let ghost a = assignments(*view);
    let reqs = &view.graph.requirements;
    let evs = &view.graph.evidence;
    let ghost ra = reqs@.map_values(|r: ViewRequirement| (r.id@, r.title@));
    let ghost ea = evs@.map_values(|e: ViewEvidence| (e.id@, e.label@));
    let mut table: Vec<(Vec<char>, Vec<char>)> = Vec::new();
    let mut i: usize = 0;
    while i < reqs.len()
        invariant
            i <= reqs@.len(),
            ra == reqs@.map_values(|r: ViewRequirement| (r.id@, r.title@)),
            is_label_table(ra.take(i as int), table_view(table@)),
        decreases reqs@.len() - i,
    {
        let id = owned_chars(reqs[i].id.as_str());
        let label = owned_chars(reqs[i].title.as_str());
        upsert(&mut table, id, label, Ghost(ra.take(i as int)));
        assert(ra.take(i as int).push((id@, label@)) =~= ra.take(i + 1));
        i = i + 1;
    }
    assert(ra.take(reqs@.len() as int) =~= ra);
    let mut k: usize = 0;
    while k < evs.len()
        invariant
            k <= evs@.len(),
            ea == evs@.map_values(|e: ViewEvidence| (e.id@, e.label@)),
            is_label_table(ra + ea.take(k as int), table_view(table@)),
        decreases evs@.len() - k,
    {
        let id = owned_chars(evs[k].id.as_str());
        let label = owned_chars(evs[k].label.as_str());
        upsert(&mut table, id, label, Ghost(ra + ea.take(k as int)));
        assert((ra + ea.take(k as int)).push((id@, label@)) =~= ra + ea.take(k + 1));
        k = k + 1;
    }
    assert(ra + ea.take(evs@.len() as int) =~= a);
    let ghost tv = table_view(table@);
    let ghost nf = |e: (Seq<char>, Seq<char>)| node_line(e);
    let mut out = String::new();
    let mut j: usize = 0;
    while j < table.len()
        invariant
            j <= table@.len(),
            tv == table_view(table@),
            nf == (|e: (Seq<char>, Seq<char>)| node_line(e)),
            out@ == concat_map(tv.take(j as int), nf),
        decreases table@.len() - j,
    {
        proof { lemma_concat_map_step(tv, j as int, nf); }
        push_d2_quoted(&mut out, table[j].0.as_slice());
        push_str(&mut out, ": ");
        push_d2_label(&mut out, table[j].1.as_slice());
        push_str(&mut out, "\n");
        j = j + 1;
    }
    assert(tv.take(table@.len() as int) =~= tv);
    let ghost head = out@;
    let rels = &view.graph.relations;
    let ghost ef = |r: ViewRelation| edge_line(r);
    let mut m: usize = 0;
    while m < rels.len()
        invariant
            m <= rels@.len(),
            ef == (|r: ViewRelation| edge_line(r)),
            out@ == head + concat_map(rels@.take(m as int), ef),
        decreases rels@.len() - m,
    {
        proof { lemma_concat_map_step(rels@, m as int, ef); }
        push_edge_line(&mut out, &rels[m]);
        m = m + 1;
    }
    assert(rels@.take(rels@.len() as int) =~= rels@);
    assert(out@ == d2_spec(*view, tv));
    out
}

/// The kind text of an edge line names its own kind: read back through the
/// ReqIF adapter's relation vocabulary (lowercased), it gives the same kind.
/// So no two kinds print alike, and a line never shows one kind's name for
/// another's relation.
pub proof fn law_kind_text_reads_back(k: RequirementRelationKind)
    ensures
        relation_kind_spec(ascii_lower(kind_name(k))) == Some(k),
{
    reveal_strlit("contains");
    reveal_strlit("derives");
    reveal_strlit("derive");
    reveal_strlit("derived_from");
    reveal_strlit("refines");
    reveal_strlit("requires");
    reveal_strlit("satisfies");
    reveal_strlit("verifies");
    reveal_strlit("implements");
    reveal_strlit("traces");
    reveal_strlit("allocated_to");
    reveal_strlit("allocatedto");
    reveal_strlit("precedes");
    match k {
        RequirementRelationKind::Contains => {
            reveal_strlit("Contains");
            reveal_strlit("contains");
            assert(ascii_lower(kind_name(k)) =~= "contains"@);
            assert(relation_kind_spec("contains"@) == Some(RequirementRelationKind::Contains));
            assert(relation_kind_spec(ascii_lower(kind_name(k))) == Some(RequirementRelationKind::Contains));
            assert(k == RequirementRelationKind::Contains);
        },
        RequirementRelationKind::Derives => {
            reveal_strlit("Derives");
            reveal_strlit("derives");
            assert(ascii_lower(kind_name(k)) =~= "derives"@);
            assert("derives"@[0] != "contains"@[0]);
            assert(relation_kind_spec("derives"@) == Some(RequirementRelationKind::Derives));
        },
        RequirementRelationKind::Refines => {
            reveal_strlit("Refines");
            reveal_strlit("refines");
            assert(ascii_lower(kind_name(k)) =~= "refines"@);
            assert("refines"@[0] != "contains"@[0]);
            assert("refines"@[0] != "derives"@[0]);
            assert("refines"@[0] != "derive"@[0]);
            assert("refines"@[0] != "derived_from"@[0]);
            assert(relation_kind_spec("refines"@) == Some(RequirementRelationKind::Refines));
        },
        RequirementRelationKind::Requires => {
            reveal_strlit("Requires");
            reveal_strlit("requires");
            assert(ascii_lower(kind_name(k)) =~= "requires"@);
            assert("requires"@[0] != "contains"@[0]);
            assert("requires"@[0] != "derives"@[0]);
            assert("requires"@[0] != "derive"@[0]);
            assert("requires"@[0] != "derived_from"@[0]);
            assert("requires"@[2] != "refines"@[2]);
            assert(relation_kind_spec("requires"@) == Some(RequirementRelationKind::Requires));
        },
        RequirementRelationKind::Satisfies => {
            reveal_strlit("Satisfies");
            reveal_strlit("satisfies");
            assert(ascii_lower(kind_name(k)) =~= "satisfies"@);
            assert("satisfies"@[0] != "contains"@[0]);
            assert("satisfies"@[0] != "derives"@[0]);
            assert("satisfies"@[0] != "derive"@[0]);
            assert("satisfies"@[0] != "derived_from"@[0]);
            assert("satisfies"@[0] != "refines"@[0]);
            assert("satisfies"@[0] != "requires"@[0]);
            assert(relation_kind_spec("satisfies"@) == Some(RequirementRelationKind::Satisfies));
        },
        RequirementRelationKind::Verifies => {
            reveal_strlit("Verifies");
            reveal_strlit("verifies");
            assert(ascii_lower(kind_name(k)) =~= "verifies"@);
            assert("verifies"@[0] != "contains"@[0]);
            assert("verifies"@[0] != "derives"@[0]);
            assert("verifies"@[0] != "derive"@[0]);
            assert("verifies"@[0] != "derived_from"@[0]);
            assert("verifies"@[0] != "refines"@[0]);
            assert("verifies"@[0] != "requires"@[0]);
            assert("verifies"@[0] != "satisfies"@[0]);
            assert(relation_kind_spec("verifies"@) == Some(RequirementRelationKind::Verifies));
        },
        RequirementRelationKind::Implements => {
            reveal_strlit("Implements");
            reveal_strlit("implements");
            assert(ascii_lower(kind_name(k)) =~= "implements"@);
            assert("implements"@[0] != "contains"@[0]);
            assert("implements"@[0] != "derives"@[0]);
            assert("implements"@[0] != "derive"@[0]);
            assert("implements"@[0] != "derived_from"@[0]);
            assert("implements"@[0] != "refines"@[0]);
            assert("implements"@[0] != "requires"@[0]);
            assert("implements"@[0] != "satisfies"@[0]);
            assert("implements"@[0] != "verifies"@[0]);
            assert(relation_kind_spec("implements"@) == Some(RequirementRelationKind::Implements));
        },
        RequirementRelationKind::Traces => {
            reveal_strlit("Traces");
            reveal_strlit("traces");
            assert(ascii_lower(kind_name(k)) =~= "traces"@);
            assert("traces"@[0] != "contains"@[0]);
            assert("traces"@[0] != "derives"@[0]);
            assert("traces"@[0] != "derive"@[0]);
            assert("traces"@[0] != "derived_from"@[0]);
            assert("traces"@[0] != "refines"@[0]);
            assert("traces"@[0] != "requires"@[0]);
            assert("traces"@[0] != "satisfies"@[0]);
            assert("traces"@[0] != "verifies"@[0]);
            assert("traces"@[0] != "implements"@[0]);
            assert(relation_kind_spec("traces"@) == Some(RequirementRelationKind::Traces));
        },
        RequirementRelationKind::AllocatedTo => {
            reveal_strlit("AllocatedTo");
            reveal_strlit("allocatedto");
            assert(ascii_lower(kind_name(k)) =~= "allocatedto"@);
            assert("allocatedto"@[0] != "contains"@[0]);
            assert("allocatedto"@[0] != "derives"@[0]);
            assert("allocatedto"@[0] != "derive"@[0]);
            assert("allocatedto"@[0] != "derived_from"@[0]);
            assert("allocatedto"@[0] != "refines"@[0]);
            assert("allocatedto"@[0] != "requires"@[0]);
            assert("allocatedto"@[0] != "satisfies"@[0]);
            assert("allocatedto"@[0] != "verifies"@[0]);
            assert("allocatedto"@[0] != "implements"@[0]);
            assert("allocatedto"@[0] != "traces"@[0]);
            assert("allocatedto"@[9] != "allocated_to"@[9]);
            assert(relation_kind_spec("allocatedto"@) == Some(RequirementRelationKind::AllocatedTo));
        },
        RequirementRelationKind::Precedes => {
            reveal_strlit("Precedes");
            reveal_strlit("precedes");
            assert(ascii_lower(kind_name(k)) =~= "precedes"@);
            assert("precedes"@[0] != "contains"@[0]);
            assert("precedes"@[0] != "derives"@[0]);
            assert("precedes"@[0] != "derive"@[0]);
            assert("precedes"@[0] != "derived_from"@[0]);
            assert("precedes"@[0] != "refines"@[0]);
            assert("precedes"@[0] != "requires"@[0]);
            assert("precedes"@[0] != "satisfies"@[0]);
            assert("precedes"@[0] != "verifies"@[0]);
            assert("precedes"@[0] != "implements"@[0]);
            assert("precedes"@[0] != "traces"@[0]);
            assert("precedes"@[0] != "allocated_to"@[0]);
            assert("precedes"@[0] != "allocatedto"@[0]);
            assert(relation_kind_spec("precedes"@) == Some(RequirementRelationKind::Precedes));
        },
    }
}

/// Distinct relation kinds print distinct kind texts.
pub proof fn law_kind_text_injective(a: RequirementRelationKind, b: RequirementRelationKind)
    ensures
        kind_name(a) == kind_name(b) <==> a == b,
{
    law_kind_text_reads_back(a);
    law_kind_text_reads_back(b);
}

} // verus!
