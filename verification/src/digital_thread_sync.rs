//! Reconciling a semantic graph's `dbt:` nodes into a live SysML v2
//! project: the create / update / delete changeset between the project's
//! current elements and the graph's nodes, and the decision of whether a
//! commit is posted at all. Nodes only; relationships are not synced.
use vstd::prelude::*;

use crate::b00t_graph::{ensure_node, ids_sorted};
use crate::json::{
    as_str, copy_members, json_eqv, jstr, lemma_member_index, member_get, member_index, JsonValue,
};
use crate::model::Element;
use crate::requirements_render::{assigns, lex_lt, table_view};
use crate::sysgraph::{node_view, nodes_view, OntologicalNode, SysGraph};
use crate::text::{flat_map, has_prefix, lemma_flat_map_step, starts_with, str_chars, str_eq};

verus! {

/// A reference to a model element by its `@id`.
#[derive(Debug, Clone, PartialEq, Eq)]
pub struct Ref {
    pub at_id: String,
}

/// One change of a commit: a create (payload, no identity), an update
/// (payload and identity) or a delete (identity, no payload).
pub struct DataVersion {
    pub type_: &'static str,
    pub payload: Option<JsonValue>,
    pub identity: Option<Ref>,
}

/// A commit to post: its changes, after the project's previous commit.
pub struct CommitRequest {
    pub type_: &'static str,
    pub change: Vec<DataVersion>,
    pub previous_commit: Option<Ref>,
}

/// Which project (and optionally branch) to sync into.
#[derive(Debug, Clone)]
pub struct SyncConfig {
    pub project_id: String,
    pub branch_id: Option<String>,
}

/// An element's `identifier` member, when it is a string.
pub open spec fn identifier_of(e: Element) -> Option<Seq<char>> {
    jstr(member_get(e.fields@, "identifier"@))
}

/// Index of the last element whose identifier is `id`.
pub open spec fn last_with(els: Seq<Element>, id: Seq<char>) -> Option<int>
    decreases els.len(),
{
    if els.len() == 0 {
        None
    } else if identifier_of(els.last()) == Some(id) {
        Some(els.len() - 1)
    } else {
        last_with(els.drop_last(), id)
    }
}

/// A node's label, empty when it has none.
pub open spec fn label_or_empty(n: OntologicalNode) -> Seq<char> {
    match n.label {
        Some(l) => l@,
        None => Seq::empty(),
    }
}

/// What a change must be.
pub enum ChangeSpec {
    /// A new `PartUsage` named `name` with identifier `identifier`.
    Create { identifier: Seq<char>, name: Seq<char> },
    /// `element`'s members with `@type` and `name` replaced.
    Update { element: Element, name: Seq<char> },
    /// Delete the element with this `@id`.
    Delete { at_id: Seq<char> },
}

/// The change a graph node asks for: create it when no element carries its
/// identifier, update the last such element when that element's name
/// differs from the node's label, nothing otherwise.
pub open spec fn node_change(els: Seq<Element>, n: OntologicalNode) -> Seq<ChangeSpec> {
    let id = n.id.view_id();
    let label = label_or_empty(n);
    match last_with(els, id) {
        None => seq![ChangeSpec::Create { identifier: id, name: label }],
        Some(k) => if els[k].name matches Some(x) && x@ == label {
            Seq::empty()
        } else {
            seq![ChangeSpec::Update { element: els[k], name: label }]
        },
    }
}

/// `out` is `inp` with member `key` set to the string `val`: replaced where
/// it is, or appended when absent; every other member unchanged.
pub open spec fn is_set_str(out: Seq<(String, JsonValue)>, inp: Seq<(String, JsonValue)>, key: Seq<char>, val: Seq<char>) -> bool {
    match member_index(inp, key) {
        Some(i) => out.len() == inp.len()
            && (forall|j: int| 0 <= j < inp.len() && j != i ==> (#[trigger] out[j]).0@ == inp[j].0@ && json_eqv(out[j].1, inp[j].1))
            && out[i].0@ == key && jstr(Some(out[i].1)) == Some(val),
        None => out.len() == inp.len() + 1
            && (forall|j: int| 0 <= j < inp.len() ==> (#[trigger] out[j]).0@ == inp[j].0@ && json_eqv(out[j].1, inp[j].1))
            && out[inp.len() as int].0@ == key && jstr(Some(out[inp.len() as int].1)) == Some(val),
    }
}

/// The members of a create's payload.
pub open spec fn create_payload_ok(ms: Seq<(String, JsonValue)>, identifier: Seq<char>, name: Seq<char>) -> bool {
    &&& ms.len() == 3
    &&& ms[0].0@ == "@type"@ && jstr(Some(ms[0].1)) == Some("PartUsage"@)
    &&& ms[1].0@ == "identifier"@ && jstr(Some(ms[1].1)) == Some(identifier)
    &&& ms[2].0@ == "name"@ && jstr(Some(ms[2].1)) == Some(name)
}

/// The members of an update's payload: the element's members with `@type`
/// set to its type, then `name` set to the new name.
pub open spec fn update_payload_ok(ms: Seq<(String, JsonValue)>, element: Element, name: Seq<char>) -> bool {
    exists|p: Seq<(String, JsonValue)>| #[trigger] is_set_str(p, element.fields@, "@type"@, element.ty@)
        && is_set_str(ms, p, "name"@, name)
}

pub open spec fn identity_is(c: DataVersion, at_id: Seq<char>) -> bool {
    match c.identity {
        Some(r) => r.at_id@ == at_id,
        None => false,
    }
}

/// The change `c` is the change `s`.
pub open spec fn realizes(c: DataVersion, s: ChangeSpec) -> bool {
    &&& c.type_@ == "DataVersion"@
    &&& match s {
        ChangeSpec::Create { identifier, name } => c.identity is None && match c.payload {
            Some(JsonValue::Object(ms)) => create_payload_ok(ms@, identifier, name),
            _ => false,
        },
        ChangeSpec::Update { element, name } => identity_is(c, element.id@) && match c.payload {
            Some(JsonValue::Object(ms)) => update_payload_ok(ms@, element, name),
            _ => false,
        },
        ChangeSpec::Delete { at_id } => c.payload is None && identity_is(c, at_id),
    }
}

pub open spec fn realize_all(cs: Seq<DataVersion>, ss: Seq<ChangeSpec>) -> bool {
    cs.len() == ss.len() && forall|i: int| 0 <= i < ss.len() ==> realizes(#[trigger] cs[i], ss[i])
}

/// The creates and updates of every node, in node order.
pub open spec fn node_changes(els: Seq<Element>, nodes: Seq<OntologicalNode>) -> Seq<ChangeSpec> {
    flat_map(nodes, |n: OntologicalNode| node_change(els, n))
}

pub open spec fn is_fetched_identifier(els: Seq<Element>, id: Seq<char>) -> bool {
    exists|k: int| 0 <= k < els.len() && #[trigger] identifier_of(els[k]) == Some(id)
}

pub open spec fn is_node_id(nodes: Seq<OntologicalNode>, id: Seq<char>) -> bool {
    exists|k: int| 0 <= k < nodes.len() && #[trigger] nodes[k].id.view_id() == id
}

/// `ids` lists, in increasing order and once each, every identifier some
/// element carries that no node has.
pub open spec fn delete_order(els: Seq<Element>, nodes: Seq<OntologicalNode>, ids: Seq<Seq<char>>) -> bool {
    &&& forall|i: int, j: int| 0 <= i < j < ids.len() ==> lex_lt(#[trigger] ids[i], #[trigger] ids[j])
    &&& forall|id: Seq<char>| ids.contains(id) <==> (is_fetched_identifier(els, id) && !is_node_id(nodes, id))
}

/// One delete per listed identifier, of the last element carrying it.
pub open spec fn delete_changes(els: Seq<Element>, ids: Seq<Seq<char>>) -> Seq<ChangeSpec> {
    ids.map_values(|id: Seq<char>| ChangeSpec::Delete { at_id: els[last_with(els, id)->0].id@ })
}

proof fn lemma_last_with(els: Seq<Element>, id: Seq<char>)
    ensures
        match last_with(els, id) {
            Some(k) => 0 <= k < els.len() && identifier_of(els[k]) == Some(id)
                && forall|j: int| k < j < els.len() ==> identifier_of(els[j]) != Some(id),
            None => forall|j: int| 0 <= j < els.len() ==> identifier_of(els[j]) != Some(id),
        },
    decreases els.len(),
{
    if els.len() > 0 && identifier_of(els.last()) != Some(id) {
        lemma_last_with(els.drop_last(), id);
        assert forall|j: int| 0 <= j < els.len() - 1 implies els.drop_last()[j] == els[j] by {}
    }
}

fn identifier(e: &Element) -> (r: Option<&str>)
    ensures
        match r {
            Some(s) => identifier_of(*e) == Some(s@),
            None => identifier_of(*e) is None,
        },
{
    as_str(e.get("identifier"))
}

fn find_last_with(els: &[Element], id: &str) -> (r: Option<usize>)
    ensures
        match r {
            Some(k) => last_with(els@, id@) == Some(k as int),
            None => last_with(els@, id@) is None,
        },
{
    proof { lemma_last_with(els@, id@); }
    let mut j: usize = els.len();
    while j > 0
        invariant
            j <= els@.len(),
            forall|k: int| j <= k < els@.len() ==> identifier_of(els@[k]) != Some(id@),
        decreases j,
    {
        let matches = match identifier(&els[j - 1]) {
            Some(x) => str_eq(x, id),
            None => false,
        };
        if matches {
            proof {
                lemma_last_with(els@, id@);
                match last_with(els@, id@) {
                    Some(k) => {
                        if k < j - 1 {
                            assert(identifier_of(els@[j - 1]) == Some(id@));
                        }
                    },
                    None => {
                        assert(identifier_of(els@[j - 1]) == Some(id@));
                    },
                }
            }
            return Some(j - 1);
        }
        j = j - 1;
    }
    None
}

fn string_of(s: &str) -> (r: String)
    ensures
        r@ == s@,
{
    s.to_owned()
}

fn create_change(identifier: &str, name: &str) -> (r: DataVersion)
    ensures
        realizes(r, ChangeSpec::Create { identifier: identifier@, name: name@ }),
{
    let ms = vec![
        (string_of("@type"), JsonValue::Str(string_of("PartUsage"))),
        (string_of("identifier"), JsonValue::Str(string_of(identifier))),
        (string_of("name"), JsonValue::Str(string_of(name))),
    ];
    DataVersion { type_: "DataVersion", payload: Some(JsonValue::Object(ms)), identity: None }
}

proof fn lemma_json_eqv_refl(a: JsonValue)
    ensures
        json_eqv(a, a),
    decreases a,
{
    match a {
        JsonValue::Array(xs) => {
            assert forall|i: int| 0 <= i < xs@.len() implies json_eqv(#[trigger] xs@[i], xs@[i]) by {
                lemma_json_eqv_refl(xs@[i]);
            }
        },
        JsonValue::Object(xs) => {
            assert forall|i: int| 0 <= i < xs@.len() implies (#[trigger] xs@[i]).0@ == xs@[i].0@ && json_eqv(xs@[i].1, xs@[i].1) by {
                lemma_json_eqv_refl(xs@[i].1);
            }
        },
        _ => {},
    }
}

proof fn lemma_member_index_same_keys(a: Seq<(String, JsonValue)>, b: Seq<(String, JsonValue)>, key: Seq<char>)
    requires
        a.len() == b.len(),
        forall|j: int| 0 <= j < a.len() ==> (#[trigger] a[j]).0@ == b[j].0@,
    ensures
        member_index(a, key) == member_index(b, key),
    decreases a.len(),
{
    if a.len() > 0 {
        lemma_member_index_same_keys(a.drop_last(), b.drop_last(), key);
        assert(a.last().0@ == b.last().0@);
    }
}

fn find_member(ms: &Vec<(String, JsonValue)>, key: &str) -> (r: Option<usize>)
    ensures
        match r {
            Some(i) => member_index(ms@, key@) == Some(i as int),
            None => member_index(ms@, key@) is None,
        },
{
    proof { lemma_member_index(ms@, key@); }
    let mut i: usize = 0;
    while i < ms.len()
        invariant
            i <= ms@.len(),
            forall|j: int| 0 <= j < i ==> ms@[j].0@ != key@,
        decreases ms@.len() - i,
    {
        if str_eq(ms[i].0.as_str(), key) {
            proof { crate::json::lemma_member_index_at(ms@, key@, i as int); }
            return Some(i);
        }
        i = i + 1;
    }
    None
}

/// Sets member `key` to the string `val`: replaced where it is, appended
/// when absent.
fn set_str_member(ms: &mut Vec<(String, JsonValue)>, key: &str, val: &str)
    ensures
        is_set_str(final(ms)@, old(ms)@, key@, val@),
{
    let ghost m0 = ms@;
    proof { lemma_member_index(m0, key@); }
    let entry = (string_of(key), JsonValue::Str(string_of(val)));
    let ghost e = entry;
    match find_member(ms, key) {
        Some(i) => {
            ms.set(i, entry);
            proof {
                assert(ms@ == m0.update(i as int, e));
                assert forall|j: int| 0 <= j < m0.len() && j != i implies (#[trigger] ms@[j]).0@ == m0[j].0@
                    && json_eqv(ms@[j].1, m0[j].1) by {
                    lemma_json_eqv_refl(m0[j].1);
                }
                assert(is_set_str(ms@, m0, key@, val@));
            }
        },
        None => {
            ms.push(entry);
            proof {
                assert(ms@ == m0.push(e));
                assert forall|j: int| 0 <= j < m0.len() implies (#[trigger] ms@[j]).0@ == m0[j].0@ && json_eqv(ms@[j].1, m0[j].1) by {
                    lemma_json_eqv_refl(m0[j].1);
                }
                assert(is_set_str(ms@, m0, key@, val@));
            }
        },
    }
}

proof fn lemma_is_set_str_copy(
    out: Seq<(String, JsonValue)>,
    copy: Seq<(String, JsonValue)>,
    orig: Seq<(String, JsonValue)>,
    key: Seq<char>,
    val: Seq<char>,
)
    requires
        is_set_str(out, copy, key, val),
        copy.len() == orig.len(),
        forall|j: int| 0 <= j < orig.len() ==> (#[trigger] copy[j]).0@ == orig[j].0@ && json_eqv(copy[j].1, orig[j].1),
    ensures
        is_set_str(out, orig, key, val),
{
    lemma_member_index_same_keys(copy, orig, key);
    assert forall|j: int| 0 <= j < orig.len() && (#[trigger] out[j]).0@ == copy[j].0@ && json_eqv(out[j].1, copy[j].1)
        implies out[j].0@ == orig[j].0@ && json_eqv(out[j].1, orig[j].1) by {
        lemma_json_eqv_trans(out[j].1, copy[j].1, orig[j].1);
    }
}

proof fn lemma_json_eqv_trans(a: JsonValue, b: JsonValue, c: JsonValue)
    requires
        json_eqv(a, b),
        json_eqv(b, c),
    ensures
        json_eqv(a, c),
    decreases a,
{
    match (a, b, c) {
        (JsonValue::Array(xs), JsonValue::Array(ys), JsonValue::Array(zs)) => {
            assert forall|i: int| 0 <= i < xs@.len() implies json_eqv(#[trigger] xs@[i], zs@[i]) by {
                assert(json_eqv(xs@[i], ys@[i]));
                assert(json_eqv(ys@[i], zs@[i]));
                lemma_json_eqv_trans(xs@[i], ys@[i], zs@[i]);
            }
        },
        (JsonValue::Object(xs), JsonValue::Object(ys), JsonValue::Object(zs)) => {
            assert forall|i: int| 0 <= i < xs@.len() implies (#[trigger] xs@[i]).0@ == zs@[i].0@ && json_eqv(xs@[i].1, zs@[i].1) by {
                assert(json_eqv(xs@[i].1, ys@[i].1));
                assert(json_eqv(ys@[i].1, zs@[i].1));
                lemma_json_eqv_trans(xs@[i].1, ys@[i].1, zs@[i].1);
            }
        },
        _ => {},
    }
}

fn update_change(el: &Element, name: &str) -> (r: DataVersion)
    ensures
        realizes(r, ChangeSpec::Update { element: *el, name: name@ }),
{
    let mut payload = copy_members(&el.fields);
    let ghost copy = payload@;
    set_str_member(&mut payload, "@type", el.ty());
    let ghost p1 = payload@;
    proof { lemma_is_set_str_copy(p1, copy, el.fields@, "@type"@, el.ty@); }
    set_str_member(&mut payload, "name", name);
    assert(is_set_str(p1, el.fields@, "@type"@, el.ty@) && is_set_str(payload@, p1, "name"@, name@));
    assert(update_payload_ok(payload@, *el, name@));
    DataVersion {
        type_: "DataVersion",
        payload: Some(JsonValue::Object(payload)),
        identity: Some(Ref { at_id: string_of(el.id()) }),
    }
}

fn delete_change(el: &Element) -> (r: DataVersion)
    ensures
        realizes(r, ChangeSpec::Delete { at_id: el.id@ }),
{
    DataVersion { type_: "DataVersion", payload: None, identity: Some(Ref { at_id: string_of(el.id()) }) }
}

fn has_node_id(nodes: &Vec<OntologicalNode>, id: &str) -> (r: bool)
    ensures
        r == is_node_id(nodes@, id@),
{
    let mut k: usize = 0;
    while k < nodes.len()
        invariant
            k <= nodes@.len(),
            forall|j: int| 0 <= j < k ==> nodes@[j].id.view_id() != id@,
        decreases nodes@.len() - k,
    {
        if str_eq(nodes[k].id.as_str(), id) {
            return true;
        }
        k = k + 1;
    }
    false
}

/// The changeset that brings `fetched_elements` (the project's current
/// `dbt:` elements) in line with `graph`'s nodes: for each node, in order,
/// a create when no element carries its identifier, or an update of the
/// last element that does when that element's name differs from the node's
/// label; then, in increasing identifier order, a delete for every
/// identifier some element carries but no node has. Empty when nothing
/// changed.
pub fn build_changeset(fetched_elements: &[Element], graph: &SysGraph) -> (r: Vec<DataVersion>)
    ensures
        exists|ids: Seq<Seq<char>>| #[trigger] delete_order(fetched_elements@, graph.nodes@, ids)
            && realize_all(r@, node_changes(fetched_elements@, graph.nodes@) + delete_changes(fetched_elements@, ids)),
{
    let ghost els = fetched_elements@;
    let ghost nodes = graph.nodes@;
    let ghost f = |n: OntologicalNode| node_change(els, n);
    let mut changes: Vec<DataVersion> = Vec::new();
    let mut i: usize = 0;
    while i < graph.nodes.len()
        invariant
            i <= nodes.len(),
            els == fetched_elements@,
            nodes == graph.nodes@,
            f == (|n: OntologicalNode| node_change(els, n)),
            realize_all(changes@, flat_map(nodes.take(i as int), f)),
        decreases nodes.len() - i,
    {
        proof { lemma_flat_map_step(nodes, i as int, f); }
        let node = &graph.nodes[i];
        let ghost before = changes@;
        let ghost prev = flat_map(nodes.take(i as int), f);
        let identifier = node.id.as_str();
        let label: &str = match &node.label {
            Some(l) => l.as_str(),
            None => "",
        };
        proof {
            if node.label is None {
                reveal_strlit("");
                assert(label@ =~= Seq::<char>::empty());
            }
        }
        proof { lemma_last_with(els, identifier@); }
        match find_last_with(fetched_elements, identifier) {
            None => {
                changes.push(create_change(identifier, label));
            },
            Some(k) => {
                let existing = &fetched_elements[k];
                let same = match existing.name() {
                    Some(n) => str_eq(n, label),
                    None => false,
                };
                if !same {
                    changes.push(update_change(existing, label));
                }
            },
        }
        proof {
            let now = flat_map(nodes.take(i + 1), f);
            assert(now == prev + f(nodes[i as int]));
            assert forall|j: int| 0 <= j < now.len() implies realizes(#[trigger] changes@[j], now[j]) by {
                if j < prev.len() {
                    assert(changes@[j] == before[j]);
                }
            }
        }
        i = i + 1;
    }
    assert(nodes.take(nodes.len() as int) =~= nodes);
    let ghost head = changes@;
    let ghost ns = node_changes(els, nodes);
    // Every identifier carried by some element, once each, in increasing order.
    let mut table: Vec<(Vec<char>, Vec<char>)> = Vec::new();
    let mut e: usize = 0;
    while e < fetched_elements.len()
        invariant
            e <= els.len(),
            els == fetched_elements@,
            ids_sorted(table_view(table@)),
            forall|x: Seq<char>| #[trigger] assigns(table_view(table@), x)
                <==> exists|k: int| 0 <= k < e && #[trigger] identifier_of(els[k]) == Some(x),
        decreases els.len() - e,
    {
        match identifier(&fetched_elements[e]) {
            Some(id) => {
                ensure_node(&mut table, str_chars(id), Vec::new());
            },
            None => {},
        }
        proof {
            let t = table_view(table@);
            assert forall|x: Seq<char>| #[trigger] assigns(t, x)
                <==> exists|k: int| 0 <= k < e + 1 && #[trigger] identifier_of(els[k]) == Some(x) by {
                if exists|k: int| 0 <= k < e + 1 && #[trigger] identifier_of(els[k]) == Some(x) {
                    let k = choose|k: int| 0 <= k < e + 1 && #[trigger] identifier_of(els[k]) == Some(x);
                    if k < e {
                        assert(exists|k: int| 0 <= k < e && #[trigger] identifier_of(els[k]) == Some(x));
                    }
                }
            }
        }
        e = e + 1;
    }
    let ghost t = table_view(table@);
    let ghost mut ids: Seq<Seq<char>> = Seq::empty();
    let ghost mut pos: Seq<int> = Seq::empty();
    let mut m: usize = 0;
    while m < table.len()
        invariant
            m <= t.len(),
            t == table_view(table@),
            els == fetched_elements@,
            nodes == graph.nodes@,
            ids_sorted(t),
            forall|x: Seq<char>| #[trigger] assigns(t, x) <==> is_fetched_identifier(els, x),
            ids.len() == pos.len(),
            forall|a: int| 0 <= a < pos.len() ==> 0 <= #[trigger] pos[a] < m && ids[a] == t[pos[a]].0,
            forall|a: int, b: int| 0 <= a < b < pos.len() ==> #[trigger] pos[a] < #[trigger] pos[b],
            forall|x: Seq<char>| ids.contains(x) <==> (exists|k: int| 0 <= k < m && #[trigger] t[k].0 == x) && !is_node_id(nodes, x),
            realize_all(changes@, ns + delete_changes(els, ids)),
        decreases t.len() - m,
    {
        let id = crate::text::chars_to_string(table[m].0.as_slice(), 0, table[m].0.len());
        assert(id@ =~= t[m as int].0);
        let ghost before = changes@;
        let ghost ids0 = ids;
        if !has_node_id(&graph.nodes, id.as_str()) {
            proof {
                assert(assigns(t, id@));
                let k0 = choose|k: int| 0 <= k < els.len() && #[trigger] identifier_of(els[k]) == Some(id@);
                lemma_last_with(els, id@);
            }
            match find_last_with(fetched_elements, id.as_str()) {
                Some(k) => {
                    changes.push(delete_change(&fetched_elements[k]));
                },
                None => {},
            }
            proof {
                ids = ids.push(id@);
                pos = pos.push(m as int);
                let d = delete_changes(els, ids);
                assert(delete_changes(els, ids0).push(ChangeSpec::Delete { at_id: els[last_with(els, id@)->0].id@ }) =~= d);
                assert((ns + delete_changes(els, ids0)).push(ChangeSpec::Delete { at_id: els[last_with(els, id@)->0].id@ }) =~= ns + d);
                assert forall|j: int| 0 <= j < (ns + d).len() implies realizes(#[trigger] changes@[j], (ns + d)[j]) by {
                    if j < before.len() {
                        assert(changes@[j] == before[j]);
                    }
                }
            }
        }
        proof {
            assert forall|x: Seq<char>| ids.contains(x) <==> (exists|k: int| 0 <= k < m + 1 && #[trigger] t[k].0 == x) && !is_node_id(nodes, x) by {
                if ids.contains(x) && !ids0.contains(x) {
                    assert(t[m as int].0 == x);
                }
                if ids0.contains(x) {
                    let a = choose|a: int| 0 <= a < ids0.len() && ids0[a] == x;
                    assert(ids[a] == x);
                }
                if (exists|k: int| 0 <= k < m + 1 && #[trigger] t[k].0 == x) && !is_node_id(nodes, x) {
                    let k = choose|k: int| 0 <= k < m + 1 && #[trigger] t[k].0 == x;
                    if k == m {
                        assert(ids[ids.len() - 1] == x);
                    } else {
                        assert(exists|k: int| 0 <= k < m && #[trigger] t[k].0 == x);
                    }
                }
            }
        }
        m = m + 1;
    }
    proof {
        assert forall|a: int, b: int| 0 <= a < b < ids.len() implies lex_lt(#[trigger] ids[a], #[trigger] ids[b]) by {
            assert(pos[a] < pos[b]);
        }
        assert forall|x: Seq<char>| ids.contains(x) <==> (is_fetched_identifier(els, x) && !is_node_id(nodes, x)) by {
            if exists|k: int| 0 <= k < t.len() && #[trigger] t[k].0 == x {
                assert(assigns(t, x));
            }
            if is_fetched_identifier(els, x) {
                assert(assigns(t, x));
                let k = choose|k: int| 0 <= k < t.len() && t[k].0 == x;
                assert(t[k].0 == x);
            }
        }
        assert(delete_order(els, nodes, ids));
    }
    changes
}

/// Whether an element is a `dbt:` element: its identifier starts with `dbt:`.
pub open spec fn is_dbt_element(e: Element) -> bool {
    identifier_of(e) matches Some(id) && starts_with(id, "dbt:"@)
}

/// Whether a node is a `dbt:` node: its id starts with `dbt:`.
pub open spec fn is_dbt_node(n: OntologicalNode) -> bool {
    starts_with(n.id.view_id(), "dbt:"@)
}

/// The `dbt:` elements, in order.
pub fn filter_dbt_elements(elements: Vec<Element>) -> (r: Vec<Element>)
    ensures
        r@ == elements@.filter(|e: Element| is_dbt_element(e)),
{
    let ghost all = elements@;
    let ghost pred = |e: Element| is_dbt_element(e);
    let mut rest = elements;
    let mut out: Vec<Element> = Vec::new();
    let ghost mut done: int = 0;
    proof {
        reveal(Seq::filter);
        assert(all.take(0).filter(pred) =~= Seq::<Element>::empty());
        assert(rest@ =~= all.skip(0));
    }
    while rest.len() > 0
        invariant
            0 <= done <= all.len(),
            rest@ == all.skip(done),
            pred == (|e: Element| is_dbt_element(e)),
            out@ == all.take(done).filter(pred),
        decreases rest@.len(),
    {
        let e = rest.remove(0);
        proof {
            reveal(Seq::filter);
            assert(e == all[done]);
            assert(all.take(done + 1).drop_last() =~= all.take(done));
            assert(all.take(done + 1).last() == all[done]);
        }
        let keep = match identifier(&e) {
            Some(id) => has_prefix(id, "dbt:"),
            None => false,
        };
        if keep {
            out.push(e);
        }
        proof {
            assert(rest@ =~= all.skip(done + 1));
            done = done + 1;
        }
    }
    assert(all.take(done) =~= all);
    out
}

/// `graph` restricted to its `dbt:` nodes (in order, without edges), so
/// both sides of the changeset are filtered alike.
pub fn filter_dbt_nodes(graph: &SysGraph) -> (r: SysGraph)
    ensures
        nodes_view(r.nodes@) == nodes_view(graph.nodes@.filter(|n: OntologicalNode| is_dbt_node(n))),
        r.edges@.len() == 0,
{
    let ghost all = graph.nodes@;
    let ghost pred = |n: OntologicalNode| is_dbt_node(n);
    let mut out: Vec<OntologicalNode> = Vec::new();
    let mut i: usize = 0;
    proof {
        reveal(Seq::filter);
        assert(all.take(0).filter(pred) =~= Seq::<OntologicalNode>::empty());
    }
    while i < graph.nodes.len()
        invariant
            i <= all.len(),
            all == graph.nodes@,
            pred == (|n: OntologicalNode| is_dbt_node(n)),
            nodes_view(out@) == nodes_view(all.take(i as int).filter(pred)),
        decreases all.len() - i,
    {
        proof {
            reveal(Seq::filter);
            assert(all.take(i + 1).drop_last() =~= all.take(i as int));
            assert(all.take(i + 1).last() == all[i as int]);
        }
        let ghost before = out@;
        let n = &graph.nodes[i];
        if has_prefix(n.id.as_str(), "dbt:") {
            let d = n.duplicate();
            out.push(d);
            proof {
                reveal(Seq::filter);
                assert(pred(all[i as int]));
                assert(all.take(i + 1).filter(pred) == all.take(i as int).filter(pred).push(all[i as int]));
                assert(nodes_view(out@) =~= nodes_view(before).push(node_view(d)));
                assert(nodes_view(all.take(i as int).filter(pred).push(all[i as int]))
                    =~= nodes_view(all.take(i as int).filter(pred)).push(node_view(all[i as int])));
            }
            assert(nodes_view(out@) =~= nodes_view(all.take(i + 1).filter(pred)));
        } else {
            assert(nodes_view(out@) =~= nodes_view(all.take(i + 1).filter(pred)));
        }
        i = i + 1;
    }
    assert(all.take(all.len() as int) =~= all);
    SysGraph { nodes: out, edges: Vec::new() }
}

/// What a sync does next.
pub enum SyncPlan {
    /// Nothing changed: hand back the latest commit id, if there is one.
    Unchanged(Option<String>),
    /// Post this commit.
    Post(CommitRequest),
}

/// Decides a sync from the latest commit id (if any), the project's `dbt:`
/// elements at that commit and the graph restricted to its `dbt:` nodes:
/// post one commit with the whole changeset after the latest commit, or,
/// when the changeset is empty, post nothing and report the latest commit.
pub fn plan_sync(latest_commit: Option<&str>, dbt_elements: &[Element], dbt_graph: &SysGraph) -> (r: SyncPlan)
    ensures
        exists|ids: Seq<Seq<char>>| #[trigger] delete_order(dbt_elements@, dbt_graph.nodes@, ids) && {
            let specs = node_changes(dbt_elements@, dbt_graph.nodes@) + delete_changes(dbt_elements@, ids);
            match r {
                SyncPlan::Unchanged(c) => specs.len() == 0 && match (c, latest_commit) {
                    (Some(x), Some(y)) => x@ == y@,
                    (None, None) => true,
                    _ => false,
                },
                SyncPlan::Post(req) => specs.len() > 0 && realize_all(req.change@, specs) && req.type_@ == "Commit"@
                    && match (req.previous_commit, latest_commit) {
                        (Some(x), Some(y)) => x.at_id@ == y@,
                        (None, None) => true,
                        _ => false,
                    },
            }
        },
{
    let changes = build_changeset(dbt_elements, dbt_graph);
    let previous = match latest_commit {
        Some(c) => Some(string_of(c)),
        None => None,
    };
    if changes.len() == 0 {
        SyncPlan::Unchanged(previous)
    } else {
        let previous_commit = match previous {
            Some(at_id) => Some(Ref { at_id }),
            None => None,
        };
        SyncPlan::Post(CommitRequest { type_: "Commit", change: changes, previous_commit })
    }
}

/// The graph and the project agree: every node's identifier is carried by
/// an element whose (last) name is the node's label, and every carried
/// identifier is some node's.
pub open spec fn in_sync(els: Seq<Element>, nodes: Seq<OntologicalNode>) -> bool {
    &&& forall|k: int| 0 <= k < nodes.len() ==> (match #[trigger] last_with(els, nodes[k].id.view_id()) {
        Some(e) => els[e].name matches Some(x) && x@ == label_or_empty(nodes[k]),
        None => false,
    })
    &&& forall|id: Seq<char>| is_fetched_identifier(els, id) ==> is_node_id(nodes, id)
}

/// Law: a graph already in sync with the project yields an empty changeset,
/// so a sync posts no commit.
pub proof fn law_in_sync_yields_no_changes(els: Seq<Element>, nodes: Seq<OntologicalNode>, ids: Seq<Seq<char>>)
    requires
        in_sync(els, nodes),
        delete_order(els, nodes, ids),
    ensures
        node_changes(els, nodes).len() == 0,
        ids.len() == 0,
{
    let f = |n: OntologicalNode| node_change(els, n);
    assert forall|i: int| 0 <= i <= nodes.len() implies #[trigger] flat_map(nodes.take(i), f).len() == 0 by {
        lemma_no_node_changes(els, nodes, f, i);
    }
    assert(nodes.take(nodes.len() as int) =~= nodes);
    if ids.len() > 0 {
        assert(ids.contains(ids[0]));
    }
}

proof fn lemma_no_node_changes(els: Seq<Element>, nodes: Seq<OntologicalNode>, f: spec_fn(OntologicalNode) -> Seq<ChangeSpec>, i: int)
    requires
        in_sync(els, nodes),
        f == (|n: OntologicalNode| node_change(els, n)),
        0 <= i <= nodes.len(),
    ensures
        flat_map(nodes.take(i), f).len() == 0,
    decreases i,
{
    if i > 0 {
        lemma_no_node_changes(els, nodes, f, i - 1);
        lemma_flat_map_step(nodes, i - 1, f);
        let n = nodes[i - 1];
        assert(match last_with(els, nodes[i - 1].id.view_id()) {
            Some(e) => els[e].name matches Some(x) && x@ == label_or_empty(nodes[i - 1]),
            None => false,
        });
        assert(f(n).len() == 0);
    }
}

} // verus!
