//! The canonical UFO semantic graph of a SysML v2 model snapshot: every
//! element whose `@type` is a recognized KerML relationship kind becomes an
//! edge between the elements its endpoint members reference.
//!
//! | `@type` | endpoint members | relation |
//! |---|---|---|
//! | `FeatureMembership` | `owner`, `member` | `HasPart` |
//! | `Specialization` | `specific`, `general` | `Specializes` |
//! | `Subsetting` | `subset`, `superset` | `Specializes` |
//! | `Redefinition` | `redefining`, `redefined` | `Specializes` |
//! | `Connection` | `ends` (exactly two) | `Binds` |
//! | `Succession` | `source`, `target` | `Precedes` |
//! | `Satisfy` | `subject`, `requirement` | `Satisfies` |
//! | `Verify` | `by`, `requirement` | `Verifies` |
//! | `Refine` | `refining`, `refined` | `TracesTo` |
//! | `Dependency` | `client`, `supplier` | `Requires` |
//!
//! `Allocation` has no single inverse relation and is never lifted. An
//! endpoint is a `{"@id": ...}` object, a bare string id, or a one-element
//! array of either; a relationship element that does not resolve both
//! endpoints is skipped, never an error.
use vstd::prelude::*;

use crate::json::{get_member, jstr, member_get, JsonValue};
use crate::model::{Element, ModelSnapshot};
use crate::ontology::{edge_view, edges_view, EdgeView, ElementId, OntologicalEdge, UfoRelation};
use crate::sysgraph::{node_view, nodes_view, NodeView, OntologicalNode, StereotypeView, SysGraph, UfoStereotype};
use crate::text::{flat_map, flat_map_upto, lemma_flat_map_step, str_chars, str_eq};

verus! {

/// The id a reference-shaped value names.
pub open spec fn ref_id_spec(v: JsonValue) -> Option<Seq<char>>
    decreases v,
{
    match v {
        JsonValue::Str(s) => Some(s@),
        JsonValue::Object(ms) => jstr(member_get(ms@, "@id"@)),
        JsonValue::Array(items) => if items@.len() > 0 {
            ref_id_spec(items@[0])
        } else {
            None
        },
        _ => None,
    }
}

pub open spec fn opt_seq<T>(o: Option<T>) -> Seq<T> {
    match o {
        Some(x) => seq![x],
        None => Seq::empty(),
    }
}

/// Every id a reference-shaped value names: each resolvable element of an
/// array, or the one id of a single reference.
pub open spec fn ref_ids_spec(v: JsonValue) -> Seq<Seq<char>> {
    match v {
        JsonValue::Array(items) => flat_map(items@, |x: JsonValue| opt_seq(ref_id_spec(x))),
        _ => opt_seq(ref_id_spec(v)),
    }
}

/// The id named by the element's member `key`.
pub open spec fn field_id_spec(el: Element, key: Seq<char>) -> Option<Seq<char>> {
    match member_get(el.fields@, key) {
        Some(v) => ref_id_spec(v),
        None => None,
    }
}

/// The relation and endpoint member names of a binary relationship kind.
pub open spec fn binary_relationship(ty: Seq<char>) -> Option<(UfoRelation, Seq<char>, Seq<char>)> {
    if ty == "FeatureMembership"@ {
        Some((UfoRelation::HasPart, "owner"@, "member"@))
    } else if ty == "Specialization"@ {
        Some((UfoRelation::Specializes, "specific"@, "general"@))
    } else if ty == "Subsetting"@ {
        Some((UfoRelation::Specializes, "subset"@, "superset"@))
    } else if ty == "Redefinition"@ {
        Some((UfoRelation::Specializes, "redefining"@, "redefined"@))
    } else if ty == "Succession"@ {
        Some((UfoRelation::Precedes, "source"@, "target"@))
    } else if ty == "Satisfy"@ {
        Some((UfoRelation::Satisfies, "subject"@, "requirement"@))
    } else if ty == "Verify"@ {
        Some((UfoRelation::Verifies, "by"@, "requirement"@))
    } else if ty == "Refine"@ {
        Some((UfoRelation::TracesTo, "refining"@, "refined"@))
    } else if ty == "Dependency"@ {
        Some((UfoRelation::Requires, "client"@, "supplier"@))
    } else {
        None
    }
}

/// An edge with no provenance.
pub open spec fn plain_edge(id: Seq<char>, source: Seq<char>, target: Seq<char>, relation: UfoRelation) -> EdgeView {
    EdgeView { id, source, target, relation, provenance: Seq::empty() }
}

/// The ids of a `Connection`'s `ends` (none when the member is absent).
pub open spec fn connection_ends(el: Element) -> Seq<Seq<char>> {
    match member_get(el.fields@, "ends"@) {
        Some(v) => ref_ids_spec(v),
        None => Seq::empty(),
    }
}

/// The edge a relationship element lifts to, if it lifts.
pub open spec fn edge_for_spec(el: Element) -> Option<EdgeView> {
    if el.ty@ == "Connection"@ {
        let ends = connection_ends(el);
        if ends.len() == 2 {
            Some(plain_edge(el.id@, ends[0], ends[1], UfoRelation::Binds))
        } else {
            None
        }
    } else {
        match binary_relationship(el.ty@) {
            Some((relation, from, to)) => match (field_id_spec(el, from), field_id_spec(el, to)) {
                (Some(a), Some(b)) => Some(plain_edge(el.id@, a, b, relation)),
                _ => None,
            },
            None => None,
        }
    }
}

/// The edges of a snapshot's elements, in element order.
pub open spec fn ufo_graph_spec(elements: Seq<Element>) -> Seq<EdgeView> {
    flat_map(elements, |el: Element| opt_seq(edge_for_spec(el)))
}

fn copy_str(s: &str) -> (r: String)
    ensures
        r@ == s@,
{
    s.to_owned()
}

/// The single id a reference-shaped value names.
pub fn ref_id(v: &JsonValue) -> (r: Option<String>)
    ensures
        match r {
            Some(s) => ref_id_spec(*v) == Some(s@),
            None => ref_id_spec(*v) is None,
        },
    decreases v,
{
    match v {
        JsonValue::Str(s) => Some(copy_str(s.as_str())),
        JsonValue::Object(ms) => {
            let k = str_chars("@id");
            match get_member(ms, k.as_slice()) {
                Some(JsonValue::Str(s)) => Some(copy_str(s.as_str())),
                _ => None,
            }
        },
        JsonValue::Array(items) => {
            if items.len() > 0 {
                ref_id(&items[0])
            } else {
                None
            }
        },
        _ => None,
    }
}

/// Every id a reference-shaped value names.
pub fn ref_ids(v: &JsonValue) -> (r: Vec<String>)
    ensures
        r@.map_values(|s: String| s@) == ref_ids_spec(*v),
{
    match v {
        JsonValue::Array(items) => {
            let ghost f = |x: JsonValue| opt_seq(ref_id_spec(x));
            let mut out: Vec<String> = Vec::new();
            let mut i: usize = 0;
            while i < items.len()
                invariant
                    i <= items@.len(),
                    f == (|x: JsonValue| opt_seq(ref_id_spec(x))),
                    out@.map_values(|s: String| s@) == flat_map(items@.take(i as int), f),
                decreases items@.len() - i,
            {
                proof { lemma_flat_map_step(items@, i as int, f); }
                let ghost before = out@;
                match ref_id(&items[i]) {
                    Some(s) => {
                        out.push(s);
                        assert(out@.map_values(|s: String| s@) =~= before.map_values(|s: String| s@) + f(items@[i as int]));
                    },
                    None => {
                        assert(f(items@[i as int]) =~= Seq::<Seq<char>>::empty());
                        assert(out@.map_values(|s: String| s@) =~= before.map_values(|s: String| s@) + f(items@[i as int]));
                    },
                }
                i = i + 1;
            }
            assert(items@.take(items@.len() as int) =~= items@);
            out
        },
        _ => {
            let mut out: Vec<String> = Vec::new();
            match ref_id(v) {
                Some(s) => out.push(s),
                None => {},
            }
            assert(out@.map_values(|s: String| s@) =~= ref_ids_spec(*v));
            out
        },
    }
}

fn field_id(el: &Element, key: &str) -> (r: Option<ElementId>)
    ensures
        match r {
            Some(id) => field_id_spec(*el, key@) == Some(id.view_id()),
            None => field_id_spec(*el, key@) is None,
        },
{
    match el.get(key) {
        Some(v) => match ref_id(v) {
            Some(s) => Some(ElementId::from_string(s)),
            None => None,
        },
        None => None,
    }
}

fn connection_endpoints(el: &Element) -> (r: Option<(ElementId, ElementId)>)
    ensures
        match r {
            Some((a, b)) => connection_ends(*el).len() == 2 && a.view_id() == connection_ends(*el)[0]
                && b.view_id() == connection_ends(*el)[1],
            None => connection_ends(*el).len() != 2,
        },
{
    let ends = match el.get("ends") {
        Some(v) => ref_ids(v),
        None => {
            let v: Vec<String> = Vec::new();
            assert(v@.map_values(|s: String| s@) =~= connection_ends(*el));
            v
        },
    };
    assert(ends@.map_values(|s: String| s@) == connection_ends(*el));
    if ends.len() == 2 {
        Some((ElementId::new(ends[0].as_str()), ElementId::new(ends[1].as_str())))
    } else {
        None
    }
}

fn binary_relationship_exec(ty: &str) -> (r: Option<(UfoRelation, &'static str, &'static str)>)
    ensures
        match r {
            Some((rel, a, b)) => binary_relationship(ty@) == Some((rel, a@, b@)),
            None => binary_relationship(ty@) is None,
        },
{
    if str_eq(ty, "FeatureMembership") {
        Some((UfoRelation::HasPart, "owner", "member"))
    } else if str_eq(ty, "Specialization") {
        Some((UfoRelation::Specializes, "specific", "general"))
    } else if str_eq(ty, "Subsetting") {
        Some((UfoRelation::Specializes, "subset", "superset"))
    } else if str_eq(ty, "Redefinition") {
        Some((UfoRelation::Specializes, "redefining", "redefined"))
    } else if str_eq(ty, "Succession") {
        Some((UfoRelation::Precedes, "source", "target"))
    } else if str_eq(ty, "Satisfy") {
        Some((UfoRelation::Satisfies, "subject", "requirement"))
    } else if str_eq(ty, "Verify") {
        Some((UfoRelation::Verifies, "by", "requirement"))
    } else if str_eq(ty, "Refine") {
        Some((UfoRelation::TracesTo, "refining", "refined"))
    } else if str_eq(ty, "Dependency") {
        Some((UfoRelation::Requires, "client", "supplier"))
    } else {
        None
    }
}

/// The edge a relationship element lifts to (see module docs), or `None`
/// for a non-relationship, unmapped or unresolved element.
pub fn ontological_edge_for(el: &Element) -> (r: Option<OntologicalEdge>)
    ensures
        match r {
            Some(e) => edge_for_spec(*el) == Some(edge_view(e)),
            None => edge_for_spec(*el) is None,
        },
{
    if str_eq(el.ty(), "Connection") {
        match connection_endpoints(el) {
            Some((a, b)) => {
                let e = OntologicalEdge::new(el.id(), a, b, UfoRelation::Binds);
                assert(edge_view(e).provenance =~= Seq::<crate::ontology::AnchorView>::empty());
                Some(e)
            },
            None => None,
        }
    } else {
        match binary_relationship_exec(el.ty()) {
            Some((relation, from, to)) => match (field_id(el, from), field_id(el, to)) {
                (Some(a), Some(b)) => {
                    let e = OntologicalEdge::new(el.id(), a, b, relation);
                    assert(edge_view(e).provenance =~= Seq::<crate::ontology::AnchorView>::empty());
                    Some(e)
                },
                _ => None,
            },
            None => None,
        }
    }
}

/// The canonical UFO semantic graph of one snapshot: the lifted edge of
/// every relationship element, in element order. Non-relationship and
/// unresolvable elements are excluded, never an error.
pub fn build_ufo_graph(snapshot: &ModelSnapshot) -> (r: Vec<OntologicalEdge>)
    ensures
        edges_view(r@) == ufo_graph_spec(snapshot.elements@),
{
    let ghost els = snapshot.elements@;
    let ghost f = |el: Element| opt_seq(edge_for_spec(el));
    let mut out: Vec<OntologicalEdge> = Vec::new();
    let mut i: usize = 0;
    while i < snapshot.elements.len()
        invariant
            i <= els.len(),
            els == snapshot.elements@,
            f == (|el: Element| opt_seq(edge_for_spec(el))),
            edges_view(out@) == flat_map(els.take(i as int), f),
        decreases els.len() - i,
    {
        proof { lemma_flat_map_step(els, i as int, f); }
        let ghost before = out@;
        match ontological_edge_for(&snapshot.elements[i]) {
            Some(e) => {
                out.push(e);
                assert(edges_view(out@) =~= edges_view(before) + f(els[i as int]));
            },
            None => {
                assert(edges_view(out@) =~= edges_view(before) + f(els[i as int]));
            },
        }
        i = i + 1;
    }
    assert(els.take(els.len() as int) =~= els);
    out
}

/// What the SysML element-kind vocabulary says of an element's `@type`:
/// the kind's KerML name and whether it is a usage (as opposed to a
/// definition or a package).
#[derive(Debug, Clone, PartialEq, Eq)]
pub struct ElementClass {
    pub kerml_name: String,
    pub is_usage: bool,
}

pub open spec fn class_at(classes: Seq<Option<ElementClass>>, i: int) -> Option<ElementClass> {
    if 0 <= i < classes.len() {
        classes[i]
    } else {
        None
    }
}

/// The node of an element of a known kind: a `Role` for a usage, a `Kind`
/// otherwise, labelled by the element's name.
pub open spec fn node_for(el: Element, class: Option<ElementClass>) -> Seq<NodeView> {
    match class {
        Some(c) => seq![NodeView {
            id: el.id@,
            stereotype: if c.is_usage { StereotypeView::Role(c.kerml_name@) } else { StereotypeView::Kind(c.kerml_name@) },
            label: crate::ontology::opt_string_view(el.name),
        }],
        None => Seq::empty(),
    }
}

/// The semantic graph of a snapshot: one node per element whose `@type`
/// is an element kind, in element order, then the lifted edges.
/// `classes[i]` is the element-kind vocabulary's verdict on the `i`-th
/// element's `@type` (`None`, or a missing entry, for a type that is no
/// element kind, such as a relationship).
pub fn to_sysgraph(snapshot: &ModelSnapshot, classes: &[Option<ElementClass>]) -> (g: SysGraph)
    ensures
        nodes_view(g.nodes@) == flat_map_upto(snapshot.elements@.len(), |i: int| node_for(snapshot.elements@[i], class_at(classes@, i))),
        edges_view(g.edges@) == ufo_graph_spec(snapshot.elements@),
{
    let ghost els = snapshot.elements@;
    let ghost f = |i: int| node_for(els[i], class_at(classes@, i));
    let mut graph = SysGraph::new();
    let mut i: usize = 0;
    assert(nodes_view(graph.nodes@) =~= flat_map_upto(0, f));
    while i < snapshot.elements.len()
        invariant
            i <= els.len(),
            els == snapshot.elements@,
            f == (|i: int| node_for(els[i], class_at(classes@, i))),
            nodes_view(graph.nodes@) == flat_map_upto(i as nat, f),
            graph.edges@.len() == 0,
        decreases els.len() - i,
    {
        let el = &snapshot.elements[i];
        let ghost before = nodes_view(graph.nodes@);
        let class: Option<&ElementClass> = if i < classes.len() {
            match &classes[i] {
                Some(c) => Some(c),
                None => None,
            }
        } else {
            None
        };
        match class {
            Some(c) => {
                let stereotype = if c.is_usage {
                    UfoStereotype::Role(c.kerml_name.clone())
                } else {
                    UfoStereotype::Kind(c.kerml_name.clone())
                };
                let node = match el.name() {
                    Some(name) => OntologicalNode::with_label(ElementId::new(el.id()), stereotype, name),
                    None => OntologicalNode::new(ElementId::new(el.id()), stereotype),
                };
                let ghost nv = node_view(node);
                graph.push_node(node);
                assert(nodes_view(graph.nodes@) =~= before.push(nv));
                assert(seq![nv] =~= f(i as int));
            },
            None => {
                assert(f(i as int) =~= Seq::<NodeView>::empty());
            },
        }
        assert(flat_map_upto((i + 1) as nat, f) == flat_map_upto(i as nat, f) + f(i as int));
        assert(nodes_view(graph.nodes@) =~= flat_map_upto((i + 1) as nat, f));
        i = i + 1;
    }
    graph.edges = build_ufo_graph(snapshot);
    graph
}

} // verus!
