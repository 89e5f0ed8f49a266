//! The Rust-source pattern recognizer: a workspace's Rust items become
//! untyped `(Node, Edge)` transport records, then a semantic graph.
//!
//! What is recognized (a name heuristic, not a type checker):
//! - module containment: a module `has_part` every item declared directly
//!   in it, nested modules included;
//! - struct and enum-variant field types that name (by simple name, through
//!   generic arguments, references and arrays) a struct, enum or trait
//!   declared anywhere in the walked files: `has_part`;
//! - non-generic `impl Trait for Type` blocks: `Type satisfies Trait`, each
//!   side resolved through the same name table or kept as its bare name;
//! - direct, unqualified calls to a function declared in the same module:
//!   `flows_to`, one edge per call site;
//! - crate-level `requires` edges for a `use` of a workspace-sibling crate.
//!
//! Items are given as a syntax summary ([`RustItem`]): each item's name,
//! the items nested inside it (in function bodies, method bodies, trait
//! default bodies, ...), a function's unqualified call names (calls inside
//! nested `fn` items excluded), an impl's trait and self-type simple names.
use vstd::prelude::*;

use crate::docgen::harvest::{qualified_name, strings_view};
use crate::b00t_graph::{ensure_node, ids_sorted};
use crate::ontology::{
    canonical_name_of, edge_view, edges_view, law_canonical_names_distinct, EdgeView, ElementId, OntologicalEdge,
    UfoRelation,
};
use crate::requirements_render::{assigns, lex_lt, table_view};
use crate::sysgraph::{node_view, nodes_view, NodeView, OntologicalNode, StereotypeView, SysGraph, UfoStereotype};
use crate::text::{flat_map, join, lemma_flat_map_step, push_str, str_chars, str_eq};

verus! {

/// A type as the recognizer reads it: a path type's last segment with its
/// generic type arguments (references, arrays, parentheses and groups are
/// read through to their element type), or anything else.
pub enum RustType {
    Path { name: String, args: Vec<RustType> },
    Other,
}

/// One Rust item, with the items nested inside it in source order.
pub enum RustItem {
    /// An inline module and its items.
    Mod { name: String, items: Vec<RustItem> },
    /// A struct and the types of its fields, in order.
    Struct { name: String, field_types: Vec<RustType>, nested: Vec<RustItem> },
    /// An enum and the types of its variants' fields, in order.
    Enum { name: String, field_types: Vec<RustType>, nested: Vec<RustItem> },
    Trait { name: String, nested: Vec<RustItem> },
    /// A free function and the unqualified callee names of its call sites.
    Fn { name: String, calls: Vec<String>, nested: Vec<RustItem> },
    /// An impl block: whether it has generic parameters, its trait's simple
    /// name (none for an inherent impl) and its self type's simple name
    /// (none when the self type is not a plain path).
    Impl { generic: bool, trait_name: Option<String>, self_type: Option<String>, nested: Vec<RustItem> },
    /// A `use` item and the leading segment of each of its top-level trees.
    Use { roots: Vec<String> },
    Other { nested: Vec<RustItem> },
}

/// One source file's top-level items.
pub struct RustFile {
    pub items: Vec<RustItem>,
}

/// A recognized element.
#[derive(Debug, Clone, PartialEq, Eq)]
pub struct Node {
    pub id: String,
    pub label: String,
    pub part_type: String,
}

/// A recognized relationship.
#[derive(Debug, Clone, PartialEq, Eq)]
pub struct Edge {
    pub id: String,
    pub from: String,
    pub to: String,
    pub edge_type: String,
    pub kind: Option<String>,
}

// ---------------------------------------------------------------------
// Names
// ---------------------------------------------------------------------

/// `path::name`.
pub open spec fn qualify(path: Seq<Seq<char>>, name: Seq<char>) -> Seq<char> {
    join(path.push(name), "::"@)
}

/// The module key of a path: its segments joined with `::`.
pub open spec fn module_key(path: Seq<Seq<char>>) -> Seq<char> {
    join(path, "::"@)
}

/// Every simple name a type mentions: its own, then its arguments'.
pub open spec fn type_names(t: RustType) -> Seq<Seq<char>>
    decreases t,
{
    match t {
        RustType::Path { name, args } => seq![name@] + types_names(args@),
        RustType::Other => Seq::empty(),
    }
}

pub open spec fn types_names(ts: Seq<RustType>) -> Seq<Seq<char>>
    decreases ts,
{
    if ts.len() == 0 {
        Seq::empty()
    } else {
        types_names(ts.drop_last()) + type_names(ts.last())
    }
}

// ---------------------------------------------------------------------
// The two name tables
// ---------------------------------------------------------------------

/// `(simple name, qualified name)` of every struct, enum and trait, in
/// traversal order (items nested in functions, impls and other items
/// included; nothing inside a struct, enum or trait).
pub open spec fn item_type_decls(it: RustItem, path: Seq<Seq<char>>) -> Seq<(Seq<char>, Seq<char>)>
    decreases it,
{
    match it {
        RustItem::Mod { name, items } => items_type_decls(items@, path.push(name@)),
        RustItem::Struct { name, .. } => seq![(name@, qualify(path, name@))],
        RustItem::Enum { name, .. } => seq![(name@, qualify(path, name@))],
        RustItem::Trait { name, .. } => seq![(name@, qualify(path, name@))],
        RustItem::Fn { nested, .. } => items_type_decls(nested@, path),
        RustItem::Impl { nested, .. } => items_type_decls(nested@, path),
        RustItem::Use { .. } => Seq::empty(),
        RustItem::Other { nested } => items_type_decls(nested@, path),
    }
}

pub open spec fn items_type_decls(its: Seq<RustItem>, path: Seq<Seq<char>>) -> Seq<(Seq<char>, Seq<char>)>
    decreases its,
{
    if its.len() == 0 {
        Seq::empty()
    } else {
        items_type_decls(its.drop_last(), path) + item_type_decls(its.last(), path)
    }
}

/// `(module key, function name)` of every free function, in traversal
/// order (nothing inside a function's own body).
pub open spec fn item_fn_decls(it: RustItem, path: Seq<Seq<char>>) -> Seq<(Seq<char>, Seq<char>)>
    decreases it,
{
    match it {
        RustItem::Mod { name, items } => items_fn_decls(items@, path.push(name@)),
        RustItem::Struct { nested, .. } => items_fn_decls(nested@, path),
        RustItem::Enum { nested, .. } => items_fn_decls(nested@, path),
        RustItem::Trait { nested, .. } => items_fn_decls(nested@, path),
        RustItem::Fn { name, .. } => seq![(module_key(path), name@)],
        RustItem::Impl { nested, .. } => items_fn_decls(nested@, path),
        RustItem::Use { .. } => Seq::empty(),
        RustItem::Other { nested } => items_fn_decls(nested@, path),
    }
}

pub open spec fn items_fn_decls(its: Seq<RustItem>, path: Seq<Seq<char>>) -> Seq<(Seq<char>, Seq<char>)>
    decreases its,
{
    if its.len() == 0 {
        Seq::empty()
    } else {
        items_fn_decls(its.drop_last(), path) + item_fn_decls(its.last(), path)
    }
}

/// The qualified name the last declaration of `name` gave it.
pub open spec fn lookup_type(types: Seq<(Seq<char>, Seq<char>)>, name: Seq<char>) -> Option<Seq<char>>
    decreases types.len(),
{
    if types.len() == 0 {
        None
    } else if types.last().0 == name {
        Some(types.last().1)
    } else {
        lookup_type(types.drop_last(), name)
    }
}

/// Whether module `key` declares a function `name`.
pub open spec fn has_fn(fns: Seq<(Seq<char>, Seq<char>)>, key: Seq<char>, name: Seq<char>) -> bool {
    exists|k: int| 0 <= k < fns.len() && #[trigger] fns[k] == (key, name)
}

// ---------------------------------------------------------------------
// Node and edge events, in traversal order
// ---------------------------------------------------------------------

/// A node to register: `(id, part type)`.
pub type NodeEv = (Seq<char>, Seq<char>);

/// An edge to record: `(from, to, edge type)`.
pub type EdgeEv = (Seq<char>, Seq<char>, Seq<char>);

/// The nodes and edges of a non-generic `impl Trait for Type`, each side
/// resolved through the name table or kept as its bare name.
pub open spec fn resolve(types: Seq<(Seq<char>, Seq<char>)>, name: Seq<char>) -> Seq<char> {
    match lookup_type(types, name) {
        Some(q) => q,
        None => name,
    }
}

pub open spec fn impl_applies(generic: bool, trait_name: Option<String>, self_type: Option<String>) -> bool {
    !generic && trait_name is Some && self_type is Some
}

/// `declare_item`'s containment edge: from the enclosing module, when
/// there is one.
pub open spec fn containment(path: Seq<Seq<char>>, q: Seq<char>) -> Seq<EdgeEv> {
    if module_key(path).len() > 0 {
        seq![(module_key(path), q, "has_part"@)]
    } else {
        Seq::empty()
    }
}

/// The `has_part` edges of an owner's field types.
pub open spec fn field_edges(owner: Seq<char>, names: Seq<Seq<char>>, types: Seq<(Seq<char>, Seq<char>)>) -> Seq<EdgeEv> {
    flat_map(names, |c: Seq<char>| match lookup_type(types, c) {
        Some(t) => if t != owner { seq![(owner, t, "has_part"@)] } else { Seq::empty() },
        None => Seq::empty(),
    })
}

/// The `flows_to` edges of a function's call sites.
pub open spec fn call_edges(path: Seq<Seq<char>>, caller: Seq<char>, calls: Seq<Seq<char>>, fns: Seq<(Seq<char>, Seq<char>)>) -> Seq<EdgeEv> {
    flat_map(calls, |c: Seq<char>| if has_fn(fns, module_key(path), c) {
        seq![(qualify(path, caller), qualify(path, c), "flows_to"@)]
    } else {
        Seq::empty()
    })
}

pub open spec fn item_node_events(it: RustItem, path: Seq<Seq<char>>, types: Seq<(Seq<char>, Seq<char>)>) -> Seq<NodeEv>
    decreases it,
{
    match it {
        RustItem::Mod { name, items } => seq![(qualify(path, name@), "module"@)]
            + items_node_events(items@, path.push(name@), types),
        RustItem::Struct { name, nested, .. } => seq![(qualify(path, name@), "struct"@)]
            + items_node_events(nested@, path, types),
        RustItem::Enum { name, nested, .. } => seq![(qualify(path, name@), "enum"@)]
            + items_node_events(nested@, path, types),
        RustItem::Trait { name, nested } => seq![(qualify(path, name@), "trait"@)]
            + items_node_events(nested@, path, types),
        RustItem::Fn { name, nested, .. } => seq![(qualify(path, name@), "function"@)]
            + items_node_events(nested@, path, types),
        RustItem::Impl { generic, trait_name, self_type, nested } => (if impl_applies(generic, trait_name, self_type) {
            seq![(resolve(types, self_type->0@), "type"@), (resolve(types, trait_name->0@), "trait"@)]
        } else {
            Seq::empty()
        }) + items_node_events(nested@, path, types),
        RustItem::Use { .. } => Seq::empty(),
        RustItem::Other { nested } => items_node_events(nested@, path, types),
    }
}

pub open spec fn items_node_events(its: Seq<RustItem>, path: Seq<Seq<char>>, types: Seq<(Seq<char>, Seq<char>)>) -> Seq<NodeEv>
    decreases its,
{
    if its.len() == 0 {
        Seq::empty()
    } else {
        items_node_events(its.drop_last(), path, types) + item_node_events(its.last(), path, types)
    }
}

pub open spec fn item_edge_events(
    it: RustItem,
    path: Seq<Seq<char>>,
    types: Seq<(Seq<char>, Seq<char>)>,
    fns: Seq<(Seq<char>, Seq<char>)>,
) -> Seq<EdgeEv>
    decreases it,
{
    match it {
        RustItem::Mod { name, items } => containment(path, qualify(path, name@))
            + items_edge_events(items@, path.push(name@), types, fns),
        RustItem::Struct { name, field_types, nested } => containment(path, qualify(path, name@))
            + field_edges(qualify(path, name@), types_names(field_types@), types)
            + items_edge_events(nested@, path, types, fns),
        RustItem::Enum { name, field_types, nested } => containment(path, qualify(path, name@))
            + field_edges(qualify(path, name@), types_names(field_types@), types)
            + items_edge_events(nested@, path, types, fns),
        RustItem::Trait { name, nested } => containment(path, qualify(path, name@))
            + items_edge_events(nested@, path, types, fns),
        RustItem::Fn { name, calls, nested } => containment(path, qualify(path, name@))
            + call_edges(path, name@, strings_view(calls@), fns)
            + items_edge_events(nested@, path, types, fns),
        RustItem::Impl { generic, trait_name, self_type, nested } => (if impl_applies(generic, trait_name, self_type) {
            seq![(resolve(types, self_type->0@), resolve(types, trait_name->0@), "satisfies"@)]
        } else {
            Seq::empty()
        }) + items_edge_events(nested@, path, types, fns),
        RustItem::Use { .. } => Seq::empty(),
        RustItem::Other { nested } => items_edge_events(nested@, path, types, fns),
    }
}

pub open spec fn items_edge_events(
    its: Seq<RustItem>,
    path: Seq<Seq<char>>,
    types: Seq<(Seq<char>, Seq<char>)>,
    fns: Seq<(Seq<char>, Seq<char>)>,
) -> Seq<EdgeEv>
    decreases its,
{
    if its.len() == 0 {
        Seq::empty()
    } else {
        items_edge_events(its.drop_last(), path, types, fns) + item_edge_events(its.last(), path, types, fns)
    }
}

// ---------------------------------------------------------------------
// Records
// ---------------------------------------------------------------------

/// `(id, label, part type)` of a node.
pub type NodeV = (Seq<char>, Seq<char>, Seq<char>);

/// `(id, from, to, edge type, kind)` of an edge.
pub type EdgeV = (Seq<char>, Seq<char>, Seq<char>, Seq<char>, Option<Seq<char>>);

pub open spec fn node_v(n: Node) -> NodeV {
    (n.id@, n.label@, n.part_type@)
}

pub open spec fn nodes_v(ns: Seq<Node>) -> Seq<NodeV> {
    ns.map_values(|n: Node| node_v(n))
}

pub open spec fn edge_v(e: Edge) -> EdgeV {
    (e.id@, e.from@, e.to@, e.edge_type@, match e.kind {
        Some(k) => Some(k@),
        None => None,
    })
}

pub open spec fn edges_v(es: Seq<Edge>) -> Seq<EdgeV> {
    es.map_values(|e: Edge| edge_v(e))
}

/// Registers a node unless one with the same id is already registered
/// (its id is its label).
pub open spec fn add_node(ns: Seq<NodeV>, ev: NodeEv) -> Seq<NodeV> {
    if exists|k: int| 0 <= k < ns.len() && #[trigger] ns[k].0 == ev.0 {
        ns
    } else {
        ns.push((ev.0, ev.0, ev.1))
    }
}

pub open spec fn add_nodes(ns: Seq<NodeV>, evs: Seq<NodeEv>) -> Seq<NodeV>
    decreases evs.len(),
{
    if evs.len() == 0 {
        ns
    } else {
        add_node(add_nodes(ns, evs.drop_last()), evs.last())
    }
}

/// The record of an edge event: id `{from}_{type}_{to}`, no kind.
pub open spec fn edge_record(ev: EdgeEv) -> EdgeV {
    (ev.0 + "_"@ + ev.2 + "_"@ + ev.1, ev.0, ev.1, ev.2, None)
}

pub open spec fn edge_records(evs: Seq<EdgeEv>) -> Seq<EdgeV> {
    evs.map_values(|ev: EdgeEv| edge_record(ev))
}

pub proof fn lemma_add_nodes_append(ns: Seq<NodeV>, a: Seq<NodeEv>, b: Seq<NodeEv>)
    ensures
        add_nodes(ns, a + b) == add_nodes(add_nodes(ns, a), b),
    decreases b.len(),
{
    if b.len() == 0 {
        assert(a + b =~= a);
    } else {
        lemma_add_nodes_append(ns, a, b.drop_last());
        assert((a + b).drop_last() =~= a + b.drop_last());
        assert((a + b).last() == b.last());
    }
}

fn push_node(nodes: &mut Vec<Node>, id: &str, part_type: &str)
    ensures
        nodes_v(final(nodes)@) == add_node(nodes_v(old(nodes)@), (id@, part_type@)),
{
    let ghost nv = nodes_v(nodes@);
    let mut k: usize = 0;
    while k < nodes.len()
        invariant
            k <= nodes@.len(),
            nv == nodes_v(nodes@),
            forall|j: int| 0 <= j < k ==> nv[j].0 != id@,
        decreases nodes@.len() - k,
    {
        if str_eq(nodes[k].id.as_str(), id) {
            assert(nv[k as int].0 == id@);
            return;
        }
        k = k + 1;
    }
    nodes.push(Node { id: id.to_owned(), label: id.to_owned(), part_type: part_type.to_owned() });
    assert(nodes_v(nodes@) =~= nv.push((id@, id@, part_type@)));
}

fn push_edge(edges: &mut Vec<Edge>, from: &str, to: &str, edge_type: &str)
    ensures
        edges_v(final(edges)@) == edges_v(old(edges)@).push(edge_record((from@, to@, edge_type@))),
{
    let mut id = String::new();
    push_str(&mut id, from);
    push_str(&mut id, "_");
    push_str(&mut id, edge_type);
    push_str(&mut id, "_");
    push_str(&mut id, to);
    edges.push(Edge { id, from: from.to_owned(), to: to.to_owned(), edge_type: edge_type.to_owned(), kind: None });
    assert(edges_v(edges@) =~= edges_v(old(edges)@).push(edge_record((from@, to@, edge_type@))));
}

/// The path's module key.
fn path_key(path: &Vec<String>) -> (r: String)
    ensures
        r@ == module_key(strings_view(path@)),
{
    let mut parts: Vec<&str> = Vec::new();
    let mut i: usize = 0;
    while i < path.len()
        invariant
            i <= path@.len(),
            parts@.map_values(|p: &str| p@) == strings_view(path@.take(i as int)),
        decreases path@.len() - i,
    {
        let ghost before = parts@;
        let seg = path[i].as_str();
        parts.push(seg);
        proof {
            assert(parts@ == before.push(seg));
            assert(path@.take(i + 1) =~= path@.take(i as int).push(path@[i as int]));
            assert(parts@.map_values(|p: &str| p@) =~= before.map_values(|p: &str| p@).push(seg@));
            assert(strings_view(path@.take(i + 1)) =~= strings_view(path@.take(i as int)).push(path@[i as int]@));
        }
        i = i + 1;
    }
    assert(path@.take(path@.len() as int) =~= path@);
    let mut out = String::new();
    crate::text::push_joined(&mut out, &parts, "::");
    assert(out@ =~= module_key(strings_view(path@)));
    out
}

fn qualify_exec(path: &Vec<String>, name: &str) -> (r: String)
    ensures
        r@ == qualify(strings_view(path@), name@),
{
    qualified_name(path.as_slice(), name)
}

pub open spec fn pairs_view(v: Seq<(String, String)>) -> Seq<(Seq<char>, Seq<char>)> {
    v.map_values(|p: (String, String)| (p.0@, p.1@))
}

fn push_pair(out: &mut Vec<(String, String)>, a: String, b: String)
    ensures
        pairs_view(final(out)@) == pairs_view(old(out)@).push((a@, b@)),
{
    out.push((a, b));
    assert(pairs_view(out@) =~= pairs_view(old(out)@).push((a@, b@)));
}

fn collect_item_types(it: &RustItem, path: &mut Vec<String>, out: &mut Vec<(String, String)>)
    ensures
        final(path)@ == old(path)@,
        pairs_view(final(out)@) == pairs_view(old(out)@) + item_type_decls(*it, strings_view(old(path)@)),
    decreases it,
{
    match it {
        RustItem::Mod { name, items } => {
            path.push(name.clone());
            assert(strings_view(path@) =~= strings_view(old(path)@).push(name@));
            collect_items_types(items, path, out);
            path.pop();
            assert(path@ =~= old(path)@);
        },
        RustItem::Struct { name, .. } | RustItem::Enum { name, .. } | RustItem::Trait { name, .. } => {
            let q = qualify_exec(path, name.as_str());
            push_pair(out, name.clone(), q);
            assert(pairs_view(out@) =~= pairs_view(old(out)@) + item_type_decls(*it, strings_view(old(path)@)));
        },
        RustItem::Fn { nested, .. } | RustItem::Impl { nested, .. } | RustItem::Other { nested } => {
            collect_items_types(nested, path, out);
        },
        RustItem::Use { .. } => {
            assert(pairs_view(out@) =~= pairs_view(old(out)@) + item_type_decls(*it, strings_view(old(path)@)));
        },
    }
}

fn collect_items_types(its: &Vec<RustItem>, path: &mut Vec<String>, out: &mut Vec<(String, String)>)
    ensures
        final(path)@ == old(path)@,
        pairs_view(final(out)@) == pairs_view(old(out)@) + items_type_decls(its@, strings_view(old(path)@)),
    decreases its,
{
    let ghost p0 = path@;
    let ghost o0 = pairs_view(out@);
    let mut i: usize = 0;
    assert(its@.take(0) =~= Seq::<RustItem>::empty());
    while i < its.len()
        invariant
            i <= its@.len(),
            path@ == p0,
            pairs_view(out@) == o0 + items_type_decls(its@.take(i as int), strings_view(p0)),
        decreases its@.len() - i,
    {
        collect_item_types(&its[i], path, out);
        assert(its@.take(i + 1).drop_last() =~= its@.take(i as int));
        assert(pairs_view(out@) =~= o0 + items_type_decls(its@.take(i + 1), strings_view(p0)));
        i = i + 1;
    }
    assert(its@.take(its@.len() as int) =~= its@);
}

fn collect_item_fns(it: &RustItem, path: &mut Vec<String>, out: &mut Vec<(String, String)>)
    ensures
        final(path)@ == old(path)@,
        pairs_view(final(out)@) == pairs_view(old(out)@) + item_fn_decls(*it, strings_view(old(path)@)),
    decreases it,
{
    match it {
        RustItem::Mod { name, items } => {
            path.push(name.clone());
            assert(strings_view(path@) =~= strings_view(old(path)@).push(name@));
            collect_items_fns(items, path, out);
            path.pop();
            assert(path@ =~= old(path)@);
        },
        RustItem::Fn { name, .. } => {
            let k = path_key(path);
            push_pair(out, k, name.clone());
            assert(pairs_view(out@) =~= pairs_view(old(out)@) + item_fn_decls(*it, strings_view(old(path)@)));
        },
        RustItem::Struct { nested, .. } | RustItem::Enum { nested, .. } | RustItem::Trait { nested, .. }
        | RustItem::Impl { nested, .. } | RustItem::Other { nested } => {
            collect_items_fns(nested, path, out);
        },
        RustItem::Use { .. } => {
            assert(pairs_view(out@) =~= pairs_view(old(out)@) + item_fn_decls(*it, strings_view(old(path)@)));
        },
    }
}

fn collect_items_fns(its: &Vec<RustItem>, path: &mut Vec<String>, out: &mut Vec<(String, String)>)
    ensures
        final(path)@ == old(path)@,
        pairs_view(final(out)@) == pairs_view(old(out)@) + items_fn_decls(its@, strings_view(old(path)@)),
    decreases its,
{
    let ghost p0 = path@;
    let ghost o0 = pairs_view(out@);
    let mut i: usize = 0;
    assert(its@.take(0) =~= Seq::<RustItem>::empty());
    while i < its.len()
        invariant
            i <= its@.len(),
            path@ == p0,
            pairs_view(out@) == o0 + items_fn_decls(its@.take(i as int), strings_view(p0)),
        decreases its@.len() - i,
    {
        collect_item_fns(&its[i], path, out);
        assert(its@.take(i + 1).drop_last() =~= its@.take(i as int));
        assert(pairs_view(out@) =~= o0 + items_fn_decls(its@.take(i + 1), strings_view(p0)));
        i = i + 1;
    }
    assert(its@.take(its@.len() as int) =~= its@);
}

/// The declarations of every file, files in order, each from the empty path.
pub open spec fn files_type_decls(files: Seq<RustFile>) -> Seq<(Seq<char>, Seq<char>)>
    decreases files.len(),
{
    if files.len() == 0 {
        Seq::empty()
    } else {
        files_type_decls(files.drop_last()) + items_type_decls(files.last().items@, Seq::empty())
    }
}

pub open spec fn files_fn_decls(files: Seq<RustFile>) -> Seq<(Seq<char>, Seq<char>)>
    decreases files.len(),
{
    if files.len() == 0 {
        Seq::empty()
    } else {
        files_fn_decls(files.drop_last()) + items_fn_decls(files.last().items@, Seq::empty())
    }
}

fn collect_tables(files: &[RustFile]) -> (r: (Vec<(String, String)>, Vec<(String, String)>))
    ensures
        pairs_view(r.0@) == files_type_decls(files@),
        pairs_view(r.1@) == files_fn_decls(files@),
{
    let mut types: Vec<(String, String)> = Vec::new();
    let mut fns: Vec<(String, String)> = Vec::new();
    let mut path: Vec<String> = Vec::new();
    let mut i: usize = 0;
    assert(files@.take(0) =~= Seq::<RustFile>::empty());
    assert(pairs_view(types@) =~= Seq::<(Seq<char>, Seq<char>)>::empty());
    assert(pairs_view(fns@) =~= Seq::<(Seq<char>, Seq<char>)>::empty());
    while i < files.len()
        invariant
            i <= files@.len(),
            path@.len() == 0,
            pairs_view(types@) == files_type_decls(files@.take(i as int)),
            pairs_view(fns@) == files_fn_decls(files@.take(i as int)),
        decreases files@.len() - i,
    {
        assert(strings_view(path@) =~= Seq::<Seq<char>>::empty());
        collect_items_types(&files[i].items, &mut path, &mut types);
        collect_items_fns(&files[i].items, &mut path, &mut fns);
        assert(files@.take(i + 1).drop_last() =~= files@.take(i as int));
        i = i + 1;
    }
    assert(files@.take(files@.len() as int) =~= files@);
    (types, fns)
}

fn lookup_exec(types: &Vec<(String, String)>, name: &str) -> (r: Option<String>)
    ensures
        match r {
            Some(q) => lookup_type(pairs_view(types@), name@) == Some(q@),
            None => lookup_type(pairs_view(types@), name@) is None,
        },
{
    let ghost tv = pairs_view(types@);
    let mut j: usize = types.len();
    assert(tv.take(j as int) =~= tv);
    while j > 0
        invariant
            j <= types@.len(),
            tv == pairs_view(types@),
            lookup_type(tv, name@) == lookup_type(tv.take(j as int), name@),
        decreases j,
    {
        assert(tv.take(j as int).drop_last() =~= tv.take(j - 1));
        assert(tv.take(j as int).last() == tv[j - 1]);
        if str_eq(types[j - 1].0.as_str(), name) {
            return Some(types[j - 1].1.clone());
        }
        j = j - 1;
    }
    None
}

fn resolve_exec(types: &Vec<(String, String)>, name: &str) -> (r: String)
    ensures
        r@ == resolve(pairs_view(types@), name@),
{
    match lookup_exec(types, name) {
        Some(q) => q,
        None => name.to_owned(),
    }
}

fn has_fn_exec(fns: &Vec<(String, String)>, key: &str, name: &str) -> (r: bool)
    ensures
        r == has_fn(pairs_view(fns@), key@, name@),
{
    let ghost fv = pairs_view(fns@);
    let mut k: usize = 0;
    while k < fns.len()
        invariant
            k <= fns@.len(),
            fv == pairs_view(fns@),
            forall|j: int| 0 <= j < k ==> fv[j] != (key@, name@),
        decreases fns@.len() - k,
    {
        if str_eq(fns[k].0.as_str(), key) && str_eq(fns[k].1.as_str(), name) {
            assert(fv[k as int] == (key@, name@));
            return true;
        }
        k = k + 1;
    }
    false
}

fn push_string(out: &mut Vec<String>, s: String)
    ensures
        strings_view(final(out)@) == strings_view(old(out)@).push(s@),
{
    out.push(s);
    assert(strings_view(out@) =~= strings_view(old(out)@).push(s@));
}

fn collect_type_names(t: &RustType, out: &mut Vec<String>)
    ensures
        strings_view(final(out)@) == strings_view(old(out)@) + type_names(*t),
    decreases t,
{
    match t {
        RustType::Path { name, args } => {
            push_string(out, name.clone());
            let ghost mid = strings_view(out@);
            collect_types_names(args, out);
            assert(strings_view(out@) =~= strings_view(old(out)@) + type_names(*t));
        },
        RustType::Other => {
            assert(strings_view(out@) =~= strings_view(old(out)@) + type_names(*t));
        },
    }
}

fn collect_types_names(ts: &Vec<RustType>, out: &mut Vec<String>)
    ensures
        strings_view(final(out)@) == strings_view(old(out)@) + types_names(ts@),
    decreases ts,
{
    let ghost o0 = strings_view(out@);
    let mut i: usize = 0;
    assert(ts@.take(0) =~= Seq::<RustType>::empty());
    while i < ts.len()
        invariant
            i <= ts@.len(),
            strings_view(out@) == o0 + types_names(ts@.take(i as int)),
        decreases ts@.len() - i,
    {
        collect_type_names(&ts[i], out);
        assert(ts@.take(i + 1).drop_last() =~= ts@.take(i as int));
        assert(strings_view(out@) =~= o0 + types_names(ts@.take(i + 1)));
        i = i + 1;
    }
    assert(ts@.take(ts@.len() as int) =~= ts@);
}

proof fn lemma_edge_records_append(a: Seq<EdgeEv>, b: Seq<EdgeEv>)
    ensures
        edge_records(a + b) == edge_records(a) + edge_records(b),
{
    assert(edge_records(a + b) =~= edge_records(a) + edge_records(b));
}

/// Registers `path::name` as a node of `part_type` with its containment edge.
fn declare_item(
    path: &Vec<String>,
    name: &str,
    part_type: &str,
    nodes: &mut Vec<Node>,
    edges: &mut Vec<Edge>,
)
    ensures
        nodes_v(final(nodes)@) == add_node(nodes_v(old(nodes)@), (qualify(strings_view(path@), name@), part_type@)),
        edges_v(final(edges)@) == edges_v(old(edges)@) + edge_records(containment(strings_view(path@), qualify(strings_view(path@), name@))),
{
    let q = qualify_exec(path, name);
    push_node(nodes, q.as_str(), part_type);
    let module = path_key(path);
    if crate::text::str_chars(module.as_str()).len() > 0 {
        push_edge(edges, module.as_str(), q.as_str(), "has_part");
    }
    assert(edges_v(edges@) =~= edges_v(old(edges)@) + edge_records(containment(strings_view(path@), q@)));
}

fn push_field_edges(owner: &str, field_types: &Vec<RustType>, types: &Vec<(String, String)>, edges: &mut Vec<Edge>)
    ensures
        edges_v(final(edges)@) == edges_v(old(edges)@) + edge_records(field_edges(owner@, types_names(field_types@), pairs_view(types@))),
{
    let mut names: Vec<String> = Vec::new();
    assert(strings_view(names@) =~= Seq::<Seq<char>>::empty());
    collect_types_names(field_types, &mut names);
    assert(strings_view(names@) =~= types_names(field_types@));
    let ghost nv = strings_view(names@);
    let ghost tv = pairs_view(types@);
    let ghost f = |c: Seq<char>| match lookup_type(tv, c) {
        Some(t) => if t != owner@ { seq![(owner@, t, "has_part"@)] } else { Seq::empty() },
        None => Seq::empty(),
    };
    let ghost e0 = edges_v(edges@);
    let mut i: usize = 0;
    while i < names.len()
        invariant
            i <= names@.len(),
            nv == strings_view(names@),
            tv == pairs_view(types@),
            f == (|c: Seq<char>| match lookup_type(tv, c) {
                Some(t) => if t != owner@ { seq![(owner@, t, "has_part"@)] } else { Seq::empty() },
                None => Seq::empty(),
            }),
            edges_v(edges@) == e0 + edge_records(flat_map(nv.take(i as int), f)),
        decreases names@.len() - i,
    {
        proof {
            lemma_flat_map_step(nv, i as int, f);
            lemma_edge_records_append(flat_map(nv.take(i as int), f), f(nv[i as int]));
        }
        assert(names[i as int]@ == nv[i as int]);
        match lookup_exec(types, names[i].as_str()) {
            Some(t) => {
                if !str_eq(t.as_str(), owner) {
                    push_edge(edges, owner, t.as_str(), "has_part");
                }
            },
            None => {},
        }
        assert(edges_v(edges@) =~= e0 + edge_records(flat_map(nv.take(i + 1), f)));
        i = i + 1;
    }
    assert(nv.take(nv.len() as int) =~= nv);
}

fn push_call_edges(
    path: &Vec<String>,
    caller: &str,
    calls: &Vec<String>,
    fns: &Vec<(String, String)>,
    edges: &mut Vec<Edge>,
)
    ensures
        edges_v(final(edges)@) == edges_v(old(edges)@) + edge_records(call_edges(strings_view(path@), caller@, strings_view(calls@), pairs_view(fns@))),
{
    let ghost pv = strings_view(path@);
    let ghost cv = strings_view(calls@);
    let ghost fv = pairs_view(fns@);
    let ghost f = |c: Seq<char>| if has_fn(fv, module_key(pv), c) {
        seq![(qualify(pv, caller@), qualify(pv, c), "flows_to"@)]
    } else {
        Seq::empty()
    };
    let key = path_key(path);
    let caller_q = qualify_exec(path, caller);
    let ghost e0 = edges_v(edges@);
    let mut i: usize = 0;
    while i < calls.len()
        invariant
            i <= calls@.len(),
            pv == strings_view(path@),
            cv == strings_view(calls@),
            fv == pairs_view(fns@),
            key@ == module_key(pv),
            caller_q@ == qualify(pv, caller@),
            f == (|c: Seq<char>| if has_fn(fv, module_key(pv), c) {
                seq![(qualify(pv, caller@), qualify(pv, c), "flows_to"@)]
            } else {
                Seq::empty()
            }),
            edges_v(edges@) == e0 + edge_records(flat_map(cv.take(i as int), f)),
        decreases calls@.len() - i,
    {
        proof {
            lemma_flat_map_step(cv, i as int, f);
            lemma_edge_records_append(flat_map(cv.take(i as int), f), f(cv[i as int]));
        }
        assert(calls[i as int]@ == cv[i as int]);
        if has_fn_exec(fns, key.as_str(), calls[i].as_str()) {
            let callee_q = qualify_exec(path, calls[i].as_str());
            push_edge(edges, caller_q.as_str(), callee_q.as_str(), "flows_to");
        }
        assert(edges_v(edges@) =~= e0 + edge_records(flat_map(cv.take(i + 1), f)));
        i = i + 1;
    }
    assert(cv.take(cv.len() as int) =~= cv);
}

fn visit_item(
    it: &RustItem,
    path: &mut Vec<String>,
    types: &Vec<(String, String)>,
    fns: &Vec<(String, String)>,
    nodes: &mut Vec<Node>,
    edges: &mut Vec<Edge>,
)
    ensures
        final(path)@ == old(path)@,
        nodes_v(final(nodes)@) == add_nodes(nodes_v(old(nodes)@), item_node_events(*it, strings_view(old(path)@), pairs_view(types@))),
        edges_v(final(edges)@) == edges_v(old(edges)@) + edge_records(item_edge_events(*it, strings_view(old(path)@), pairs_view(types@), pairs_view(fns@))),
    decreases it,
{
    let ghost pv = strings_view(path@);
    let ghost tv = pairs_view(types@);
    let ghost fv = pairs_view(fns@);
    let ghost n0 = nodes_v(nodes@);
    let ghost e0 = edges_v(edges@);
    match it {
        RustItem::Mod { name, items } => {
            let this = qualify_exec(path, name.as_str());
            push_node(nodes, this.as_str(), "module");
            let parent = path_key(path);
            if crate::text::str_chars(parent.as_str()).len() > 0 {
                push_edge(edges, parent.as_str(), this.as_str(), "has_part");
            }
            assert(edges_v(edges@) =~= e0 + edge_records(containment(pv, this@)));
            let ghost n1 = nodes_v(nodes@);
            let ghost e1 = edges_v(edges@);
            path.push(name.clone());
            assert(strings_view(path@) =~= pv.push(name@));
            visit_items(items, path, types, fns, nodes, edges);
            path.pop();
            assert(path@ =~= old(path)@);
            proof {
                let ev0 = seq![(qualify(pv, name@), "module"@)];
                lemma_add_nodes_append(n0, ev0, items_node_events(items@, pv.push(name@), tv));
                assert(add_nodes(n0, ev0) == add_node(add_nodes(n0, Seq::empty()), (qualify(pv, name@), "module"@))) by {
                    assert(ev0.drop_last() =~= Seq::<NodeEv>::empty());
                assert(add_nodes(n0, Seq::<NodeEv>::empty()) == n0);
                assert(add_nodes(n0, ev0) == add_node(n0, ev0[0]));
                }
                lemma_edge_records_append(containment(pv, this@), items_edge_events(items@, pv.push(name@), tv, fv));
            }
            assert(nodes_v(nodes@) == add_nodes(n0, item_node_events(*it, pv, tv)));
        },
        RustItem::Struct { name, field_types, nested } | RustItem::Enum { name, field_types, nested } => {
            let part_type = match it {
                RustItem::Struct { .. } => "struct",
                _ => "enum",
            };
            declare_item(path, name.as_str(), part_type, nodes, edges);
            let q = qualify_exec(path, name.as_str());
            push_field_edges(q.as_str(), field_types, types, edges);
            visit_items(nested, path, types, fns, nodes, edges);
            proof {
                let ev0 = seq![(qualify(pv, name@), part_type@)];
                lemma_add_nodes_append(n0, ev0, items_node_events(nested@, pv, tv));
                assert(ev0.drop_last() =~= Seq::<NodeEv>::empty());
                assert(add_nodes(n0, Seq::<NodeEv>::empty()) == n0);
                assert(add_nodes(n0, ev0) == add_node(n0, ev0[0]));
                let c = containment(pv, qualify(pv, name@));
                let fe = field_edges(qualify(pv, name@), types_names(field_types@), tv);
                let ne = items_edge_events(nested@, pv, tv, fv);
                lemma_edge_records_append(c, fe);
                lemma_edge_records_append(c + fe, ne);
                assert(e0 + edge_records(c) + edge_records(fe) + edge_records(ne) =~= e0 + edge_records(c + fe + ne));
            }
            assert(nodes_v(nodes@) == add_nodes(n0, item_node_events(*it, pv, tv)));
        },
        RustItem::Trait { name, nested } => {
            declare_item(path, name.as_str(), "trait", nodes, edges);
            visit_items(nested, path, types, fns, nodes, edges);
            proof {
                let ev0 = seq![(qualify(pv, name@), "trait"@)];
                lemma_add_nodes_append(n0, ev0, items_node_events(nested@, pv, tv));
                assert(ev0.drop_last() =~= Seq::<NodeEv>::empty());
                assert(add_nodes(n0, Seq::<NodeEv>::empty()) == n0);
                assert(add_nodes(n0, ev0) == add_node(n0, ev0[0]));
                lemma_edge_records_append(containment(pv, qualify(pv, name@)), items_edge_events(nested@, pv, tv, fv));
            }
            assert(nodes_v(nodes@) == add_nodes(n0, item_node_events(*it, pv, tv)));
        },
        RustItem::Fn { name, calls, nested } => {
            declare_item(path, name.as_str(), "function", nodes, edges);
            push_call_edges(path, name.as_str(), calls, fns, edges);
            visit_items(nested, path, types, fns, nodes, edges);
            proof {
                let ev0 = seq![(qualify(pv, name@), "function"@)];
                lemma_add_nodes_append(n0, ev0, items_node_events(nested@, pv, tv));
                assert(ev0.drop_last() =~= Seq::<NodeEv>::empty());
                assert(add_nodes(n0, Seq::<NodeEv>::empty()) == n0);
                assert(add_nodes(n0, ev0) == add_node(n0, ev0[0]));
                let c = containment(pv, qualify(pv, name@));
                let ce = call_edges(pv, name@, strings_view(calls@), fv);
                let ne = items_edge_events(nested@, pv, tv, fv);
                lemma_edge_records_append(c, ce);
                lemma_edge_records_append(c + ce, ne);
                assert(e0 + edge_records(c) + edge_records(ce) + edge_records(ne) =~= e0 + edge_records(c + ce + ne));
            }
            assert(nodes_v(nodes@) == add_nodes(n0, item_node_events(*it, pv, tv)));
        },
        RustItem::Impl { generic, trait_name, self_type, nested } => {
            let ghost applies = impl_applies(*generic, *trait_name, *self_type);
            match (generic, trait_name, self_type) {
                (false, Some(tn), Some(st)) => {
                    let type_q = resolve_exec(types, st.as_str());
                    let trait_q = resolve_exec(types, tn.as_str());
                    push_node(nodes, type_q.as_str(), "type");
                    push_node(nodes, trait_q.as_str(), "trait");
                    push_edge(edges, type_q.as_str(), trait_q.as_str(), "satisfies");
                    proof {
                        let ev = seq![(type_q@, "type"@), (trait_q@, "trait"@)];
                        let ev1 = seq![(type_q@, "type"@)];
                        assert(ev.drop_last() =~= ev1);
                        assert(ev1.drop_last() =~= Seq::<NodeEv>::empty());
                        assert(add_nodes(n0, Seq::<NodeEv>::empty()) == n0);
                        assert(add_nodes(n0, ev1) == add_node(n0, (type_q@, "type"@)));
                        assert(add_nodes(n0, ev) == add_node(add_nodes(n0, ev1), (trait_q@, "trait"@)));
                        assert(nodes_v(nodes@) == add_nodes(n0, ev));
                        assert(edges_v(edges@) =~= e0 + edge_records(seq![(type_q@, trait_q@, "satisfies"@)]));
                    }
                },
                _ => {
                    assert(!applies);
                    assert(edges_v(edges@) =~= e0 + edge_records(Seq::empty()));
                    assert(add_nodes(n0, Seq::<NodeEv>::empty()) == n0);
                },
            }
            let ghost n1 = nodes_v(nodes@);
            let ghost e1 = edges_v(edges@);
            visit_items(nested, path, types, fns, nodes, edges);
            proof {
                let ev0 = if applies {
                    seq![(resolve(tv, self_type->0@), "type"@), (resolve(tv, trait_name->0@), "trait"@)]
                } else {
                    Seq::empty()
                };
                let ee = if applies {
                    seq![(resolve(tv, self_type->0@), resolve(tv, trait_name->0@), "satisfies"@)]
                } else {
                    Seq::empty()
                };
                assert(n1 == add_nodes(n0, ev0));
                assert(e1 == e0 + edge_records(ee));
                lemma_add_nodes_append(n0, ev0, items_node_events(nested@, pv, tv));
                lemma_edge_records_append(ee, items_edge_events(nested@, pv, tv, fv));
            }
            assert(nodes_v(nodes@) == add_nodes(n0, item_node_events(*it, pv, tv)));
        },
        RustItem::Use { .. } => {
            assert(edges_v(edges@) =~= e0 + edge_records(Seq::empty()));
            assert(add_nodes(n0, Seq::<NodeEv>::empty()) == n0);
        },
        RustItem::Other { nested } => {
            visit_items(nested, path, types, fns, nodes, edges);
        },
    }
    assert(nodes_v(nodes@) == add_nodes(n0, item_node_events(*it, pv, tv)));
}

fn visit_items(
    its: &Vec<RustItem>,
    path: &mut Vec<String>,
    types: &Vec<(String, String)>,
    fns: &Vec<(String, String)>,
    nodes: &mut Vec<Node>,
    edges: &mut Vec<Edge>,
)
    ensures
        final(path)@ == old(path)@,
        nodes_v(final(nodes)@) == add_nodes(nodes_v(old(nodes)@), items_node_events(its@, strings_view(old(path)@), pairs_view(types@))),
        edges_v(final(edges)@) == edges_v(old(edges)@) + edge_records(items_edge_events(its@, strings_view(old(path)@), pairs_view(types@), pairs_view(fns@))),
    decreases its,
{
    let ghost p0 = path@;
    let ghost pv = strings_view(path@);
    let ghost tv = pairs_view(types@);
    let ghost fv = pairs_view(fns@);
    let ghost n0 = nodes_v(nodes@);
    let ghost e0 = edges_v(edges@);
    let mut i: usize = 0;
    assert(its@.take(0) =~= Seq::<RustItem>::empty());
    assert(edges_v(edges@) =~= e0 + edge_records(Seq::empty()));
    while i < its.len()
        invariant
            i <= its@.len(),
            path@ == p0,
            pv == strings_view(p0),
            tv == pairs_view(types@),
            fv == pairs_view(fns@),
            nodes_v(nodes@) == add_nodes(n0, items_node_events(its@.take(i as int), pv, tv)),
            edges_v(edges@) == e0 + edge_records(items_edge_events(its@.take(i as int), pv, tv, fv)),
        decreases its@.len() - i,
    {
        visit_item(&its[i], path, types, fns, nodes, edges);
        proof {
            let pre = its@.take(i as int);
            assert(its@.take(i + 1).drop_last() =~= pre);
            assert(its@.take(i + 1).last() == its@[i as int]);
            lemma_add_nodes_append(n0, items_node_events(pre, pv, tv), item_node_events(its@[i as int], pv, tv));
            lemma_edge_records_append(items_edge_events(pre, pv, tv, fv), item_edge_events(its@[i as int], pv, tv, fv));
            assert(edges_v(edges@) =~= e0 + edge_records(items_edge_events(its@.take(i + 1), pv, tv, fv)));
        }
        i = i + 1;
    }
    assert(its@.take(its@.len() as int) =~= its@);
}

// ---------------------------------------------------------------------
// Whole-tree recognition
// ---------------------------------------------------------------------

pub open spec fn files_node_events(files: Seq<RustFile>, types: Seq<(Seq<char>, Seq<char>)>) -> Seq<NodeEv>
    decreases files.len(),
{
    if files.len() == 0 {
        Seq::empty()
    } else {
        files_node_events(files.drop_last(), types) + items_node_events(files.last().items@, Seq::empty(), types)
    }
}

pub open spec fn files_edge_events(
    files: Seq<RustFile>,
    types: Seq<(Seq<char>, Seq<char>)>,
    fns: Seq<(Seq<char>, Seq<char>)>,
) -> Seq<EdgeEv>
    decreases files.len(),
{
    if files.len() == 0 {
        Seq::empty()
    } else {
        files_edge_events(files.drop_last(), types, fns) + items_edge_events(files.last().items@, Seq::empty(), types, fns)
    }
}

/// Recognizes every file against the name tables of all of them: the
/// registered nodes (first registration of an id wins) and every edge, in
/// traversal order, files in order.
pub fn recognize_files(files: &[RustFile]) -> (r: (Vec<Node>, Vec<Edge>))
    ensures
        nodes_v(r.0@) == add_nodes(Seq::empty(), files_node_events(files@, files_type_decls(files@))),
        edges_v(r.1@) == edge_records(files_edge_events(files@, files_type_decls(files@), files_fn_decls(files@))),
{
    let (types, fns) = collect_tables(files);
    let ghost tv = pairs_view(types@);
    let ghost fv = pairs_view(fns@);
    let mut nodes: Vec<Node> = Vec::new();
    let mut edges: Vec<Edge> = Vec::new();
    let mut path: Vec<String> = Vec::new();
    let mut i: usize = 0;
    assert(files@.take(0) =~= Seq::<RustFile>::empty());
    assert(nodes_v(nodes@) =~= Seq::<NodeV>::empty());
    assert(edges_v(edges@) =~= edge_records(Seq::empty()));
    while i < files.len()
        invariant
            i <= files@.len(),
            path@.len() == 0,
            tv == pairs_view(types@),
            fv == pairs_view(fns@),
            nodes_v(nodes@) == add_nodes(Seq::empty(), files_node_events(files@.take(i as int), tv)),
            edges_v(edges@) == edge_records(files_edge_events(files@.take(i as int), tv, fv)),
        decreases files@.len() - i,
    {
        assert(strings_view(path@) =~= Seq::<Seq<char>>::empty());
        visit_items(&files[i].items, &mut path, &types, &fns, &mut nodes, &mut edges);
        proof {
            let pre = files@.take(i as int);
            assert(files@.take(i + 1).drop_last() =~= pre);
            assert(files@.take(i + 1).last() == files@[i as int]);
            lemma_add_nodes_append(Seq::empty(), files_node_events(pre, tv), items_node_events(files@[i as int].items@, Seq::empty(), tv));
            lemma_edge_records_append(files_edge_events(pre, tv, fv), items_edge_events(files@[i as int].items@, Seq::empty(), tv, fv));
        }
        i = i + 1;
    }
    assert(files@.take(files@.len() as int) =~= files@);
    (nodes, edges)
}

// ---------------------------------------------------------------------
// Cross-crate `requires`
// ---------------------------------------------------------------------

/// The leading segment of every top-level `use` tree of a file.
pub open spec fn use_roots(items: Seq<RustItem>) -> Seq<Seq<char>> {
    flat_map(items, |it: RustItem| match it {
        RustItem::Use { roots } => strings_view(roots@),
        _ => Seq::empty(),
    })
}

/// Whether a `use` root names a different workspace crate.
pub open spec fn is_required_crate(name: Seq<char>, this_crate: Seq<char>, workspace: Seq<Seq<char>>) -> bool {
    name != "self"@ && name != "super"@ && name != "crate"@ && name != this_crate && workspace.contains(name)
}

/// Some file `use`s `name` at top level.
pub open spec fn used_anywhere(files: Seq<RustFile>, name: Seq<char>) -> bool {
    exists|f: int| 0 <= f < files.len() && #[trigger] use_roots(files[f].items@).contains(name)
}

/// `names` lists, in increasing order and once each, every workspace crate
/// (other than this one) that some file `use`s.
pub open spec fn required_order(files: Seq<RustFile>, this_crate: Seq<char>, workspace: Seq<Seq<char>>, names: Seq<Seq<char>>) -> bool {
    &&& forall|i: int, j: int| 0 <= i < j < names.len() ==> lex_lt(#[trigger] names[i], #[trigger] names[j])
    &&& forall|n: Seq<char>| names.contains(n) <==> (used_anywhere(files, n) && is_required_crate(n, this_crate, workspace))
}

fn roots_of_file(file: &RustFile) -> (r: Vec<String>)
    ensures
        strings_view(r@) == use_roots(file.items@),
{
    let ghost f = |it: RustItem| match it {
        RustItem::Use { roots } => strings_view(roots@),
        _ => Seq::empty(),
    };
    let mut out: Vec<String> = Vec::new();
    let mut i: usize = 0;
    assert(strings_view(out@) =~= flat_map(file.items@.take(0), f));
    while i < file.items.len()
        invariant
            i <= file.items@.len(),
            f == (|it: RustItem| match it {
                RustItem::Use { roots } => strings_view(roots@),
                _ => Seq::empty(),
            }),
            strings_view(out@) == flat_map(file.items@.take(i as int), f),
        decreases file.items@.len() - i,
    {
        proof { lemma_flat_map_step(file.items@, i as int, f); }
        let ghost before = strings_view(out@);
        match &file.items[i] {
            RustItem::Use { roots } => {
                let mut k: usize = 0;
                while k < roots.len()
                    invariant
                        k <= roots@.len(),
                        strings_view(out@) == before + strings_view(roots@.take(k as int)),
                    decreases roots@.len() - k,
                {
                    push_string(&mut out, roots[k].clone());
                    assert(strings_view(roots@.take(k + 1)) =~= strings_view(roots@.take(k as int)).push(roots@[k as int]@));
                    assert(strings_view(out@) =~= before + strings_view(roots@.take(k + 1)));
                    k = k + 1;
                }
                assert(roots@.take(roots@.len() as int) =~= roots@);
            },
            _ => {
                assert(strings_view(out@) =~= before + f(file.items@[i as int]));
            },
        }
        i = i + 1;
    }
    assert(file.items@.take(file.items@.len() as int) =~= file.items@);
    out
}

fn contains_string(v: &[String], s: &str) -> (r: bool)
    ensures
        r == strings_view(v@).contains(s@),
{
    let ghost sv = strings_view(v@);
    let mut i: usize = 0;
    while i < v.len()
        invariant
            i <= v@.len(),
            sv == strings_view(v@),
            forall|k: int| 0 <= k < i ==> sv[k] != s@,
        decreases v@.len() - i,
    {
        if str_eq(v[i].as_str(), s) {
            assert(sv[i as int] == s@);
            return true;
        }
        i = i + 1;
    }
    false
}

/// One `requires` edge from `this_crate` to each workspace-sibling crate
/// that some file `use`s at top level (`self`, `super`, `crate` and this
/// crate's own name excluded), in increasing crate-name order, once each
/// however many `use` sites name it.
pub fn cross_crate_requires(files: &[RustFile], this_crate: &str, workspace_crates: &[String]) -> (r: Vec<Edge>)
    ensures
        exists|names: Seq<Seq<char>>| #[trigger] required_order(files@, this_crate@, strings_view(workspace_crates@), names)
            && edges_v(r@) == edge_records(names.map_values(|n: Seq<char>| (this_crate@, n, "requires"@))),
{
    let ghost ws = strings_view(workspace_crates@);
    let mut table: Vec<(Vec<char>, Vec<char>)> = Vec::new();
    let mut f: usize = 0;
    while f < files.len()
        invariant
            f <= files@.len(),
            ws == strings_view(workspace_crates@),
            ids_sorted(table_view(table@)),
            forall|x: Seq<char>| #[trigger] assigns(table_view(table@), x)
                <==> (exists|g: int| 0 <= g < f && #[trigger] use_roots(files@[g].items@).contains(x)) && is_required_crate(x, this_crate@, ws),
        decreases files@.len() - f,
    {
        let roots = roots_of_file(&files[f]);
        let ghost rv = strings_view(roots@);
        let ghost t0 = table_view(table@);
        let mut k: usize = 0;
        while k < roots.len()
            invariant
                k <= roots@.len(),
                f < files@.len(),
                rv == strings_view(roots@),
                rv == use_roots(files@[f as int].items@),
                ws == strings_view(workspace_crates@),
                ids_sorted(table_view(table@)),
                forall|x: Seq<char>| #[trigger] assigns(table_view(table@), x)
                    <==> assigns(t0, x) || (rv.take(k as int).contains(x) && is_required_crate(x, this_crate@, ws)),
            decreases roots@.len() - k,
        {
            let name = roots[k].as_str();
            let keep = !str_eq(name, "self") && !str_eq(name, "super") && !str_eq(name, "crate")
                && !str_eq(name, this_crate) && contains_string(workspace_crates, name);
            proof {
                reveal_strlit("self");
                reveal_strlit("super");
                reveal_strlit("crate");
            }
            let ghost tk = table_view(table@);
            if keep {
                ensure_node(&mut table, str_chars(name), Vec::new());
            }
            proof {
                assert(rv.take(k + 1) =~= rv.take(k as int).push(rv[k as int]));
                assert(rv[k as int] == name@);
                assert forall|x: Seq<char>| rv.take(k + 1).contains(x) <==> (rv.take(k as int).contains(x) || x == name@) by {
                    if rv.take(k + 1).contains(x) {
                        let j = choose|j: int| 0 <= j < k + 1 && #[trigger] rv.take(k + 1)[j] == x;
                        if j < k {
                            assert(rv.take(k as int)[j] == x);
                        }
                    }
                    if rv.take(k as int).contains(x) {
                        let j = choose|j: int| 0 <= j < k && #[trigger] rv.take(k as int)[j] == x;
                        assert(rv.take(k + 1)[j] == x);
                    }
                    if x == name@ {
                        assert(rv.take(k + 1)[k as int] == x);
                    }
                }
                assert(keep == is_required_crate(name@, this_crate@, ws));
                assert forall|x: Seq<char>| #[trigger] assigns(table_view(table@), x)
                    <==> assigns(t0, x) || (rv.take(k + 1).contains(x) && is_required_crate(x, this_crate@, ws)) by {
                    assert(assigns(tk, x) <==> assigns(t0, x) || (rv.take(k as int).contains(x) && is_required_crate(x, this_crate@, ws)));
                }
            }
            k = k + 1;
        }
        proof {
            assert(rv.take(rv.len() as int) =~= rv);
            assert forall|x: Seq<char>| #[trigger] assigns(table_view(table@), x)
                <==> (exists|g: int| 0 <= g < f + 1 && #[trigger] use_roots(files@[g].items@).contains(x)) && is_required_crate(x, this_crate@, ws) by {
                if exists|g: int| 0 <= g < f + 1 && #[trigger] use_roots(files@[g].items@).contains(x) {
                    let g = choose|g: int| 0 <= g < f + 1 && #[trigger] use_roots(files@[g].items@).contains(x);
                    if g < f {
                        assert(exists|g: int| 0 <= g < f && #[trigger] use_roots(files@[g].items@).contains(x));
                    }
                }
            }
        }
        f = f + 1;
    }
    let ghost t = table_view(table@);
    let ghost names = t.map_values(|p: (Seq<char>, Seq<char>)| p.0);
    let mut edges: Vec<Edge> = Vec::new();
    let mut m: usize = 0;
    while m < table.len()
        invariant
            m <= table@.len(),
            t == table_view(table@),
            names == t.map_values(|p: (Seq<char>, Seq<char>)| p.0),
            edges_v(edges@) == edge_records(names.take(m as int).map_values(|n: Seq<char>| (this_crate@, n, "requires"@))),
        decreases table@.len() - m,
    {
        let name = crate::text::chars_to_string(table[m].0.as_slice(), 0, table[m].0.len());
        assert(name@ =~= names[m as int]);
        push_edge(&mut edges, this_crate, name.as_str(), "requires");
        assert(names.take(m + 1) =~= names.take(m as int).push(names[m as int]));
        assert(edges_v(edges@) =~= edge_records(names.take(m + 1).map_values(|n: Seq<char>| (this_crate@, n, "requires"@))));
        m = m + 1;
    }
    assert(names.take(names.len() as int) =~= names);
    proof {
        assert forall|i: int, j: int| 0 <= i < j < names.len() implies lex_lt(#[trigger] names[i], #[trigger] names[j]) by {
            assert(names[i] == t[i].0 && names[j] == t[j].0);
        }
        assert forall|n: Seq<char>| names.contains(n) <==> (used_anywhere(files@, n) && is_required_crate(n, this_crate@, ws)) by {
            if names.contains(n) {
                let k = choose|k: int| 0 <= k < names.len() && names[k] == n;
                assert(t[k].0 == n);
                assert(assigns(t, n));
            }
            if used_anywhere(files@, n) && is_required_crate(n, this_crate@, ws) {
                assert(assigns(t, n));
                let k = choose|k: int| 0 <= k < t.len() && t[k].0 == n;
                assert(names[k] == n);
            }
        }
        assert(required_order(files@, this_crate@, ws, names));
    }
    edges
}

/// A Cargo package name as the identifier `use` paths write: `-` becomes
/// `_`.
pub open spec fn crate_ident_spec(package: Seq<char>) -> Seq<char> {
    package.map_values(|c: char| if c == '-' { '_' } else { c })
}

pub fn crate_ident(package: &str) -> (r: String)
    ensures
        r@ == crate_ident_spec(package@),
{
    let v = str_chars(package);
    let mut out = String::new();
    let mut i: usize = 0;
    while i < v.len()
        invariant
            i <= v@.len(),
            v@ == package@,
            out@ == crate_ident_spec(v@.take(i as int)),
        decreases v@.len() - i,
    {
        let c = v[i];
        crate::text::push_char(&mut out, if c == '-' { '_' } else { c });
        assert(crate_ident_spec(v@.take(i + 1)) =~= crate_ident_spec(v@.take(i as int)).push(if c == '-' { '_' } else { c }));
        i = i + 1;
    }
    assert(v@.take(v@.len() as int) =~= v@);
    out
}

// ---------------------------------------------------------------------
// Lift into the semantic graph
// ---------------------------------------------------------------------

/// The relation whose canonical name is `s`, if any.
pub open spec fn relation_named(s: Seq<char>) -> Option<UfoRelation> {
    if exists|r: UfoRelation| canonical_name_of(r) == s {
        Some(choose|r: UfoRelation| canonical_name_of(r) == s)
    } else {
        None
    }
}

/// A node's stereotype: a trait is a `Role`, every other part type a
/// `Kind` named after it.
pub open spec fn stereotype_for(part_type: Seq<char>) -> StereotypeView {
    if part_type == "trait"@ {
        StereotypeView::Role(part_type)
    } else {
        StereotypeView::Kind(part_type)
    }
}

pub open spec fn lifted_node(n: Node) -> NodeView {
    NodeView { id: n.id@, stereotype: stereotype_for(n.part_type@), label: Some(n.label@) }
}

/// The semantic edge of a transport edge whose type is a canonical
/// relation name; none otherwise.
pub open spec fn lifted_edge(e: Edge) -> Seq<EdgeView> {
    match relation_named(e.edge_type@) {
        Some(r) => seq![EdgeView { id: e.id@, source: e.from@, target: e.to@, relation: r, provenance: Seq::empty() }],
        None => Seq::empty(),
    }
}

/// Lifts transport nodes and edges into a semantic graph: every node, with
/// its label and stereotype; every edge whose type names a relation.
pub fn to_sysgraph(nodes: &[Node], edges: &[Edge]) -> (g: SysGraph)
    ensures
        nodes_view(g.nodes@) == nodes@.map_values(|n: Node| lifted_node(n)),
        edges_view(g.edges@) == flat_map(edges@, |e: Edge| lifted_edge(e)),
{
    let mut graph = SysGraph::new();
    let mut i: usize = 0;
    assert(nodes_view(graph.nodes@) =~= nodes@.take(0).map_values(|n: Node| lifted_node(n)));
    while i < nodes.len()
        invariant
            i <= nodes@.len(),
            nodes_view(graph.nodes@) == nodes@.take(i as int).map_values(|n: Node| lifted_node(n)),
            graph.edges@.len() == 0,
        decreases nodes@.len() - i,
    {
        let n = &nodes[i];
        let stereotype = if str_eq(n.part_type.as_str(), "trait") {
            UfoStereotype::Role(n.part_type.clone())
        } else {
            UfoStereotype::Kind(n.part_type.clone())
        };
        let ghost before = graph.nodes@;
        let node = OntologicalNode::with_label(ElementId::new(n.id.as_str()), stereotype, n.label.as_str());
        graph.push_node(node);
        assert(nodes_view(graph.nodes@) =~= nodes_view(before).push(node_view(node)));
        assert(nodes@.take(i + 1) =~= nodes@.take(i as int).push(nodes@[i as int]));
        assert(nodes_view(graph.nodes@) =~= nodes@.take(i + 1).map_values(|n: Node| lifted_node(n)));
        i = i + 1;
    }
    assert(nodes@.take(nodes@.len() as int) =~= nodes@);
    let ghost f = |e: Edge| lifted_edge(e);
    let mut j: usize = 0;
    assert(edges_view(graph.edges@) =~= flat_map(edges@.take(0), f));
    while j < edges.len()
        invariant
            j <= edges@.len(),
            nodes_view(graph.nodes@) == nodes@.map_values(|n: Node| lifted_node(n)),
            f == (|e: Edge| lifted_edge(e)),
            edges_view(graph.edges@) == flat_map(edges@.take(j as int), f),
        decreases edges@.len() - j,
    {
        proof { lemma_flat_map_step(edges@, j as int, f); }
        let e = &edges[j];
        let ghost before = graph.edges@;
        match UfoRelation::from_canonical_name(e.edge_type.as_str()) {
            Some(relation) => {
                proof {
                    assert(exists|r: UfoRelation| canonical_name_of(r) == e.edge_type@);
                    let c = choose|r: UfoRelation| canonical_name_of(r) == e.edge_type@;
                    law_canonical_names_distinct(c, relation);
                }
                let edge = OntologicalEdge::new(e.id.as_str(), ElementId::new(e.from.as_str()), ElementId::new(e.to.as_str()), relation);
                graph.push_edge(edge);
                assert(edge_view(edge).provenance =~= Seq::<crate::ontology::AnchorView>::empty());
                assert(edges_view(graph.edges@) =~= edges_view(before) + f(edges@[j as int]));
            },
            None => {
                assert(edges_view(graph.edges@) =~= edges_view(before) + f(edges@[j as int]));
            },
        }
        j = j + 1;
    }
    assert(edges@.take(edges@.len() as int) =~= edges@);
    graph
}

} // verus!
