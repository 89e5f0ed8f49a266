//! A graph container for the canonical UFO semantic graph: stereotyped
//! nodes plus the recognized edges, with the check for edges whose
//! endpoints are not nodes of the graph.
use vstd::prelude::*;

use crate::ontology::{edge_view, edges_view, EdgeView, ElementId, OntologicalEdge};
use crate::text::str_eq;

verus! {

/// The UFO stereotype of a node.
#[derive(Debug, Clone, PartialEq, Eq)]
pub enum UfoStereotype {
    /// A rigid type that supplies identity.
    Kind(String),
    /// An anti-rigid type played in a relational context.
    Role(String),
    /// A rigid specialization of a named parent kind.
    SubKind { name: String, parent: String },
}

/// The plain-value content of a stereotype.
pub enum StereotypeView {
    Kind(Seq<char>),
    Role(Seq<char>),
    SubKind { name: Seq<char>, parent: Seq<char> },
}

pub open spec fn stereotype_view(s: UfoStereotype) -> StereotypeView {
    match s {
        UfoStereotype::Kind(n) => StereotypeView::Kind(n@),
        UfoStereotype::Role(n) => StereotypeView::Role(n@),
        UfoStereotype::SubKind { name, parent } => StereotypeView::SubKind { name: name@, parent: parent@ },
    }
}

/// A node of the semantic graph.
#[derive(Debug, Clone)]
pub struct OntologicalNode {
    pub id: ElementId,
    pub stereotype: UfoStereotype,
    pub label: Option<String>,
}

impl UfoStereotype {
    /// A copy of the stereotype.
    pub fn duplicate(&self) -> (r: UfoStereotype)
        ensures
            stereotype_view(r) == stereotype_view(*self),
    {
        match self {
            UfoStereotype::Kind(n) => UfoStereotype::Kind(n.clone()),
            UfoStereotype::Role(n) => UfoStereotype::Role(n.clone()),
            UfoStereotype::SubKind { name, parent } => UfoStereotype::SubKind { name: name.clone(), parent: parent.clone() },
        }
    }
}

impl OntologicalNode {
    /// A node without a label.
    pub fn new(id: ElementId, stereotype: UfoStereotype) -> (r: OntologicalNode)
        ensures
            r.id == id,
            r.stereotype == stereotype,
            r.label is None,
    {
        OntologicalNode { id, stereotype, label: None }
    }

    /// A labelled node.
    pub fn with_label(id: ElementId, stereotype: UfoStereotype, label: &str) -> (r: OntologicalNode)
        ensures
            r.id == id,
            r.stereotype == stereotype,
            r.label matches Some(l) && l@ == label@,
    {
        OntologicalNode { id, stereotype, label: Some(label.to_owned()) }
    }

    /// A copy of the node.
    pub fn duplicate(&self) -> (r: OntologicalNode)
        ensures
            node_view(r) == node_view(*self),
    {
        let label = match &self.label {
            Some(l) => Some(l.clone()),
            None => None,
        };
        OntologicalNode { id: self.id.duplicate(), stereotype: self.stereotype.duplicate(), label }
    }
}

/// The plain-value content of a node.
pub struct NodeView {
    pub id: Seq<char>,
    pub stereotype: StereotypeView,
    pub label: Option<Seq<char>>,
}

pub open spec fn node_view(n: OntologicalNode) -> NodeView {
    NodeView {
        id: n.id.view_id(),
        stereotype: stereotype_view(n.stereotype),
        label: crate::ontology::opt_string_view(n.label),
    }
}

pub open spec fn nodes_view(ns: Seq<OntologicalNode>) -> Seq<NodeView> {
    ns.map_values(|n: OntologicalNode| node_view(n))
}

/// Whether some node has id `id`.
pub open spec fn has_node(nodes: Seq<NodeView>, id: Seq<char>) -> bool {
    exists|k: int| 0 <= k < nodes.len() && nodes[k].id == id
}

/// The edges with an endpoint that is not a node, in edge order.
pub open spec fn dangling_spec(nodes: Seq<NodeView>, edges: Seq<EdgeView>) -> Seq<EdgeView> {
    edges.filter(|e: EdgeView| !has_node(nodes, e.source) || !has_node(nodes, e.target))
}

/// Nodes and edges of the semantic graph, in insertion order.
#[derive(Debug, Clone)]
pub struct SysGraph {
    pub nodes: Vec<OntologicalNode>,
    pub edges: Vec<OntologicalEdge>,
}

impl SysGraph {
    /// The empty graph.
    pub fn new() -> (g: SysGraph)
        ensures
            g.nodes@.len() == 0,
            g.edges@.len() == 0,
    {
        SysGraph { nodes: Vec::new(), edges: Vec::new() }
    }

    /// Appends a node.
    pub fn push_node(&mut self, node: OntologicalNode)
        ensures
            final(self).nodes@ == old(self).nodes@.push(node),
            final(self).edges@ == old(self).edges@,
    {
        self.nodes.push(node);
    }

    /// Appends an edge.
    pub fn push_edge(&mut self, edge: OntologicalEdge)
        ensures
            final(self).edges@ == old(self).edges@.push(edge),
            final(self).nodes@ == old(self).nodes@,
    {
        self.edges.push(edge);
    }

    fn contains_id(&self, id: &ElementId) -> (r: bool)
        ensures
            r == has_node(nodes_view(self.nodes@), id.view_id()),
    {
        let ghost nv = nodes_view(self.nodes@);
        let mut i: usize = 0;
        while i < self.nodes.len()
            invariant
                i <= self.nodes@.len(),
                nv == nodes_view(self.nodes@),
                forall|k: int| 0 <= k < i ==> nv[k].id != id.view_id(),
            decreases self.nodes@.len() - i,
        {
            if str_eq(self.nodes[i].id.as_str(), id.as_str()) {
                assert(nv[i as int].id == id.view_id());
                return true;
            }
            i = i + 1;
        }
        false
    }

    /// The first node with id `id`.
    pub fn node(&self, id: &ElementId) -> (r: Option<&OntologicalNode>)
        ensures
            match r {
                Some(n) => n.id.view_id() == id.view_id() && self.nodes@.contains(*n),
                None => !has_node(nodes_view(self.nodes@), id.view_id()),
            },
    {
        let ghost nv = nodes_view(self.nodes@);
        let mut i: usize = 0;
        while i < self.nodes.len()
            invariant
                i <= self.nodes@.len(),
                nv == nodes_view(self.nodes@),
                forall|k: int| 0 <= k < i ==> nv[k].id != id.view_id(),
            decreases self.nodes@.len() - i,
        {
            if str_eq(self.nodes[i].id.as_str(), id.as_str()) {
                assert(self.nodes@.contains(self.nodes@[i as int]));
                return Some(&self.nodes[i]);
            }
            i = i + 1;
        }
        None
    }

    /// The edges whose source or target is not a node of the graph.
    pub fn dangling_edges(&self) -> (r: Vec<&OntologicalEdge>)
        ensures
            r@.map_values(|e: &OntologicalEdge| edge_view(*e)) == dangling_spec(nodes_view(self.nodes@), edges_view(self.edges@)),
    {
        let ghost nv = nodes_view(self.nodes@);
        let ghost ev = edges_view(self.edges@);
        let ghost pred = |e: EdgeView| !has_node(nv, e.source) || !has_node(nv, e.target);
        let mut r: Vec<&OntologicalEdge> = Vec::new();
        let mut i: usize = 0;
        proof {
            reveal(Seq::filter);
            assert(ev.take(0).filter(pred) =~= Seq::<EdgeView>::empty());
        }
        while i < self.edges.len()
            invariant
                i <= self.edges@.len(),
                nv == nodes_view(self.nodes@),
                ev == edges_view(self.edges@),
                pred == (|e: EdgeView| !has_node(nv, e.source) || !has_node(nv, e.target)),
                r@.map_values(|e: &OntologicalEdge| edge_view(*e)) == ev.take(i as int).filter(pred),
            decreases self.edges@.len() - i,
        {
            let e = &self.edges[i];
            let ghost prev = r@.map_values(|e: &OntologicalEdge| edge_view(*e));
            assert(ev.take(i + 1).drop_last() =~= ev.take(i as int));
            proof {
                reveal(Seq::filter);
                assert(ev.take(i + 1).last() == ev[i as int]);
            }
            if !self.contains_id(&e.source) || !self.contains_id(&e.target) {
                r.push(e);
                assert(r@.map_values(|e: &OntologicalEdge| edge_view(*e)) =~= prev.push(ev[i as int]));
            }
            i = i + 1;
        }
        assert(ev.take(ev.len() as int) =~= ev);
        r
    }
}

} // verus!
