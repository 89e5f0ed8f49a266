//! The ontology vocabulary the lowering pipeline works in.
//!
//! These are the library's own plain-value models of the canonical UFO
//! semantic graph (`UfoRelation`, `OntologicalEdge`) and of the KerML /
//! SysML v2 relationship constructs (`Relation`, `SysmlViewKind`) that the
//! recognizers produce and the emitters consume.
use vstd::prelude::*;

verus! {

/// An opaque model element identifier.
#[derive(Debug, Clone, PartialEq, Eq, Hash)]
pub struct ElementId(pub String);

impl ElementId {
    pub open spec fn view_id(&self) -> Seq<char> {
        self.0@
    }

    pub fn new(s: &str) -> (r: ElementId)
        ensures
            r.view_id() == s@,
    {
        ElementId(s.to_owned())
    }

    pub fn from_string(s: String) -> (r: ElementId)
        ensures
            r.view_id() == s@,
    {
        ElementId(s)
    }

    pub fn as_str(&self) -> (r: &str)
        ensures
            r@ == self.view_id(),
    {
        self.0.as_str()
    }

    pub fn duplicate(&self) -> (r: ElementId)
        ensures
            r.view_id() == self.view_id(),
    {
        ElementId(self.0.clone())
    }
}

/// A canonical UFO relation between two elements.
#[derive(Debug, Clone, Copy, PartialEq, Eq, Hash, Structural)]
pub enum UfoRelation {
    HasPart,
    MemberOf,
    Specializes,
    Instantiates,
    HostedBy,
    Binds,
    ResolvesTo,
    RoutesTo,
    ScopedBy,
    Selects,
    Provides,
    Requires,
    ParticipatesIn,
    Initiates,
    Precedes,
    Causes,
    FlowsTo,
    Transitions,
    Satisfies,
    Verifies,
    Controls,
    Observes,
    GovernedBy,
    AuthorizedBy,
    TracesTo,
}

/// The relation's canonical snake_case name.
pub open spec fn canonical_name_of(r: UfoRelation) -> Seq<char> {
    match r {
        UfoRelation::HasPart => "has_part"@,
        UfoRelation::MemberOf => "member_of"@,
        UfoRelation::Specializes => "specializes"@,
        UfoRelation::Instantiates => "instantiates"@,
        UfoRelation::HostedBy => "hosted_by"@,
        UfoRelation::Binds => "binds"@,
        UfoRelation::ResolvesTo => "resolves_to"@,
        UfoRelation::RoutesTo => "routes_to"@,
        UfoRelation::ScopedBy => "scoped_by"@,
        UfoRelation::Selects => "selects"@,
        UfoRelation::Provides => "provides"@,
        UfoRelation::Requires => "requires"@,
        UfoRelation::ParticipatesIn => "participates_in"@,
        UfoRelation::Initiates => "initiates"@,
        UfoRelation::Precedes => "precedes"@,
        UfoRelation::Causes => "causes"@,
        UfoRelation::FlowsTo => "flows_to"@,
        UfoRelation::Transitions => "transitions"@,
        UfoRelation::Satisfies => "satisfies"@,
        UfoRelation::Verifies => "verifies"@,
        UfoRelation::Controls => "controls"@,
        UfoRelation::Observes => "observes"@,
        UfoRelation::GovernedBy => "governed_by"@,
        UfoRelation::AuthorizedBy => "authorized_by"@,
        UfoRelation::TracesTo => "traces_to"@,
    }
}

impl UfoRelation {
    pub fn canonical_name(self) -> (r: &'static str)
        ensures
            r@ == canonical_name_of(self),
    {
        match self {
            UfoRelation::HasPart => "has_part",
            UfoRelation::MemberOf => "member_of",
            UfoRelation::Specializes => "specializes",
            UfoRelation::Instantiates => "instantiates",
            UfoRelation::HostedBy => "hosted_by",
            UfoRelation::Binds => "binds",
            UfoRelation::ResolvesTo => "resolves_to",
            UfoRelation::RoutesTo => "routes_to",
            UfoRelation::ScopedBy => "scoped_by",
            UfoRelation::Selects => "selects",
            UfoRelation::Provides => "provides",
            UfoRelation::Requires => "requires",
            UfoRelation::ParticipatesIn => "participates_in",
            UfoRelation::Initiates => "initiates",
            UfoRelation::Precedes => "precedes",
            UfoRelation::Causes => "causes",
            UfoRelation::FlowsTo => "flows_to",
            UfoRelation::Transitions => "transitions",
            UfoRelation::Satisfies => "satisfies",
            UfoRelation::Verifies => "verifies",
            UfoRelation::Controls => "controls",
            UfoRelation::Observes => "observes",
            UfoRelation::GovernedBy => "governed_by",
            UfoRelation::AuthorizedBy => "authorized_by",
            UfoRelation::TracesTo => "traces_to",
        }
    }

    /// Every relation, in declaration order.
    pub fn all() -> (v: Vec<UfoRelation>)
        ensures
            v@.len() == 25,
            forall|r: UfoRelation| v@.contains(r),
    {
        let v = vec![
            UfoRelation::HasPart,
            UfoRelation::MemberOf,
            UfoRelation::Specializes,
            UfoRelation::Instantiates,
            UfoRelation::HostedBy,
            UfoRelation::Binds,
            UfoRelation::ResolvesTo,
            UfoRelation::RoutesTo,
            UfoRelation::ScopedBy,
            UfoRelation::Selects,
            UfoRelation::Provides,
            UfoRelation::Requires,
            UfoRelation::ParticipatesIn,
            UfoRelation::Initiates,
            UfoRelation::Precedes,
            UfoRelation::Causes,
            UfoRelation::FlowsTo,
            UfoRelation::Transitions,
            UfoRelation::Satisfies,
            UfoRelation::Verifies,
            UfoRelation::Controls,
            UfoRelation::Observes,
            UfoRelation::GovernedBy,
            UfoRelation::AuthorizedBy,
            UfoRelation::TracesTo,
        ];
        assert forall|r: UfoRelation| v@.contains(r) by {
            match r {
                UfoRelation::HasPart => { assert(v@[0] == r); }
                UfoRelation::MemberOf => { assert(v@[1] == r); }
                UfoRelation::Specializes => { assert(v@[2] == r); }
                UfoRelation::Instantiates => { assert(v@[3] == r); }
                UfoRelation::HostedBy => { assert(v@[4] == r); }
                UfoRelation::Binds => { assert(v@[5] == r); }
                UfoRelation::ResolvesTo => { assert(v@[6] == r); }
                UfoRelation::RoutesTo => { assert(v@[7] == r); }
                UfoRelation::ScopedBy => { assert(v@[8] == r); }
                UfoRelation::Selects => { assert(v@[9] == r); }
                UfoRelation::Provides => { assert(v@[10] == r); }
                UfoRelation::Requires => { assert(v@[11] == r); }
                UfoRelation::ParticipatesIn => { assert(v@[12] == r); }
                UfoRelation::Initiates => { assert(v@[13] == r); }
                UfoRelation::Precedes => { assert(v@[14] == r); }
                UfoRelation::Causes => { assert(v@[15] == r); }
                UfoRelation::FlowsTo => { assert(v@[16] == r); }
                UfoRelation::Transitions => { assert(v@[17] == r); }
                UfoRelation::Satisfies => { assert(v@[18] == r); }
                UfoRelation::Verifies => { assert(v@[19] == r); }
                UfoRelation::Controls => { assert(v@[20] == r); }
                UfoRelation::Observes => { assert(v@[21] == r); }
                UfoRelation::GovernedBy => { assert(v@[22] == r); }
                UfoRelation::AuthorizedBy => { assert(v@[23] == r); }
                UfoRelation::TracesTo => { assert(v@[24] == r); }
            }
        }
        v
    }
}

impl UfoRelation {
    /// The relation whose canonical name is `s` (`FromStr`), if any.
    pub fn from_canonical_name(s: &str) -> (r: Option<UfoRelation>)
        ensures
            match r {
                Some(x) => canonical_name_of(x) == s@,
                None => forall|x: UfoRelation| canonical_name_of(x) != s@,
            },
    {
        let all = UfoRelation::all();
        let mut i: usize = 0;
        while i < all.len()
            invariant
                i <= all@.len(),
                forall|x: UfoRelation| all@.contains(x),
                forall|k: int| 0 <= k < i ==> canonical_name_of(#[trigger] all@[k]) != s@,
            decreases all@.len() - i,
        {
            let x = all[i];
            if crate::text::str_eq(x.canonical_name(), s) {
                return Some(x);
            }
            i = i + 1;
        }
        assert forall|x: UfoRelation| canonical_name_of(x) != s@ by {
            assert(all@.contains(x));
            let k = choose|k: int| 0 <= k < all@.len() && all@[k] == x;
            assert(canonical_name_of(all@[k]) != s@);
        }
        None
    }
}

/// Short fingerprint of a canonical name.
pub open spec fn name_key(s: Seq<char>) -> (nat, char, char, char) {
    (s.len(), s[0], s[2], s[s.len() - 2])
}

pub open spec fn relation_key(r: UfoRelation) -> (nat, char, char, char) {
    match r {
        UfoRelation::HasPart => (8, 'h', 's', 'r'),
        UfoRelation::MemberOf => (9, 'm', 'm', 'o'),
        UfoRelation::Specializes => (11, 's', 'e', 'e'),
        UfoRelation::Instantiates => (12, 'i', 's', 'e'),
        UfoRelation::HostedBy => (9, 'h', 's', 'b'),
        UfoRelation::Binds => (5, 'b', 'n', 'd'),
        UfoRelation::ResolvesTo => (11, 'r', 's', 't'),
        UfoRelation::RoutesTo => (9, 'r', 'u', 't'),
        UfoRelation::ScopedBy => (9, 's', 'o', 'b'),
        UfoRelation::Selects => (7, 's', 'l', 't'),
        UfoRelation::Provides => (8, 'p', 'o', 'e'),
        UfoRelation::Requires => (8, 'r', 'q', 'e'),
        UfoRelation::ParticipatesIn => (15, 'p', 'r', 'i'),
        UfoRelation::Initiates => (9, 'i', 'i', 'e'),
        UfoRelation::Precedes => (8, 'p', 'e', 'e'),
        UfoRelation::Causes => (6, 'c', 'u', 'e'),
        UfoRelation::FlowsTo => (8, 'f', 'o', 't'),
        UfoRelation::Transitions => (11, 't', 'a', 'n'),
        UfoRelation::Satisfies => (9, 's', 't', 'e'),
        UfoRelation::Verifies => (8, 'v', 'r', 'e'),
        UfoRelation::Controls => (8, 'c', 'n', 'l'),
        UfoRelation::Observes => (8, 'o', 's', 'e'),
        UfoRelation::GovernedBy => (11, 'g', 'v', 'b'),
        UfoRelation::AuthorizedBy => (13, 'a', 't', 'b'),
        UfoRelation::TracesTo => (9, 't', 'a', 't'),
    }
}

/// Law: canonical names identify relations (distinct relations never share a name).
pub proof fn law_canonical_names_distinct(a: UfoRelation, b: UfoRelation)
    ensures
        canonical_name_of(a) == canonical_name_of(b) <==> a == b,
{
    reveal_strlit("has_part");
    reveal_strlit("member_of");
    reveal_strlit("specializes");
    reveal_strlit("instantiates");
    reveal_strlit("hosted_by");
    reveal_strlit("binds");
    reveal_strlit("resolves_to");
    reveal_strlit("routes_to");
    reveal_strlit("scoped_by");
    reveal_strlit("selects");
    reveal_strlit("provides");
    reveal_strlit("requires");
    reveal_strlit("participates_in");
    reveal_strlit("initiates");
    reveal_strlit("precedes");
    reveal_strlit("causes");
    reveal_strlit("flows_to");
    reveal_strlit("transitions");
    reveal_strlit("satisfies");
    reveal_strlit("verifies");
    reveal_strlit("controls");
    reveal_strlit("observes");
    reveal_strlit("governed_by");
    reveal_strlit("authorized_by");
    reveal_strlit("traces_to");
    assert(name_key(canonical_name_of(a)) == relation_key(a)) by { match a { _ => {} } }
    assert(name_key(canonical_name_of(b)) == relation_key(b)) by { match b { _ => {} } }
}

/// The SysML v2 view a lifted relation is rendered in.
#[derive(Debug, Clone, Copy, PartialEq, Eq, Hash, Structural)]
pub enum SysmlViewKind {
    Tree,
    General,
    Interconnection,
    ActionFlow,
    StateTransition,
    Sequence,
    Case,
    Geometry,
    Grid,
    Browser,
}

/// A KerML / SysML v2 relationship between elements.
#[derive(Debug, Clone, PartialEq, Eq)]
pub enum Relation {
    FeatureMembership { owner: ElementId, member: ElementId },
    Specialization { specific: ElementId, general: ElementId },
    Subsetting { subset: ElementId, superset: ElementId },
    Redefinition { redefining: ElementId, redefined: ElementId },
    Connection { ends: Vec<ElementId> },
    Succession { source: ElementId, target: ElementId },
    Allocation { source: ElementId, target: ElementId },
    Satisfy { requirement: ElementId, subject: ElementId },
    Verify { requirement: ElementId, by: ElementId },
    Refine { refined: ElementId, refining: ElementId },
    Dependency { client: ElementId, supplier: ElementId },
    Domain { source: ElementId, target: ElementId, kind: String },
}

/// The relation's endpoints in their directed order (two for every variant
/// except `Connection`, which has its own arity).
pub open spec fn endpoints_of(r: Relation) -> Seq<Seq<char>> {
    match r {
        Relation::FeatureMembership { owner, member } => seq![owner.view_id(), member.view_id()],
        Relation::Specialization { specific, general } => seq![specific.view_id(), general.view_id()],
        Relation::Subsetting { subset, superset } => seq![subset.view_id(), superset.view_id()],
        Relation::Redefinition { redefining, redefined } => seq![redefining.view_id(), redefined.view_id()],
        Relation::Connection { ends } => ends@.map_values(|e: ElementId| e.view_id()),
        Relation::Succession { source, target } => seq![source.view_id(), target.view_id()],
        Relation::Allocation { source, target } => seq![source.view_id(), target.view_id()],
        Relation::Satisfy { requirement, subject } => seq![subject.view_id(), requirement.view_id()],
        Relation::Verify { requirement, by } => seq![by.view_id(), requirement.view_id()],
        Relation::Refine { refined, refining } => seq![refining.view_id(), refined.view_id()],
        Relation::Dependency { client, supplier } => seq![client.view_id(), supplier.view_id()],
        Relation::Domain { source, target, .. } => seq![source.view_id(), target.view_id()],
    }
}

impl Relation {
    /// The endpoints, in [`endpoints_of`] order.
    pub fn endpoints(&self) -> (v: Vec<&ElementId>)
        ensures
            v@.map_values(|e: &ElementId| e.view_id()) == endpoints_of(*self),
    {
        match self {
            Relation::FeatureMembership { owner, member } => vec![owner, member],
            Relation::Specialization { specific, general } => vec![specific, general],
            Relation::Subsetting { subset, superset } => vec![subset, superset],
            Relation::Redefinition { redefining, redefined } => vec![redefining, redefined],
            Relation::Connection { ends } => {
                let mut v: Vec<&ElementId> = Vec::new();
                let mut i: usize = 0;
                while i < ends.len()
                    invariant
                        i <= ends@.len(),
                        v@.len() == i,
                        forall|k: int| 0 <= k < i ==> *v@[k] == ends@[k],
                    decreases ends@.len() - i,
                {
                    v.push(&ends[i]);
                    i = i + 1;
                }
                assert(v@.map_values(|e: &ElementId| e.view_id()) =~= ends@.map_values(|e: ElementId| e.view_id()));
                v
            }
            Relation::Succession { source, target } => vec![source, target],
            Relation::Allocation { source, target } => vec![source, target],
            Relation::Satisfy { requirement, subject } => vec![subject, requirement],
            Relation::Verify { requirement, by } => vec![by, requirement],
            Relation::Refine { refined, refining } => vec![refining, refined],
            Relation::Dependency { client, supplier } => vec![client, supplier],
            Relation::Domain { source, target, .. } => vec![source, target],
        }
    }
}

/// Where an edge was recognized from.
#[derive(Debug, Clone, PartialEq, Eq)]
pub enum SourceAnchor {
    /// A KerML element by qualified name.
    KermlQualifiedName(String),
    /// A version-control location.
    Vcs { repo: Option<String>, commit: String, path: Option<String> },
    /// A line of a SysML text file.
    SysmlFile { path: String, line: Option<u32> },
    /// A Kubernetes API object.
    K8sObject {
        api_version: String,
        kind: String,
        namespace: Option<String>,
        name: String,
        uid: Option<String>,
    },
    /// A line of a Rust source file.
    RustSpan { file: String, line: u32 },
    /// A code symbol path.
    SymbolPath(String),
    /// Anything else, by description.
    Other(String),
}

/// A directed edge of the canonical UFO semantic graph.
#[derive(Debug, Clone, PartialEq, Eq)]
pub struct OntologicalEdge {
    pub id: String,
    pub source: ElementId,
    pub target: ElementId,
    pub relation: UfoRelation,
    pub provenance: Vec<SourceAnchor>,
}

impl OntologicalEdge {
    pub fn new(id: &str, source: ElementId, target: ElementId, relation: UfoRelation) -> (r: OntologicalEdge)
        ensures
            r.id@ == id@,
            r.source == source,
            r.target == target,
            r.relation == relation,
            r.provenance@.len() == 0,
    {
        OntologicalEdge { id: id.to_owned(), source, target, relation, provenance: Vec::new() }
    }
}

/// The plain-value content of a [`SourceAnchor`].
pub enum AnchorView {
    KermlQualifiedName(Seq<char>),
    Vcs { repo: Option<Seq<char>>, commit: Seq<char>, path: Option<Seq<char>> },
    SysmlFile { path: Seq<char>, line: Option<u32> },
    K8sObject {
        api_version: Seq<char>,
        kind: Seq<char>,
        namespace: Option<Seq<char>>,
        name: Seq<char>,
        uid: Option<Seq<char>>,
    },
    RustSpan { file: Seq<char>, line: u32 },
    SymbolPath(Seq<char>),
    Other(Seq<char>),
}

/// The plain-value content of an [`OntologicalEdge`].
pub struct EdgeView {
    pub id: Seq<char>,
    pub source: Seq<char>,
    pub target: Seq<char>,
    pub relation: UfoRelation,
    pub provenance: Seq<AnchorView>,
}

pub open spec fn opt_string_view(o: Option<String>) -> Option<Seq<char>> {
    match o {
        Some(s) => Some(s@),
        None => None,
    }
}

pub open spec fn anchor_view(a: SourceAnchor) -> AnchorView {
    match a {
        SourceAnchor::KermlQualifiedName(q) => AnchorView::KermlQualifiedName(q@),
        SourceAnchor::Vcs { repo, commit, path } => AnchorView::Vcs {
            repo: opt_string_view(repo),
            commit: commit@,
            path: opt_string_view(path),
        },
        SourceAnchor::SysmlFile { path, line } => AnchorView::SysmlFile { path: path@, line },
        SourceAnchor::K8sObject { api_version, kind, namespace, name, uid } => AnchorView::K8sObject {
            api_version: api_version@,
            kind: kind@,
            namespace: opt_string_view(namespace),
            name: name@,
            uid: opt_string_view(uid),
        },
        SourceAnchor::RustSpan { file, line } => AnchorView::RustSpan { file: file@, line },
        SourceAnchor::SymbolPath(p) => AnchorView::SymbolPath(p@),
        SourceAnchor::Other(o) => AnchorView::Other(o@),
    }
}

pub open spec fn edge_view(e: OntologicalEdge) -> EdgeView {
    EdgeView {
        id: e.id@,
        source: e.source.view_id(),
        target: e.target.view_id(),
        relation: e.relation,
        provenance: e.provenance@.map_values(|a: SourceAnchor| anchor_view(a)),
    }
}

/// The views of a sequence of edges.
pub open spec fn edges_view(es: Seq<OntologicalEdge>) -> Seq<EdgeView> {
    es.map_values(|e: OntologicalEdge| edge_view(e))
}

} // verus!
