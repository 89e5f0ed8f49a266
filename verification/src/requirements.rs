//! The requirements graph: requirements and evidence of one baseline and
//! the typed relations between them, each relation asserted (authoritative)
//! or inferred/proposed by a named model with its rationale and evidence.
use vstd::prelude::*;

use crate::ontology::opt_string_view;
use crate::reqif_adapter::RequirementRelationKind;

verus! {

/// The baseline a graph's requirements belong to.
#[derive(Debug, Clone, PartialEq, Eq)]
pub struct BaselineIdentity {
    pub id: String,
    pub revision: String,
    pub import_artifact_sha256: Option<String>,
    pub exported_baseline_sha256: Option<String>,
}

/// Where an item of the graph came from.
#[derive(Debug, Clone, PartialEq, Eq)]
pub struct Provenance {
    pub source_uri: String,
    pub artifact_sha256: Option<String>,
    pub locator: Option<String>,
}

/// One requirement.
#[derive(Debug, Clone, PartialEq, Eq)]
pub struct Requirement {
    pub id: String,
    pub title: String,
    pub text: String,
    pub baseline: BaselineIdentity,
    pub provenance: Provenance,
    /// Further attributes, by name.
    pub attributes: Vec<(String, String)>,
    /// Ids of the evidence attached to the requirement.
    pub evidence: Vec<String>,
}

/// One item of evidence.
#[derive(Debug, Clone, PartialEq, Eq)]
pub struct EvidenceRef {
    pub id: String,
    pub label: String,
    pub uri: Option<String>,
    pub provenance: Option<Provenance>,
}

/// The model that inferred or proposed a relation.
#[derive(Debug, Clone, PartialEq, Eq)]
pub struct ModelIdentity {
    pub name: String,
    pub version: String,
}

/// Why a non-authoritative relation was suggested. (The model's numeric
/// confidence travels beside the graph, not in it.)
#[derive(Debug, Clone, PartialEq, Eq)]
pub struct NonAuthoritativeRelation {
    pub rationale: String,
    pub evidence: Vec<EvidenceRef>,
    pub model: ModelIdentity,
}

/// Who stands behind a relation.
#[derive(Debug, Clone, PartialEq, Eq)]
pub enum RelationAuthority {
    Asserted,
    Inferred(NonAuthoritativeRelation),
    Proposed(NonAuthoritativeRelation),
}

/// One typed relation between two graph items.
#[derive(Debug, Clone, PartialEq, Eq)]
pub struct RequirementRelation {
    pub id: String,
    pub source: String,
    pub target: String,
    pub kind: RequirementRelationKind,
    pub authority: RelationAuthority,
    pub provenance: Provenance,
}

/// Requirements, evidence and relations of one baseline.
#[derive(Debug, Clone, PartialEq, Eq)]
pub struct RequirementGraph {
    pub baseline: BaselineIdentity,
    pub requirements: Vec<Requirement>,
    pub evidence: Vec<EvidenceRef>,
    pub relations: Vec<RequirementRelation>,
}

// ---------------------------------------------------------------------
// Views
// ---------------------------------------------------------------------

pub struct BaselineV {
    pub id: Seq<char>,
    pub revision: Seq<char>,
    pub import_artifact_sha256: Option<Seq<char>>,
    pub exported_baseline_sha256: Option<Seq<char>>,
}

pub struct ProvenanceV {
    pub source_uri: Seq<char>,
    pub artifact_sha256: Option<Seq<char>>,
    pub locator: Option<Seq<char>>,
}

pub struct RequirementV {
    pub id: Seq<char>,
    pub title: Seq<char>,
    pub text: Seq<char>,
    pub baseline: BaselineV,
    pub provenance: ProvenanceV,
    pub attributes: Seq<(Seq<char>, Seq<char>)>,
    pub evidence: Seq<Seq<char>>,
}

pub struct EvidenceV {
    pub id: Seq<char>,
    pub label: Seq<char>,
    pub uri: Option<Seq<char>>,
    pub provenance: Option<ProvenanceV>,
}

pub struct NonAuthoritativeV {
    pub rationale: Seq<char>,
    pub evidence: Seq<EvidenceV>,
    pub model_name: Seq<char>,
    pub model_version: Seq<char>,
}

pub enum AuthorityV {
    Asserted,
    Inferred(NonAuthoritativeV),
    Proposed(NonAuthoritativeV),
}

pub struct RelationV {
    pub id: Seq<char>,
    pub source: Seq<char>,
    pub target: Seq<char>,
    pub kind: RequirementRelationKind,
    pub authority: AuthorityV,
    pub provenance: ProvenanceV,
}

pub struct GraphV {
    pub baseline: BaselineV,
    pub requirements: Seq<RequirementV>,
    pub evidence: Seq<EvidenceV>,
    pub relations: Seq<RelationV>,
}

pub open spec fn baseline_v(b: BaselineIdentity) -> BaselineV {
    BaselineV {
        id: b.id@,
        revision: b.revision@,
        import_artifact_sha256: opt_string_view(b.import_artifact_sha256),
        exported_baseline_sha256: opt_string_view(b.exported_baseline_sha256),
    }
}

pub open spec fn provenance_v(p: Provenance) -> ProvenanceV {
    ProvenanceV { source_uri: p.source_uri@, artifact_sha256: opt_string_view(p.artifact_sha256), locator: opt_string_view(p.locator) }
}

pub open spec fn requirement_v(r: Requirement) -> RequirementV {
    RequirementV {
        id: r.id@,
        title: r.title@,
        text: r.text@,
        baseline: baseline_v(r.baseline),
        provenance: provenance_v(r.provenance),
        attributes: r.attributes@.map_values(|a: (String, String)| (a.0@, a.1@)),
        evidence: r.evidence@.map_values(|e: String| e@),
    }
}

pub open spec fn evidence_v(e: EvidenceRef) -> EvidenceV {
    EvidenceV {
        id: e.id@,
        label: e.label@,
        uri: opt_string_view(e.uri),
        provenance: match e.provenance {
            Some(p) => Some(provenance_v(p)),
            None => None,
        },
    }
}

pub open spec fn evidences_v(es: Seq<EvidenceRef>) -> Seq<EvidenceV> {
    es.map_values(|e: EvidenceRef| evidence_v(e))
}

pub open spec fn non_authoritative_v(n: NonAuthoritativeRelation) -> NonAuthoritativeV {
    NonAuthoritativeV {
        rationale: n.rationale@,
        evidence: evidences_v(n.evidence@),
        model_name: n.model.name@,
        model_version: n.model.version@,
    }
}

pub open spec fn authority_v(a: RelationAuthority) -> AuthorityV {
    match a {
        RelationAuthority::Asserted => AuthorityV::Asserted,
        RelationAuthority::Inferred(n) => AuthorityV::Inferred(non_authoritative_v(n)),
        RelationAuthority::Proposed(n) => AuthorityV::Proposed(non_authoritative_v(n)),
    }
}

pub open spec fn relation_v(r: RequirementRelation) -> RelationV {
    RelationV {
        id: r.id@,
        source: r.source@,
        target: r.target@,
        kind: r.kind,
        authority: authority_v(r.authority),
        provenance: provenance_v(r.provenance),
    }
}

pub open spec fn graph_v(g: RequirementGraph) -> GraphV {
    GraphV {
        baseline: baseline_v(g.baseline),
        requirements: g.requirements@.map_values(|r: Requirement| requirement_v(r)),
        evidence: evidences_v(g.evidence@),
        relations: g.relations@.map_values(|r: RequirementRelation| relation_v(r)),
    }
}

fn copy_opt(o: &Option<String>) -> (r: Option<String>)
    ensures
        opt_string_view(r) == opt_string_view(*o),
{
    match o {
        Some(s) => Some(s.clone()),
        None => None,
    }
}

impl BaselineIdentity {
    /// A copy of the baseline.
    pub fn duplicate(&self) -> (r: BaselineIdentity)
        ensures
            baseline_v(r) == baseline_v(*self),
    {
        BaselineIdentity {
            id: self.id.clone(),
            revision: self.revision.clone(),
            import_artifact_sha256: copy_opt(&self.import_artifact_sha256),
            exported_baseline_sha256: copy_opt(&self.exported_baseline_sha256),
        }
    }
}

impl Provenance {
    /// A copy of the provenance.
    pub fn duplicate(&self) -> (r: Provenance)
        ensures
            provenance_v(r) == provenance_v(*self),
    {
        Provenance {
            source_uri: self.source_uri.clone(),
            artifact_sha256: copy_opt(&self.artifact_sha256),
            locator: copy_opt(&self.locator),
        }
    }
}

impl EvidenceRef {
    /// A copy of the evidence reference.
    pub fn duplicate(&self) -> (r: EvidenceRef)
        ensures
            evidence_v(r) == evidence_v(*self),
    {
        EvidenceRef {
            id: self.id.clone(),
            label: self.label.clone(),
            uri: copy_opt(&self.uri),
            provenance: match &self.provenance {
                Some(p) => Some(p.duplicate()),
                None => None,
            },
        }
    }
}

// ---------------------------------------------------------------------
// Validation
// ---------------------------------------------------------------------

/// Why a graph is not a valid requirements graph.
#[derive(Debug, Clone, PartialEq, Eq)]
pub enum RequirementError {
    /// The relation with this id has an endpoint that names neither a
    /// requirement nor a piece of evidence.
    UnknownEndpoint(String),
}

/// `id` names a requirement or a piece of evidence of `g`.
pub open spec fn known_id(g: GraphV, id: Seq<char>) -> bool {
    (exists|k: int| 0 <= k < g.requirements.len() && #[trigger] g.requirements[k].id == id)
        || (exists|k: int| 0 <= k < g.evidence.len() && #[trigger] g.evidence[k].id == id)
}

/// Both endpoints of `r` are known in `g`.
pub open spec fn relation_resolves(g: GraphV, r: RelationV) -> bool {
    known_id(g, r.source) && known_id(g, r.target)
}

/// Every relation runs between known items.
pub open spec fn graph_valid(g: GraphV) -> bool {
    forall|k: int| 0 <= k < g.relations.len() ==> relation_resolves(g, #[trigger] g.relations[k])
}

/// `e` reports the first relation of `g` with an unknown endpoint.
pub open spec fn reports_first_dangling(g: GraphV, e: RequirementError) -> bool {
    match e {
        RequirementError::UnknownEndpoint(id) => exists|k: int| {
            &&& 0 <= k < g.relations.len()
            &&& (#[trigger] g.relations[k]).id == id@
            &&& !relation_resolves(g, g.relations[k])
            &&& forall|j: int| 0 <= j < k ==> relation_resolves(g, #[trigger] g.relations[j])
        },
    }
}

impl RequirementGraph {
    fn knows(&self, id: &str) -> (r: bool)
        ensures
            r == known_id(graph_v(*self), id@),
    {
        let ghost g = graph_v(*self);
        let mut k: usize = 0;
        while k < self.requirements.len()
            invariant
                k <= self.requirements@.len(),
                g == graph_v(*self),
                forall|j: int| 0 <= j < k ==> (#[trigger] g.requirements[j]).id != id@,
            decreases self.requirements@.len() - k,
        {
            if crate::text::str_eq(self.requirements[k].id.as_str(), id) {
                assert(g.requirements[k as int].id == id@);
                return true;
            }
            k = k + 1;
        }
        let mut k: usize = 0;
        while k < self.evidence.len()
            invariant
                k <= self.evidence@.len(),
                g == graph_v(*self),
                forall|j: int| 0 <= j < g.requirements.len() ==> (#[trigger] g.requirements[j]).id != id@,
                forall|j: int| 0 <= j < k ==> (#[trigger] g.evidence[j]).id != id@,
            decreases self.evidence@.len() - k,
        {
            if crate::text::str_eq(self.evidence[k].id.as_str(), id) {
                assert(g.evidence[k as int].id == id@);
                return true;
            }
            k = k + 1;
        }
        false
    }

    /// Checks that every relation runs between a requirement or piece of
    /// evidence of the graph; the first relation that does not is reported.
    pub fn validate(&self) -> (r: Result<(), RequirementError>)
        ensures
            r is Ok <==> graph_valid(graph_v(*self)),
            r matches Err(e) ==> reports_first_dangling(graph_v(*self), e),
    {
        let ghost g = graph_v(*self);
        let mut k: usize = 0;
        while k < self.relations.len()
            invariant
                k <= self.relations@.len(),
                g == graph_v(*self),
                forall|j: int| 0 <= j < k ==> relation_resolves(g, #[trigger] g.relations[j]),
            decreases self.relations@.len() - k,
        {
            let rel = &self.relations[k];
            assert(g.relations[k as int] == relation_v(*rel));
            if !self.knows(rel.source.as_str()) || !self.knows(rel.target.as_str()) {
                let e = RequirementError::UnknownEndpoint(rel.id.clone());
                assert(reports_first_dangling(g, e));
                return Err(e);
            }
            k = k + 1;
        }
        Ok(())
    }
}

} // verus!
