//! The Kubernetes pattern recognizer: raw Kubernetes API objects normalized
//! into edges of the canonical UFO semantic graph.
//!
//! Every rule reads named fields of one manifest (or, for Service label
//! selection, of the whole batch) and emits [`OntologicalEdge`]s whose
//! endpoints are `k8s:{namespace|-}/{kind}/{name}` element ids and whose
//! provenance is the source manifest's own identity. Caller-supplied
//! [`SimpleFieldRule`]s extend the built-in rule set (the CRD extension
//! point), and [`KubernetesRecognizer::rule_set_version`] hashes the active
//! rule set so a rule change invalidates derived render-cache entries.
use vstd::prelude::*;

use crate::cache::{push_bytes, sha256_hex, sha256_hex_spec, utf8};
use crate::json::{
    as_str, get_member, get_path, get_path_spec, get_str_key, jarray, jget, jobject, jstr,
    member_get, opt_get, JsonValue,
};
use crate::ontology::{
    canonical_name_of, edge_view, edges_view, AnchorView, EdgeView, ElementId, OntologicalEdge,
    SourceAnchor, UfoRelation,
};
use crate::sysgraph::{node_view, nodes_view, NodeView, OntologicalNode, StereotypeView, SysGraph, UfoStereotype};
use crate::text::{
    find_first, first_index_of, flat_map, flat_map_upto, lemma_first_index_of, lemma_flat_map_step,
    push_str, str_chars, str_eq,
};

verus! {

// ---------------------------------------------------------------------
// Manifest helpers
// ---------------------------------------------------------------------

pub open spec fn opt_str_view(o: Option<&str>) -> Option<Seq<char>> {
    match o {
        Some(s) => Some(s@),
        None => None,
    }
}

/// `kind`.
pub open spec fn m_kind(m: JsonValue) -> Option<Seq<char>> {
    jstr(jget(m, "kind"@))
}

/// `kind`, or `""` when absent.
pub open spec fn m_kind_or_empty(m: JsonValue) -> Seq<char> {
    match m_kind(m) {
        Some(k) => k,
        None => ""@,
    }
}

/// The API group of `apiVersion` (`"group/version"`; the core `"v1"` and
/// an absent `apiVersion` give `""`).
pub open spec fn m_group(m: JsonValue) -> Seq<char> {
    match jstr(jget(m, "apiVersion"@)) {
        Some(av) => match first_index_of(av, '/') {
            Some(i) => av.take(i),
            None => ""@,
        },
        None => ""@,
    }
}

pub open spec fn m_name(m: JsonValue) -> Option<Seq<char>> {
    jstr(get_path_spec(m, "metadata.name"@))
}

pub open spec fn m_namespace(m: JsonValue) -> Option<Seq<char>> {
    jstr(get_path_spec(m, "metadata.namespace"@))
}

pub open spec fn m_uid(m: JsonValue) -> Option<Seq<char>> {
    jstr(get_path_spec(m, "metadata.uid"@))
}

pub open spec fn ns_or_dash(ns: Option<Seq<char>>) -> Seq<char> {
    match ns {
        Some(n) => n,
        None => "-"@,
    }
}

/// `k8s:{namespace|-}/{kind}/{name}`.
pub open spec fn element_id_spec(kind: Seq<char>, namespace: Option<Seq<char>>, name: Seq<char>) -> Seq<char> {
    "k8s:"@ + ns_or_dash(namespace) + "/"@ + kind + "/"@ + name
}

/// The manifest's own element id, when it has a kind and a name.
pub open spec fn m_element_id(m: JsonValue) -> Option<Seq<char>> {
    match (m_kind(m), m_name(m)) {
        (Some(k), Some(n)) => Some(element_id_spec(k, m_namespace(m), n)),
        _ => None,
    }
}

/// The provenance recorded for edges recognized from `m`: its identity,
/// when it has an `apiVersion`, a kind and a name.
pub open spec fn anchors_of(m: JsonValue) -> Seq<AnchorView> {
    match (jstr(jget(m, "apiVersion"@)), m_kind(m), m_name(m)) {
        (Some(av), Some(k), Some(n)) => seq![
            AnchorView::K8sObject { api_version: av, kind: k, namespace: m_namespace(m), name: n, uid: m_uid(m) },
        ],
        _ => Seq::empty(),
    }
}

/// An edge recognized from `m`: id `{source}~{relation}~{target}`.
pub open spec fn edge_spec(m: JsonValue, source: Seq<char>, target: Seq<char>, relation: UfoRelation) -> EdgeView {
    EdgeView {
        id: source + "~"@ + canonical_name_of(relation) + "~"@ + target,
        source,
        target,
        relation,
        provenance: anchors_of(m),
    }
}

fn kind_of(m: &JsonValue) -> (r: Option<&str>)
    ensures
        opt_str_view(r) == m_kind(*m),
{
    as_str(get_str_key(m, "kind"))
}

fn kind_or_empty(m: &JsonValue) -> (r: &str)
    ensures
        r@ == m_kind_or_empty(*m),
{
    match kind_of(m) {
        Some(k) => k,
        None => "",
    }
}

fn api_version_of(m: &JsonValue) -> (r: Option<&str>)
    ensures
        opt_str_view(r) == jstr(jget(*m, "apiVersion"@)),
{
    as_str(get_str_key(m, "apiVersion"))
}

fn group_of(m: &JsonValue) -> (r: Vec<char>)
    ensures
        r@ == m_group(*m),
{
    match api_version_of(m) {
        Some(av) => {
            let v = str_chars(av);
            match find_first(v.as_slice(), '/') {
                Some(i) => {
                    proof { lemma_first_index_of(v@, '/'); }
                    let mut g: Vec<char> = Vec::new();
                    let mut k: usize = 0;
                    while k < i
                        invariant
                            k <= i < v@.len(),
                            g@ == v@.take(k as int),
                        decreases i - k,
                    {
                        g.push(v[k]);
                        assert(v@.take(k + 1) =~= v@.take(k as int).push(v@[k as int]));
                        k = k + 1;
                    }
                    g
                },
                None => {
                    let g: Vec<char> = Vec::new();
                    assert(g@ =~= ""@) by {
                        reveal_strlit("");
                    }
                    g
                },
            }
        },
        None => {
            let g: Vec<char> = Vec::new();
            assert(g@ =~= ""@) by {
                reveal_strlit("");
            }
            g
        },
    }
}

fn name_of(m: &JsonValue) -> (r: Option<&str>)
    ensures
        opt_str_view(r) == m_name(*m),
{
    as_str(get_path(m, "metadata.name"))
}

fn namespace_of(m: &JsonValue) -> (r: Option<&str>)
    ensures
        opt_str_view(r) == m_namespace(*m),
{
    as_str(get_path(m, "metadata.namespace"))
}

fn uid_of(m: &JsonValue) -> (r: Option<&str>)
    ensures
        opt_str_view(r) == m_uid(*m),
{
    as_str(get_path(m, "metadata.uid"))
}

/// `k8s:{namespace|-}/{kind}/{name}`.
pub fn element_id(kind: &str, namespace: Option<&str>, name: &str) -> (r: ElementId)
    ensures
        r.view_id() == element_id_spec(kind@, opt_str_view(namespace), name@),
{
    let mut s = String::new();
    push_str(&mut s, "k8s:");
    match namespace {
        Some(n) => push_str(&mut s, n),
        None => push_str(&mut s, "-"),
    }
    push_str(&mut s, "/");
    push_str(&mut s, kind);
    push_str(&mut s, "/");
    push_str(&mut s, name);
    assert(s@ =~= element_id_spec(kind@, opt_str_view(namespace), name@));
    ElementId::from_string(s)
}

fn manifest_element_id(m: &JsonValue) -> (r: Option<ElementId>)
    ensures
        match r {
            Some(id) => m_element_id(*m) == Some(id.view_id()),
            None => m_element_id(*m) is None,
        },
{
    match (kind_of(m), name_of(m)) {
        (Some(k), Some(n)) => Some(element_id(k, namespace_of(m), n)),
        _ => None,
    }
}

fn owned(s: &str) -> (r: String)
    ensures
        r@ == s@,
{
    s.to_owned()
}

fn owned_opt(s: Option<&str>) -> (r: Option<String>)
    ensures
        crate::ontology::opt_string_view(r) == opt_str_view(s),
{
    match s {
        Some(x) => Some(x.to_owned()),
        None => None,
    }
}

/// An edge recognized from `source_manifest`, with that manifest's identity
/// as its provenance.
fn make_edge(source_manifest: &JsonValue, source: &ElementId, target: ElementId, relation: UfoRelation) -> (r: OntologicalEdge)
    ensures
        edge_view(r) == edge_spec(*source_manifest, source.view_id(), target.view_id(), relation),
{
    let mut id = String::new();
    push_str(&mut id, source.as_str());
    push_str(&mut id, "~");
    push_str(&mut id, relation.canonical_name());
    push_str(&mut id, "~");
    push_str(&mut id, target.as_str());
    let mut e = OntologicalEdge::new(id.as_str(), source.duplicate(), target, relation);
    match (api_version_of(source_manifest), kind_of(source_manifest), name_of(source_manifest)) {
        (Some(av), Some(k), Some(n)) => {
            e.provenance.push(SourceAnchor::K8sObject {
                api_version: owned(av),
                kind: owned(k),
                namespace: owned_opt(namespace_of(source_manifest)),
                name: owned(n),
                uid: owned_opt(uid_of(source_manifest)),
            });
        },
        _ => {},
    }
    assert(edge_view(e).provenance =~= anchors_of(*source_manifest));
    assert(edge_view(e).id =~= source.view_id() + "~"@ + canonical_name_of(relation) + "~"@ + target.view_id());
    e
}

/// Appends `e` to `out`.
fn push_edge(out: &mut Vec<OntologicalEdge>, e: OntologicalEdge)
    ensures
        edges_view(final(out)@) == edges_view(old(out)@).push(edge_view(e)),
{
    out.push(e);
    assert(edges_view(out@) =~= edges_view(old(out)@).push(edge_view(e)));
}

/// The dotted path to the embedded `PodSpec` of workload kinds.
pub open spec fn pod_spec_path_spec(kind: Seq<char>, group: Seq<char>) -> Option<Seq<char>> {
    if kind == "Pod"@ && group == ""@ {
        Some("spec"@)
    } else if kind == "PodTemplate"@ && group == ""@ {
        Some("template.spec"@)
    } else if kind == "CronJob"@ && group == "batch"@ {
        Some("spec.jobTemplate.spec.template.spec"@)
    } else if (kind == "DaemonSet"@ && group == "apps"@) || (kind == "Deployment"@ && group == "apps"@)
        || (kind == "ReplicaSet"@ && group == "apps"@) || (kind == "StatefulSet"@ && group == "apps"@)
        || (kind == "Job"@ && group == "batch"@) {
        Some("spec.template.spec"@)
    } else if kind == "ReplicationController"@ && group == ""@ {
        Some("spec.template.spec"@)
    } else {
        None
    }
}

fn chars_is(v: &[char], s: &str) -> (r: bool)
    ensures
        r == (v@ == s@),
{
    let w = str_chars(s);
    crate::text::chars_eq(v, w.as_slice())
}

/// The dotted path to this kind's embedded `PodSpec`, if it has one.
pub fn pod_spec_path(kind: &str, group: &[char]) -> (r: Option<&'static str>)
    ensures
        opt_str_view(r) == pod_spec_path_spec(kind@, group@),
{
    if str_eq(kind, "Pod") && chars_is(group, "") {
        Some("spec")
    } else if str_eq(kind, "PodTemplate") && chars_is(group, "") {
        Some("template.spec")
    } else if str_eq(kind, "CronJob") && chars_is(group, "batch") {
        Some("spec.jobTemplate.spec.template.spec")
    } else if (str_eq(kind, "DaemonSet") && chars_is(group, "apps")) || (str_eq(kind, "Deployment")
        && chars_is(group, "apps")) || (str_eq(kind, "ReplicaSet") && chars_is(group, "apps")) || (
    str_eq(kind, "StatefulSet") && chars_is(group, "apps")) || (str_eq(kind, "Job") && chars_is(
        group,
        "batch",
    )) {
        Some("spec.template.spec")
    } else if str_eq(kind, "ReplicationController") && chars_is(group, "") {
        Some("spec.template.spec")
    } else {
        None
    }
}

// ---------------------------------------------------------------------
// Small lookups
// ---------------------------------------------------------------------

pub open spec fn opt_ref_view(o: Option<&JsonValue>) -> Option<JsonValue> {
    match o {
        Some(x) => Some(*x),
        None => None,
    }
}

fn get_opt<'a>(v: Option<&'a JsonValue>, key: &str) -> (r: Option<&'a JsonValue>)
    ensures
        opt_ref_view(r) == opt_get(opt_ref_view(v), key@),
{
    match v {
        Some(x) => get_str_key(x, key),
        None => None,
    }
}

fn key_str<'a>(v: &'a JsonValue, key: &str) -> (r: Option<&'a str>)
    ensures
        opt_str_view(r) == jstr(jget(*v, key@)),
{
    as_str(get_str_key(v, key))
}

fn path_str<'a>(v: &'a JsonValue, path: &str) -> (r: Option<&'a str>)
    ensures
        opt_str_view(r) == jstr(get_path_spec(*v, path@)),
{
    as_str(get_path(v, path))
}

fn ref_name<'a>(v: &'a JsonValue, key: &str, inner: &str) -> (r: Option<&'a str>)
    ensures
        opt_str_view(r) == jstr(opt_get(jget(*v, key@), inner@)),
{
    as_str(get_opt(get_str_key(v, key), inner))
}

fn array_at<'a>(v: Option<&'a JsonValue>) -> (r: Option<&'a Vec<JsonValue>>)
    ensures
        match r {
            Some(a) => jarray(opt_ref_view(v)) == Some(a@),
            None => jarray(opt_ref_view(v)) is None,
        },
{
    match v {
        Some(JsonValue::Array(items)) => Some(items),
        _ => None,
    }
}

fn concat_path(prefix: &str, field: &str) -> (r: String)
    ensures
        r@ == prefix@ + field@,
{
    let mut s = String::new();
    push_str(&mut s, prefix);
    push_str(&mut s, field);
    s
}

// ---------------------------------------------------------------------
// Ownership: metadata.ownerReferences[] (owner has_part owned)
// ---------------------------------------------------------------------

pub open spec fn owner_ref_edge(m: JsonValue, target: Seq<char>, r: JsonValue) -> Seq<EdgeView> {
    match (jstr(jget(r, "kind"@)), jstr(jget(r, "name"@))) {
        (Some(k), Some(n)) => seq![edge_spec(m, element_id_spec(k, m_namespace(m), n), target, UfoRelation::HasPart)],
        _ => Seq::empty(),
    }
}

#[verifier::opaque]
pub open spec fn owner_reference_edges_spec(m: JsonValue) -> Seq<EdgeView> {
    match jarray(get_path_spec(m, "metadata.ownerReferences"@)) {
        None => Seq::empty(),
        Some(refs) => match m_element_id(m) {
            None => Seq::empty(),
            Some(target) => flat_map(refs, |r: JsonValue| owner_ref_edge(m, target, r)),
        },
    }
}

fn owner_reference_edges(m: &JsonValue, out: &mut Vec<OntologicalEdge>)
    ensures
        edges_view(final(out)@) == edges_view(old(out)@) + owner_reference_edges_spec(*m),
{
    reveal(owner_reference_edges_spec);
    let refs = match array_at(get_path(m, "metadata.ownerReferences")) {
        Some(a) => a,
        None => {
            assert(edges_view(out@) =~= edges_view(old(out)@) + owner_reference_edges_spec(*m));
            return;
        },
    };
    let target = match manifest_element_id(m) {
        Some(t) => t,
        None => {
            assert(edges_view(out@) =~= edges_view(old(out)@) + owner_reference_edges_spec(*m));
            return;
        },
    };
    let ghost f = |r: JsonValue| owner_ref_edge(*m, target.view_id(), r);
    let mut i: usize = 0;
    while i < refs.len()
        invariant
            i <= refs@.len(),
            f == (|r: JsonValue| owner_ref_edge(*m, target.view_id(), r)),
            edges_view(out@) == edges_view(old(out)@) + flat_map(refs@.take(i as int), f),
        decreases refs@.len() - i,
    {
        proof { lemma_flat_map_step(refs@, i as int, f); }
        let r = &refs[i];
        let ghost before = edges_view(out@);
        match (key_str(r, "kind"), key_str(r, "name")) {
            (Some(k), Some(n)) => {
                let source = element_id(k, namespace_of(m), n);
                let e = make_edge(m, &source, target.duplicate(), UfoRelation::HasPart);
                push_edge(out, e);
            },
            _ => {},
        }
        assert(edges_view(out@) =~= before + f(refs@[i as int]));
        i = i + 1;
    }
    assert(refs@.take(refs@.len() as int) =~= refs@);
}

// ---------------------------------------------------------------------
// HPA / VPA scale targets (controls)
// ---------------------------------------------------------------------

pub open spec fn scale_target_field(kind: Seq<char>, group: Seq<char>) -> Option<Seq<char>> {
    if kind == "HorizontalPodAutoscaler"@ && group == "autoscaling"@ {
        Some("spec.scaleTargetRef"@)
    } else if kind == "VerticalPodAutoscaler"@ && group == "autoscaling.k8s.io"@ {
        Some("spec.targetRef"@)
    } else {
        None
    }
}

#[verifier::opaque]
pub open spec fn controller_scale_target_edges_spec(m: JsonValue) -> Seq<EdgeView> {
    match scale_target_field(m_kind_or_empty(m), m_group(m)) {
        None => Seq::empty(),
        Some(field) => match get_path_spec(m, field) {
            None => Seq::empty(),
            Some(tr) => match (jstr(jget(tr, "kind"@)), jstr(jget(tr, "name"@)), m_element_id(m)) {
                (Some(tk), Some(n), Some(source)) => seq![
                    edge_spec(m, source, element_id_spec(tk, m_namespace(m), n), UfoRelation::Controls),
                ],
                _ => Seq::empty(),
            },
        },
    }
}

fn controller_scale_target_edges(m: &JsonValue, out: &mut Vec<OntologicalEdge>)
    ensures
        edges_view(final(out)@) == edges_view(old(out)@) + controller_scale_target_edges_spec(*m),
{
    reveal(controller_scale_target_edges_spec);
    let kind = kind_or_empty(m);
    let group = group_of(m);
    let field = if str_eq(kind, "HorizontalPodAutoscaler") && chars_is(group.as_slice(), "autoscaling") {
        "spec.scaleTargetRef"
    } else if str_eq(kind, "VerticalPodAutoscaler") && chars_is(group.as_slice(), "autoscaling.k8s.io") {
        "spec.targetRef"
    } else {
        assert(edges_view(out@) =~= edges_view(old(out)@) + controller_scale_target_edges_spec(*m));
        return;
    };
    assert(scale_target_field(m_kind_or_empty(*m), m_group(*m)) == Some(field@));
    let ghost before = edges_view(out@);
    match get_path(m, field) {
        Some(tr) => {
            match (key_str(tr, "kind"), key_str(tr, "name"), manifest_element_id(m)) {
                (Some(tk), Some(n), Some(source)) => {
                    let target = element_id(tk, namespace_of(m), n);
                    let e = make_edge(m, &source, target, UfoRelation::Controls);
                    push_edge(out, e);
                },
                _ => {},
            }
        },
        None => {},
    }
    assert(edges_view(out@) =~= before + controller_scale_target_edges_spec(*m));
}

// ---------------------------------------------------------------------
// RBAC bindings: roleRef + subjects (authorized_by)
// ---------------------------------------------------------------------

pub open spec fn role_ref_edges(m: JsonValue, source: Seq<char>) -> Seq<EdgeView> {
    match jget(m, "roleRef"@) {
        None => Seq::empty(),
        Some(rr) => match (jstr(jget(rr, "kind"@)), jstr(jget(rr, "name"@))) {
            (Some(rk), Some(rn)) => seq![
                edge_spec(
                    m,
                    source,
                    element_id_spec(rk, if rk == "ClusterRole"@ { None } else { m_namespace(m) }, rn),
                    UfoRelation::AuthorizedBy,
                ),
            ],
            _ => Seq::empty(),
        },
    }
}

/// A binding's `roleRef` points at the role's own element. A `ClusterRole`
/// is cluster-scoped: the binding's `authorized_by` edge targets the very id
/// the referenced ClusterRole manifest gets (namespace `-`), whatever the
/// binding's namespace, so two bindings in different namespaces meet at one
/// node. Any other role kind is read in the binding's own namespace and
/// targets the id of that role's manifest there.
pub proof fn law_role_ref_targets_the_role(binding: JsonValue, source: Seq<char>, role: JsonValue)
    requires
        jget(binding, "roleRef"@) matches Some(rr) && jstr(jget(rr, "kind"@)) == m_kind(role)
            && jstr(jget(rr, "name"@)) == m_name(role),
        m_kind(role) is Some && m_name(role) is Some,
        m_kind(role) == Some("ClusterRole"@) ==> m_namespace(role) is None,
        m_kind(role) != Some("ClusterRole"@) ==> m_namespace(role) == m_namespace(binding),
    ensures
        role_ref_edges(binding, source).len() == 1,
        role_ref_edges(binding, source)[0].source == source,
        role_ref_edges(binding, source)[0].relation == UfoRelation::AuthorizedBy,
        m_element_id(role) == Some(role_ref_edges(binding, source)[0].target),
{
}

/// Whatever namespace a binding sits in, a `ClusterRole` it references is
/// the same node: two bindings differing only in namespace give the same
/// `authorized_by` target for the same ClusterRole.
pub proof fn law_cluster_role_target_ignores_binding_namespace(b1: JsonValue, b2: JsonValue, s1: Seq<char>, s2: Seq<char>)
    requires
        jget(b1, "roleRef"@) matches Some(rr1) && jget(b2, "roleRef"@) matches Some(rr2)
            && jstr(jget(rr1, "kind"@)) == Some("ClusterRole"@) && jstr(jget(rr2, "kind"@)) == Some("ClusterRole"@)
            && jstr(jget(rr1, "name"@)) is Some && jstr(jget(rr1, "name"@)) == jstr(jget(rr2, "name"@)),
    ensures
        role_ref_edges(b1, s1).len() == 1 && role_ref_edges(b2, s2).len() == 1,
        role_ref_edges(b1, s1)[0].target == role_ref_edges(b2, s2)[0].target,
        role_ref_edges(b1, s1)[0].target == element_id_spec("ClusterRole"@, None, jstr(jget(jget(b1, "roleRef"@)->0, "name"@))->0),
{
}

pub open spec fn or_else(a: Option<Seq<char>>, b: Option<Seq<char>>) -> Option<Seq<char>> {
    match a {
        Some(x) => Some(x),
        None => b,
    }
}

pub open spec fn subject_edge(m: JsonValue, source: Seq<char>, s: JsonValue) -> Seq<EdgeView> {
    match (jstr(jget(s, "kind"@)), jstr(jget(s, "name"@))) {
        (Some(sk), Some(sn)) => seq![
            edge_spec(
                m,
                source,
                element_id_spec(sk, or_else(jstr(jget(s, "namespace"@)), m_namespace(m)), sn),
                UfoRelation::AuthorizedBy,
            ),
        ],
        _ => Seq::empty(),
    }
}

#[verifier::opaque]
pub open spec fn rbac_binding_edges_spec(m: JsonValue) -> Seq<EdgeView> {
    let kind = m_kind_or_empty(m);
    if kind != "RoleBinding"@ && kind != "ClusterRoleBinding"@ {
        Seq::empty()
    } else {
        match m_element_id(m) {
            None => Seq::empty(),
            Some(source) => role_ref_edges(m, source) + match jarray(jget(m, "subjects"@)) {
                Some(ss) => flat_map(ss, |s: JsonValue| subject_edge(m, source, s)),
                None => Seq::empty(),
            },
        }
    }
}

fn rbac_binding_edges(m: &JsonValue, out: &mut Vec<OntologicalEdge>)
    ensures
        edges_view(final(out)@) == edges_view(old(out)@) + rbac_binding_edges_spec(*m),
{
    reveal(rbac_binding_edges_spec);
    let kind = kind_or_empty(m);
    if !str_eq(kind, "RoleBinding") && !str_eq(kind, "ClusterRoleBinding") {
        assert(edges_view(out@) =~= edges_view(old(out)@) + rbac_binding_edges_spec(*m));
        return;
    }
    let source = match manifest_element_id(m) {
        Some(s) => s,
        None => {
            assert(edges_view(out@) =~= edges_view(old(out)@) + rbac_binding_edges_spec(*m));
            return;
        },
    };
    let ghost o = edges_view(out@);
    match get_str_key(m, "roleRef") {
        Some(rr) => match (key_str(rr, "kind"), key_str(rr, "name")) {
            (Some(rk), Some(rn)) => {
                let ns = if str_eq(rk, "ClusterRole") {
                    None
                } else {
                    namespace_of(m)
                };
                let target = element_id(rk, ns, rn);
                let e = make_edge(m, &source, target, UfoRelation::AuthorizedBy);
                push_edge(out, e);
            },
            _ => {},
        },
        None => {},
    }
    let ghost mid = edges_view(out@);
    assert(mid =~= o + role_ref_edges(*m, source.view_id()));
    match array_at(get_str_key(m, "subjects")) {
        Some(subjects) => {
            let ghost f = |s: JsonValue| subject_edge(*m, source.view_id(), s);
            let mut i: usize = 0;
            while i < subjects.len()
                invariant
                    i <= subjects@.len(),
                    f == (|s: JsonValue| subject_edge(*m, source.view_id(), s)),
                    edges_view(out@) == mid + flat_map(subjects@.take(i as int), f),
                decreases subjects@.len() - i,
            {
                proof { lemma_flat_map_step(subjects@, i as int, f); }
                let s = &subjects[i];
                let ghost before = edges_view(out@);
                match (key_str(s, "kind"), key_str(s, "name")) {
                    (Some(sk), Some(sn)) => {
                        let ns = match key_str(s, "namespace") {
                            Some(n) => Some(n),
                            None => namespace_of(m),
                        };
                        let target = element_id(sk, ns, sn);
                        let e = make_edge(m, &source, target, UfoRelation::AuthorizedBy);
                        push_edge(out, e);
                    },
                    _ => {},
                }
                assert(edges_view(out@) =~= before + f(subjects@[i as int]));
                i = i + 1;
            }
            assert(subjects@.take(subjects@.len() as int) =~= subjects@);
        },
        None => {},
    }
    assert(edges_view(out@) =~= o + rbac_binding_edges_spec(*m));
}

// ---------------------------------------------------------------------
// Pod-spec fields: serviceAccountName, volumes, containers' env,
// runtimeClassName
// ---------------------------------------------------------------------

pub open spec fn pod_field(m: JsonValue, field: Seq<char>) -> Option<Seq<char>> {
    match pod_spec_path_spec(m_kind_or_empty(m), m_group(m)) {
        Some(prefix) => jstr(get_path_spec(m, prefix + field)),
        None => None,
    }
}

#[verifier::opaque]
pub open spec fn service_account_edges_spec(m: JsonValue) -> Seq<EdgeView> {
    match (pod_field(m, ".serviceAccountName"@), m_element_id(m)) {
        (Some(name), Some(source)) => seq![
            edge_spec(m, source, element_id_spec("ServiceAccount"@, m_namespace(m), name), UfoRelation::Binds),
        ],
        _ => Seq::empty(),
    }
}

fn pod_field_str<'a>(m: &'a JsonValue, field: &str) -> (r: Option<&'a str>)
    ensures
        opt_str_view(r) == pod_field(*m, field@),
{
    let group = group_of(m);
    match pod_spec_path(kind_or_empty(m), group.as_slice()) {
        Some(prefix) => {
            let path = concat_path(prefix, field);
            path_str(m, path.as_str())
        },
        None => None,
    }
}

fn service_account_edges(m: &JsonValue, out: &mut Vec<OntologicalEdge>)
    ensures
        edges_view(final(out)@) == edges_view(old(out)@) + service_account_edges_spec(*m),
{
    reveal(service_account_edges_spec);
    let ghost o = edges_view(out@);
    match (pod_field_str(m, ".serviceAccountName"), manifest_element_id(m)) {
        (Some(name), Some(source)) => {
            let target = element_id("ServiceAccount", namespace_of(m), name);
            let e = make_edge(m, &source, target, UfoRelation::Binds);
            push_edge(out, e);
        },
        _ => {},
    }
    assert(edges_view(out@) =~= o + service_account_edges_spec(*m));
}

#[verifier::opaque]
pub open spec fn runtime_class_edges_spec(m: JsonValue) -> Seq<EdgeView> {
    match (pod_field(m, ".runtimeClassName"@), m_element_id(m)) {
        (Some(name), Some(source)) => seq![
            edge_spec(m, source, element_id_spec("RuntimeClass"@, None, name), UfoRelation::ScopedBy),
        ],
        _ => Seq::empty(),
    }
}

fn runtime_class_edges(m: &JsonValue, out: &mut Vec<OntologicalEdge>)
    ensures
        edges_view(final(out)@) == edges_view(old(out)@) + runtime_class_edges_spec(*m),
{
    reveal(runtime_class_edges_spec);
    let ghost o = edges_view(out@);
    match (pod_field_str(m, ".runtimeClassName"), manifest_element_id(m)) {
        (Some(name), Some(source)) => {
            let target = element_id("RuntimeClass", None, name);
            let e = make_edge(m, &source, target, UfoRelation::ScopedBy);
            push_edge(out, e);
        },
        _ => {},
    }
    assert(edges_view(out@) =~= o + runtime_class_edges_spec(*m));
}

/// The (kind, name) a volume mounts: a ConfigMap, a Secret or a claim.
pub open spec fn volume_target(v: JsonValue) -> Option<(Seq<char>, Seq<char>)> {
    match jstr(opt_get(jget(v, "configMap"@), "name"@)) {
        Some(n) => Some(("ConfigMap"@, n)),
        None => match jstr(opt_get(jget(v, "secret"@), "secretName"@)) {
            Some(n) => Some(("Secret"@, n)),
            None => match jstr(opt_get(jget(v, "persistentVolumeClaim"@), "claimName"@)) {
                Some(n) => Some(("PersistentVolumeClaim"@, n)),
                None => None,
            },
        },
    }
}

pub open spec fn volume_edge(m: JsonValue, source: Seq<char>, v: JsonValue) -> Seq<EdgeView> {
    match volume_target(v) {
        Some((tk, n)) => seq![edge_spec(m, source, element_id_spec(tk, m_namespace(m), n), UfoRelation::Requires)],
        None => Seq::empty(),
    }
}

pub open spec fn pod_array(m: JsonValue, field: Seq<char>) -> Option<Seq<JsonValue>> {
    match pod_spec_path_spec(m_kind_or_empty(m), m_group(m)) {
        Some(prefix) => jarray(get_path_spec(m, prefix + field)),
        None => None,
    }
}

#[verifier::opaque]
pub open spec fn volume_reference_edges_spec(m: JsonValue) -> Seq<EdgeView> {
    match (pod_array(m, ".volumes"@), m_element_id(m)) {
        (Some(volumes), Some(source)) => flat_map(volumes, |v: JsonValue| volume_edge(m, source, v)),
        _ => Seq::empty(),
    }
}

fn pod_field_array<'a>(m: &'a JsonValue, field: &str) -> (r: Option<&'a Vec<JsonValue>>)
    ensures
        match r {
            Some(a) => pod_array(*m, field@) == Some(a@),
            None => pod_array(*m, field@) is None,
        },
{
    let group = group_of(m);
    match pod_spec_path(kind_or_empty(m), group.as_slice()) {
        Some(prefix) => {
            let path = concat_path(prefix, field);
            array_at(get_path(m, path.as_str()))
        },
        None => None,
    }
}

fn volume_reference_edges(m: &JsonValue, out: &mut Vec<OntologicalEdge>)
    ensures
        edges_view(final(out)@) == edges_view(old(out)@) + volume_reference_edges_spec(*m),
{
    reveal(volume_reference_edges_spec);
    let (volumes, source) = match (pod_field_array(m, ".volumes"), manifest_element_id(m)) {
        (Some(v), Some(s)) => (v, s),
        _ => {
            assert(edges_view(out@) =~= edges_view(old(out)@) + volume_reference_edges_spec(*m));
            return;
        },
    };
    let ghost f = |v: JsonValue| volume_edge(*m, source.view_id(), v);
    let mut i: usize = 0;
    while i < volumes.len()
        invariant
            i <= volumes@.len(),
            f == (|v: JsonValue| volume_edge(*m, source.view_id(), v)),
            edges_view(out@) == edges_view(old(out)@) + flat_map(volumes@.take(i as int), f),
        decreases volumes@.len() - i,
    {
        proof { lemma_flat_map_step(volumes@, i as int, f); }
        let v = &volumes[i];
        let ghost before = edges_view(out@);
        let found: Option<(&str, &str)> = match ref_name(v, "configMap", "name") {
            Some(n) => Some(("ConfigMap", n)),
            None => match ref_name(v, "secret", "secretName") {
                Some(n) => Some(("Secret", n)),
                None => match ref_name(v, "persistentVolumeClaim", "claimName") {
                    Some(n) => Some(("PersistentVolumeClaim", n)),
                    None => None,
                },
            },
        };
        match found {
            Some((tk, n)) => {
                let target = element_id(tk, namespace_of(m), n);
                let e = make_edge(m, &source, target, UfoRelation::Requires);
                push_edge(out, e);
            },
            None => {},
        }
        assert(edges_view(out@) =~= before + f(volumes@[i as int]));
        i = i + 1;
    }
    assert(volumes@.take(volumes@.len() as int) =~= volumes@);
}

pub open spec fn ref_edge(m: JsonValue, source: Seq<char>, name: Option<Seq<char>>, kind: Seq<char>) -> Seq<EdgeView> {
    match name {
        Some(n) => seq![edge_spec(m, source, element_id_spec(kind, m_namespace(m), n), UfoRelation::Requires)],
        None => Seq::empty(),
    }
}

pub open spec fn env_from_edge(m: JsonValue, source: Seq<char>, ef: JsonValue) -> Seq<EdgeView> {
    ref_edge(m, source, jstr(opt_get(jget(ef, "configMapRef"@), "name"@)), "ConfigMap"@)
        + ref_edge(m, source, jstr(opt_get(jget(ef, "secretRef"@), "name"@)), "Secret"@)
}

pub open spec fn env_edge(m: JsonValue, source: Seq<char>, e: JsonValue) -> Seq<EdgeView> {
    match jget(e, "valueFrom"@) {
        None => Seq::empty(),
        Some(vf) => ref_edge(m, source, jstr(opt_get(jget(vf, "configMapKeyRef"@), "name"@)), "ConfigMap"@)
            + ref_edge(m, source, jstr(opt_get(jget(vf, "secretKeyRef"@), "name"@)), "Secret"@),
    }
}

pub open spec fn container_edges(m: JsonValue, source: Seq<char>, c: JsonValue) -> Seq<EdgeView> {
    (match jarray(jget(c, "envFrom"@)) {
        Some(efs) => flat_map(efs, |ef: JsonValue| env_from_edge(m, source, ef)),
        None => Seq::empty(),
    }) + (match jarray(jget(c, "env"@)) {
        Some(es) => flat_map(es, |e: JsonValue| env_edge(m, source, e)),
        None => Seq::empty(),
    })
}

pub open spec fn container_list_edges(m: JsonValue, source: Seq<char>, list_field: Seq<char>) -> Seq<EdgeView> {
    match pod_array(m, list_field) {
        Some(cs) => flat_map(cs, |c: JsonValue| container_edges(m, source, c)),
        None => Seq::empty(),
    }
}

#[verifier::opaque]
pub open spec fn container_env_edges_spec(m: JsonValue) -> Seq<EdgeView> {
    match (pod_spec_path_spec(m_kind_or_empty(m), m_group(m)), m_element_id(m)) {
        (Some(_), Some(source)) => container_list_edges(m, source, ".containers"@)
            + container_list_edges(m, source, ".initContainers"@)
            + container_list_edges(m, source, ".ephemeralContainers"@),
        _ => Seq::empty(),
    }
}

fn push_ref_edge(
    m: &JsonValue,
    source: &ElementId,
    name: Option<&str>,
    kind: &str,
    out: &mut Vec<OntologicalEdge>,
)
    ensures
        edges_view(final(out)@) == edges_view(old(out)@) + ref_edge(*m, source.view_id(), opt_str_view(name), kind@),
{
    let ghost o = edges_view(out@);
    match name {
        Some(n) => {
            let target = element_id(kind, namespace_of(m), n);
            let e = make_edge(m, source, target, UfoRelation::Requires);
            push_edge(out, e);
        },
        None => {},
    }
    assert(edges_view(out@) =~= o + ref_edge(*m, source.view_id(), opt_str_view(name), kind@));
}

fn container_env(m: &JsonValue, source: &ElementId, c: &JsonValue, out: &mut Vec<OntologicalEdge>)
    ensures
        edges_view(final(out)@) == edges_view(old(out)@) + container_edges(*m, source.view_id(), *c),
{
    let ghost o = edges_view(out@);
    match array_at(get_str_key(c, "envFrom")) {
        Some(efs) => {
            let ghost f = |ef: JsonValue| env_from_edge(*m, source.view_id(), ef);
            let mut i: usize = 0;
            while i < efs.len()
                invariant
                    i <= efs@.len(),
                    f == (|ef: JsonValue| env_from_edge(*m, source.view_id(), ef)),
                    edges_view(out@) == o + flat_map(efs@.take(i as int), f),
                decreases efs@.len() - i,
            {
                proof { lemma_flat_map_step(efs@, i as int, f); }
                let ef = &efs[i];
                let ghost before = edges_view(out@);
                push_ref_edge(m, source, ref_name(ef, "configMapRef", "name"), "ConfigMap", out);
                push_ref_edge(m, source, ref_name(ef, "secretRef", "name"), "Secret", out);
                assert(edges_view(out@) =~= before + f(efs@[i as int]));
                i = i + 1;
            }
            assert(efs@.take(efs@.len() as int) =~= efs@);
        },
        None => {},
    }
    let ghost mid = edges_view(out@);
    match array_at(get_str_key(c, "env")) {
        Some(es) => {
            let ghost f = |e: JsonValue| env_edge(*m, source.view_id(), e);
            let mut i: usize = 0;
            while i < es.len()
                invariant
                    i <= es@.len(),
                    f == (|e: JsonValue| env_edge(*m, source.view_id(), e)),
                    edges_view(out@) == mid + flat_map(es@.take(i as int), f),
                decreases es@.len() - i,
            {
                proof { lemma_flat_map_step(es@, i as int, f); }
                let e = &es[i];
                let ghost before = edges_view(out@);
                match get_str_key(e, "valueFrom") {
                    Some(vf) => {
                        push_ref_edge(m, source, ref_name(vf, "configMapKeyRef", "name"), "ConfigMap", out);
                        push_ref_edge(m, source, ref_name(vf, "secretKeyRef", "name"), "Secret", out);
                    },
                    None => {},
                }
                assert(edges_view(out@) =~= before + f(es@[i as int]));
                i = i + 1;
            }
            assert(es@.take(es@.len() as int) =~= es@);
        },
        None => {},
    }
    assert(edges_view(out@) =~= o + container_edges(*m, source.view_id(), *c));
}

fn container_list(m: &JsonValue, source: &ElementId, list_field: &str, out: &mut Vec<OntologicalEdge>)
    ensures
        edges_view(final(out)@) == edges_view(old(out)@) + container_list_edges(*m, source.view_id(), list_field@),
{
    let ghost o = edges_view(out@);
    match pod_field_array(m, list_field) {
        Some(cs) => {
            let ghost f = |c: JsonValue| container_edges(*m, source.view_id(), c);
            let mut i: usize = 0;
            while i < cs.len()
                invariant
                    i <= cs@.len(),
                    f == (|c: JsonValue| container_edges(*m, source.view_id(), c)),
                    edges_view(out@) == o + flat_map(cs@.take(i as int), f),
                decreases cs@.len() - i,
            {
                proof { lemma_flat_map_step(cs@, i as int, f); }
                container_env(m, source, &cs[i], out);
                i = i + 1;
            }
            assert(cs@.take(cs@.len() as int) =~= cs@);
        },
        None => {
            assert(edges_view(out@) =~= o + container_list_edges(*m, source.view_id(), list_field@));
        },
    }
}

fn container_env_edges(m: &JsonValue, out: &mut Vec<OntologicalEdge>)
    ensures
        edges_view(final(out)@) == edges_view(old(out)@) + container_env_edges_spec(*m),
{
    reveal(container_env_edges_spec);
    let ghost o = edges_view(out@);
    let group = group_of(m);
    match (pod_spec_path(kind_or_empty(m), group.as_slice()), manifest_element_id(m)) {
        (Some(_), Some(source)) => {
            container_list(m, &source, ".containers", out);
            container_list(m, &source, ".initContainers", out);
            container_list(m, &source, ".ephemeralContainers", out);
        },
        _ => {},
    }
    assert(edges_view(out@) =~= o + container_env_edges_spec(*m));
}

// ---------------------------------------------------------------------
// APIService -> Service (routes_to), nodeName (hosted_by)
// ---------------------------------------------------------------------

#[verifier::opaque]
pub open spec fn api_service_edges_spec(m: JsonValue) -> Seq<EdgeView> {
    if m_kind(m) != Some("APIService"@) {
        Seq::empty()
    } else {
        match get_path_spec(m, "spec.service"@) {
            None => Seq::empty(),
            Some(svc) => match (jstr(jget(svc, "name"@)), m_element_id(m)) {
                (Some(name), Some(source)) => seq![
                    edge_spec(
                        m,
                        source,
                        element_id_spec("Service"@, jstr(jget(svc, "namespace"@)), name),
                        UfoRelation::RoutesTo,
                    ),
                ],
                _ => Seq::empty(),
            },
        }
    }
}

fn is_kind(m: &JsonValue, kind: &str) -> (r: bool)
    ensures
        r == (m_kind(*m) == Some(kind@)),
{
    match kind_of(m) {
        Some(k) => str_eq(k, kind),
        None => false,
    }
}

fn api_service_edges(m: &JsonValue, out: &mut Vec<OntologicalEdge>)
    ensures
        edges_view(final(out)@) == edges_view(old(out)@) + api_service_edges_spec(*m),
{
    reveal(api_service_edges_spec);
    let ghost o = edges_view(out@);
    if is_kind(m, "APIService") {
        match get_path(m, "spec.service") {
            Some(svc) => match (key_str(svc, "name"), manifest_element_id(m)) {
                (Some(name), Some(source)) => {
                    let target = element_id("Service", key_str(svc, "namespace"), name);
                    let e = make_edge(m, &source, target, UfoRelation::RoutesTo);
                    push_edge(out, e);
                },
                _ => {},
            },
            None => {},
        }
    }
    assert(edges_view(out@) =~= o + api_service_edges_spec(*m));
}

pub open spec fn node_name_field(m: JsonValue) -> Option<Seq<char>> {
    if m_kind(m) == Some("Pod"@) && m_group(m).len() == 0 {
        Some("spec.nodeName"@)
    } else if m_kind(m) == Some("PodTemplate"@) && m_group(m).len() == 0 {
        Some("template.spec.nodeName"@)
    } else {
        None
    }
}

#[verifier::opaque]
pub open spec fn node_name_edges_spec(m: JsonValue) -> Seq<EdgeView> {
    match node_name_field(m) {
        None => Seq::empty(),
        Some(field) => match (jstr(get_path_spec(m, field)), m_element_id(m)) {
            (Some(name), Some(source)) => seq![
                edge_spec(m, source, element_id_spec("Node"@, None, name), UfoRelation::HostedBy),
            ],
            _ => Seq::empty(),
        },
    }
}

fn node_name_edges(m: &JsonValue, out: &mut Vec<OntologicalEdge>)
    ensures
        edges_view(final(out)@) == edges_view(old(out)@) + node_name_edges_spec(*m),
{
    reveal(node_name_edges_spec);
    let ghost o = edges_view(out@);
    let group = group_of(m);
    let field = if is_kind(m, "Pod") && group.len() == 0 {
        "spec.nodeName"
    } else if is_kind(m, "PodTemplate") && group.len() == 0 {
        "template.spec.nodeName"
    } else {
        assert(edges_view(out@) =~= o + node_name_edges_spec(*m));
        return;
    };
    match (path_str(m, field), manifest_element_id(m)) {
        (Some(name), Some(source)) => {
            let target = element_id("Node", None, name);
            let e = make_edge(m, &source, target, UfoRelation::HostedBy);
            push_edge(out, e);
        },
        _ => {},
    }
    assert(edges_view(out@) =~= o + node_name_edges_spec(*m));
}

// ---------------------------------------------------------------------
// Field rules and the recognizer
// ---------------------------------------------------------------------

/// A single-field reference rule: a manifest of `kind` in `api_group`
/// (`""` for the core group) names, by a bare string at the dotted
/// `field_path`, a cluster-scoped object of `target_kind`.
#[derive(Debug, Clone)]
pub struct SimpleFieldRule {
    pub kind: String,
    pub api_group: String,
    pub field_path: String,
    pub target_kind: String,
    pub target_api_version: String,
    pub relation: UfoRelation,
}

/// The plain-value content of a [`SimpleFieldRule`].
pub struct RuleView {
    pub kind: Seq<char>,
    pub api_group: Seq<char>,
    pub field_path: Seq<char>,
    pub target_kind: Seq<char>,
    pub target_api_version: Seq<char>,
    pub relation: UfoRelation,
}

pub open spec fn rule_view_of(
    kind: Seq<char>,
    api_group: Seq<char>,
    field_path: Seq<char>,
    target_kind: Seq<char>,
    target_api_version: Seq<char>,
    relation: UfoRelation,
) -> RuleView {
    RuleView { kind, api_group, field_path, target_kind, target_api_version, relation }
}

pub open spec fn rule_view(r: SimpleFieldRule) -> RuleView {
    rule_view_of(r.kind@, r.api_group@, r.field_path@, r.target_kind@, r.target_api_version@, r.relation)
}

pub open spec fn rules_view(rs: Seq<SimpleFieldRule>) -> Seq<RuleView> {
    rs.map_values(|r: SimpleFieldRule| rule_view(r))
}

impl SimpleFieldRule {
    pub fn new(
        kind: &str,
        api_group: &str,
        field_path: &str,
        target_kind: &str,
        target_api_version: &str,
        relation: UfoRelation,
    ) -> (r: SimpleFieldRule)
        ensures
            rule_view(r) == rule_view_of(kind@, api_group@, field_path@, target_kind@, target_api_version@, relation),
    {
        SimpleFieldRule {
            kind: owned(kind),
            api_group: owned(api_group),
            field_path: owned(field_path),
            target_kind: owned(target_kind),
            target_api_version: owned(target_api_version),
            relation,
        }
    }
}

/// The built-in rule table.
pub open spec fn builtin_rules_spec() -> Seq<RuleView> {
    seq![
        rule_view_of("PersistentVolume"@, ""@, "spec.storageClassName"@, "StorageClass"@, "storage.k8s.io/v1"@, UfoRelation::ScopedBy),
        rule_view_of("PersistentVolumeClaim"@, ""@, "spec.storageClassName"@, "StorageClass"@, "storage.k8s.io/v1"@, UfoRelation::ScopedBy),
        rule_view_of("PersistentVolumeClaim"@, ""@, "spec.volumeName"@, "PersistentVolume"@, "v1"@, UfoRelation::Binds),
        rule_view_of("CSIStorageCapacity"@, "storage.k8s.io"@, "storageClassName"@, "StorageClass"@, "storage.k8s.io/v1"@, UfoRelation::ScopedBy),
        rule_view_of("Ingress"@, "networking.k8s.io"@, "spec.ingressClassName"@, "IngressClass"@, "networking.k8s.io/v1"@, UfoRelation::ScopedBy),
        rule_view_of("Gateway"@, "gateway.networking.k8s.io"@, "spec.gatewayClassName"@, "GatewayClass"@, "gateway.networking.k8s.io/v1"@, UfoRelation::ScopedBy),
        rule_view_of("StorageClass"@, "storage.k8s.io"@, "provisioner"@, "CSIDriver"@, "storage.k8s.io/v1"@, UfoRelation::Requires),
        rule_view_of("FlowSchema"@, "flowcontrol.apiserver.k8s.io"@, "spec.priorityLevelConfiguration.name"@, "PriorityLevelConfiguration"@, "flowcontrol.apiserver.k8s.io/v1"@, UfoRelation::Binds),
    ]
}

/// The built-in rule set: storage, ingress and gateway class references,
/// claim-to-volume binding, the CSI provisioner and flow-control priority
/// levels.
pub fn builtin_rules() -> (v: Vec<SimpleFieldRule>)
    ensures
        rules_view(v@) == builtin_rules_spec(),
{
    let mut v: Vec<SimpleFieldRule> = Vec::new();
    // PersistentVolume.spec.storageClassName scopes the volume to its class.
    v.push(SimpleFieldRule::new("PersistentVolume", "", "spec.storageClassName", "StorageClass", "storage.k8s.io/v1", UfoRelation::ScopedBy));
    // PersistentVolumeClaim.spec.storageClassName scopes the claim to its class.
    v.push(SimpleFieldRule::new("PersistentVolumeClaim", "", "spec.storageClassName", "StorageClass", "storage.k8s.io/v1", UfoRelation::ScopedBy));
    // PersistentVolumeClaim.spec.volumeName binds the claim to its volume.
    v.push(SimpleFieldRule::new("PersistentVolumeClaim", "", "spec.volumeName", "PersistentVolume", "v1", UfoRelation::Binds));
    // CSIStorageCapacity.storageClassName scopes the capacity record to its class.
    v.push(SimpleFieldRule::new("CSIStorageCapacity", "storage.k8s.io", "storageClassName", "StorageClass", "storage.k8s.io/v1", UfoRelation::ScopedBy));
    // Ingress.spec.ingressClassName scopes the ingress to its controller class.
    v.push(SimpleFieldRule::new("Ingress", "networking.k8s.io", "spec.ingressClassName", "IngressClass", "networking.k8s.io/v1", UfoRelation::ScopedBy));
    // Gateway.spec.gatewayClassName scopes the gateway to its class.
    v.push(SimpleFieldRule::new("Gateway", "gateway.networking.k8s.io", "spec.gatewayClassName", "GatewayClass", "gateway.networking.k8s.io/v1", UfoRelation::ScopedBy));
    // StorageClass.provisioner names the CSI driver the class requires.
    v.push(SimpleFieldRule::new("StorageClass", "storage.k8s.io", "provisioner", "CSIDriver", "storage.k8s.io/v1", UfoRelation::Requires));
    // FlowSchema.spec.priorityLevelConfiguration.name binds the schema to its priority level.
    v.push(SimpleFieldRule::new("FlowSchema", "flowcontrol.apiserver.k8s.io", "spec.priorityLevelConfiguration.name", "PriorityLevelConfiguration", "flowcontrol.apiserver.k8s.io/v1", UfoRelation::Binds));
    assert(rules_view(v@) =~= builtin_rules_spec());
    v
}

pub open spec fn rule_edge(m: JsonValue, kind: Seq<char>, group: Seq<char>, r: RuleView) -> Seq<EdgeView> {
    if r.kind == kind && r.api_group == group {
        match (jstr(get_path_spec(m, r.field_path)), m_element_id(m)) {
            (Some(name), Some(source)) => seq![
                edge_spec(m, source, element_id_spec(r.target_kind, None, name), r.relation),
            ],
            _ => Seq::empty(),
        }
    } else {
        Seq::empty()
    }
}

#[verifier::opaque]
pub open spec fn simple_field_edges_spec(rules: Seq<RuleView>, m: JsonValue) -> Seq<EdgeView> {
    match m_kind(m) {
        None => Seq::empty(),
        Some(kind) => flat_map(rules, |r: RuleView| rule_edge(m, kind, m_group(m), r)),
    }
}

/// Every edge recognized from one manifest, rule family by rule family.
pub open spec fn manifest_edges(rules: Seq<RuleView>, m: JsonValue) -> Seq<EdgeView> {
    simple_field_edges_spec(rules, m) + owner_reference_edges_spec(m) + controller_scale_target_edges_spec(m)
        + rbac_binding_edges_spec(m) + service_account_edges_spec(m) + volume_reference_edges_spec(m)
        + container_env_edges_spec(m) + api_service_edges_spec(m) + runtime_class_edges_spec(m)
        + node_name_edges_spec(m)
}

// ---------------------------------------------------------------------
// Service label selection across the batch (selects)
// ---------------------------------------------------------------------

/// Every selector entry is matched, as a string, by the label of that key.
pub open spec fn selector_matches(selector: Seq<(String, JsonValue)>, labels: Seq<(String, JsonValue)>) -> bool {
    forall|k: int| 0 <= k < selector.len() ==> jstr(member_get(labels, #[trigger] selector[k].0@)) == jstr(Some(selector[k].1))
}

pub open spec fn candidate_edge(
    ms: Seq<JsonValue>,
    i: int,
    selector: Seq<(String, JsonValue)>,
    source: Seq<char>,
    j: int,
) -> Seq<EdgeView> {
    let c = ms[j];
    if j == i {
        Seq::empty()
    } else if pod_spec_path_spec(m_kind_or_empty(c), m_group(c)) is None {
        Seq::empty()
    } else if m_namespace(c) != m_namespace(ms[i]) {
        Seq::empty()
    } else {
        match jobject(get_path_spec(c, "metadata.labels"@)) {
            None => Seq::empty(),
            Some(labels) => if !selector_matches(selector, labels) {
                Seq::empty()
            } else {
                match m_element_id(c) {
                    Some(target) => seq![edge_spec(ms[i], source, target, UfoRelation::Selects)],
                    None => Seq::empty(),
                }
            },
        }
    }
}

pub open spec fn service_edges(ms: Seq<JsonValue>, i: int) -> Seq<EdgeView> {
    let svc = ms[i];
    if m_kind(svc) != Some("Service"@) {
        Seq::empty()
    } else {
        match jobject(get_path_spec(svc, "spec.selector"@)) {
            None => Seq::empty(),
            Some(selector) => if selector.len() == 0 {
                Seq::empty()
            } else {
                match m_element_id(svc) {
                    None => Seq::empty(),
                    Some(source) => flat_map_upto(ms.len(), |j: int| candidate_edge(ms, i, selector, source, j)),
                }
            },
        }
    }
}

/// Every Service's selector matched against the labels of every other
/// pod-spec-bearing manifest of the same namespace in the batch.
pub open spec fn service_selector_edges_spec(ms: Seq<JsonValue>) -> Seq<EdgeView> {
    flat_map_upto(ms.len(), |i: int| service_edges(ms, i))
}

fn object_at<'a>(v: Option<&'a JsonValue>) -> (r: Option<&'a Vec<(String, JsonValue)>>)
    ensures
        match r {
            Some(a) => jobject(opt_ref_view(v)) == Some(a@),
            None => jobject(opt_ref_view(v)) is None,
        },
{
    match v {
        Some(JsonValue::Object(members)) => Some(members),
        _ => None,
    }
}

fn opt_str_eq(a: Option<&str>, b: Option<&str>) -> (r: bool)
    ensures
        r == (opt_str_view(a) == opt_str_view(b)),
{
    match (a, b) {
        (Some(x), Some(y)) => str_eq(x, y),
        (None, None) => true,
        _ => false,
    }
}

fn matches_selector(selector: &Vec<(String, JsonValue)>, labels: &Vec<(String, JsonValue)>) -> (r: bool)
    ensures
        r == selector_matches(selector@, labels@),
{
    let mut k: usize = 0;
    while k < selector.len()
        invariant
            k <= selector@.len(),
            forall|t: int| 0 <= t < k ==> jstr(member_get(labels@, #[trigger] selector@[t].0@)) == jstr(Some(selector@[t].1)),
        decreases selector@.len() - k,
    {
        let key = str_chars(selector[k].0.as_str());
        let have = as_str(get_member(labels, key.as_slice()));
        let want = as_str(Some(&selector[k].1));
        if !opt_str_eq(have, want) {
            return false;
        }
        k = k + 1;
    }
    true
}

fn ns_eq(a: &JsonValue, b: &JsonValue) -> (r: bool)
    ensures
        r == (m_namespace(*a) == m_namespace(*b)),
{
    opt_str_eq(namespace_of(a), namespace_of(b))
}

fn service_selector_edges(manifests: &[JsonValue], out: &mut Vec<OntologicalEdge>)
    ensures
        edges_view(final(out)@) == edges_view(old(out)@) + service_selector_edges_spec(manifests@),
{
    let ghost ms = manifests@;
    let ghost f = |i: int| service_edges(ms, i);
    let mut i: usize = 0;
    while i < manifests.len()
        invariant
            i <= ms.len(),
            ms == manifests@,
            f == (|i: int| service_edges(ms, i)),
            edges_view(out@) == edges_view(old(out)@) + flat_map_upto(i as nat, f),
        decreases ms.len() - i,
    {
        let svc = &manifests[i];
        let ghost before = edges_view(out@);
        if is_kind(svc, "Service") {
            match object_at(get_path(svc, "spec.selector")) {
                Some(selector) => {
                    if selector.len() > 0 {
                        match manifest_element_id(svc) {
                            Some(source) => {
                                let ghost g = |j: int| candidate_edge(ms, i as int, selector@, source.view_id(), j);
                                let mut j: usize = 0;
                                while j < manifests.len()
                                    invariant
                                        j <= ms.len(),
                                        i < ms.len(),
                                        ms == manifests@,
                                        *svc == ms[i as int],
                                        g == (|j: int| candidate_edge(ms, i as int, selector@, source.view_id(), j)),
                                        edges_view(out@) == before + flat_map_upto(j as nat, g),
                                    decreases ms.len() - j,
                                {
                                    let c = &manifests[j];
                                    let ghost b2 = edges_view(out@);
                                    if j != i {
                                        let group = group_of(c);
                                        if pod_spec_path(kind_or_empty(c), group.as_slice()).is_some() && ns_eq(c, svc) {
                                            match object_at(get_path(c, "metadata.labels")) {
                                                Some(labels) => {
                                                    if matches_selector(selector, labels) {
                                                        match manifest_element_id(c) {
                                                            Some(target) => {
                                                                let e = make_edge(svc, &source, target, UfoRelation::Selects);
                                                                push_edge(out, e);
                                                            },
                                                            None => {},
                                                        }
                                                    }
                                                },
                                                None => {},
                                            }
                                        }
                                    }
                                    assert(edges_view(out@) =~= b2 + g(j as int));
                                    j = j + 1;
                                }
                            },
                            None => {},
                        }
                    }
                },
                None => {},
            }
        }
        assert(edges_view(out@) =~= before + f(i as int));
        i = i + 1;
    }
}

/// A Kubernetes-manifest recognizer: the built-in rules plus any
/// caller-supplied extension rules.
#[derive(Debug, Clone)]
pub struct KubernetesRecognizer {
    rules: Vec<SimpleFieldRule>,
}

/// Everything recognized from a batch: every manifest's own edges, in
/// batch order, then the Service selections.
pub open spec fn recognize_spec(rules: Seq<RuleView>, ms: Seq<JsonValue>) -> Seq<EdgeView> {
    flat_map(ms, |m: JsonValue| manifest_edges(rules, m)) + service_selector_edges_spec(ms)
}

/// The hashed identity of one rule: each field behind a `0x1f` separator.
pub open spec fn rule_preimage(r: RuleView) -> Seq<u8> {
    seq![0x1fu8] + utf8(r.kind) + seq![0x1fu8] + utf8(r.api_group) + seq![0x1fu8] + utf8(r.field_path)
        + seq![0x1fu8] + utf8(r.target_kind) + seq![0x1fu8] + utf8(r.target_api_version) + seq![0x1fu8]
        + utf8(canonical_name_of(r.relation))
}

/// The hash input of a rule set.
pub open spec fn rule_set_preimage(rules: Seq<RuleView>) -> Seq<u8> {
    utf8("kr0ki-k8s-recognizer/v1"@) + flat_map(rules, |r: RuleView| rule_preimage(r))
}

impl KubernetesRecognizer {
    /// The active rules, in order.
    pub closed spec fn rule_views(&self) -> Seq<RuleView> {
        rules_view(self.rules@)
    }

    /// A recognizer seeded with the built-in rule set.
    pub fn new() -> (r: KubernetesRecognizer)
        ensures
            r.rule_views() == builtin_rules_spec(),
    {
        KubernetesRecognizer { rules: builtin_rules() }
    }

    /// Appends one extension rule (e.g. for a CRD's own reference field).
    pub fn with_rule(self, rule: SimpleFieldRule) -> (r: KubernetesRecognizer)
        ensures
            r.rule_views() == self.rule_views().push(rule_view(rule)),
    {
        let mut rules = self.rules;
        let ghost before = rules@;
        rules.push(rule);
        assert(rules_view(rules@) =~= rules_view(before).push(rule_view(rule)));
        KubernetesRecognizer { rules }
    }

    /// Appends several extension rules, in order.
    pub fn with_rules(self, extra: Vec<SimpleFieldRule>) -> (r: KubernetesRecognizer)
        ensures
            r.rule_views() == self.rule_views() + rules_view(extra@),
    {
        let mut rules = self.rules;
        let mut extra = extra;
        let ghost base = rules@;
        let ghost added = extra@;
        rules.append(&mut extra);
        assert(rules_view(rules@) =~= rules_view(base) + rules_view(added));
        KubernetesRecognizer { rules }
    }
}

fn push_str_bytes(out: &mut Vec<u8>, s: &str)
    ensures
        final(out)@ == old(out)@ + utf8(s@),
{
    push_bytes(out, s.as_bytes());
}

fn push_rule_preimage(out: &mut Vec<u8>, r: &SimpleFieldRule)
    ensures
        final(out)@ == old(out)@ + rule_preimage(rule_view(*r)),
{
    out.push(0x1fu8);
    push_str_bytes(out, r.kind.as_str());
    out.push(0x1fu8);
    push_str_bytes(out, r.api_group.as_str());
    out.push(0x1fu8);
    push_str_bytes(out, r.field_path.as_str());
    out.push(0x1fu8);
    push_str_bytes(out, r.target_kind.as_str());
    out.push(0x1fu8);
    push_str_bytes(out, r.target_api_version.as_str());
    out.push(0x1fu8);
    push_str_bytes(out, r.relation.canonical_name());
    assert(out@ =~= old(out)@ + rule_preimage(rule_view(*r)));
}

impl KubernetesRecognizer {
    /// A deterministic hash of the active rule set (built-ins and
    /// extensions), lowercase-hex SHA-256 of `"kr0ki-k8s-recognizer/v1"`
    /// followed by every rule's fields, each behind a `0x1f` separator.
    pub fn rule_set_version(&self) -> (r: String)
        ensures
            r@ == sha256_hex_spec(rule_set_preimage(self.rule_views())),
            r@.len() == 64,
    {
        let ghost rv = self.rule_views();
        let ghost f = |r: RuleView| rule_preimage(r);
        let mut pre: Vec<u8> = Vec::new();
        push_str_bytes(&mut pre, "kr0ki-k8s-recognizer/v1");
        let mut i: usize = 0;
        while i < self.rules.len()
            invariant
                i <= self.rules@.len(),
                rv == rules_view(self.rules@),
                f == (|r: RuleView| rule_preimage(r)),
                pre@ == utf8("kr0ki-k8s-recognizer/v1"@) + flat_map(rv.take(i as int), f),
            decreases self.rules@.len() - i,
        {
            proof { lemma_flat_map_step(rv, i as int, f); }
            push_rule_preimage(&mut pre, &self.rules[i]);
            i = i + 1;
        }
        assert(rv.take(rv.len() as int) =~= rv);
        sha256_hex(pre.as_slice())
    }

    fn simple_field_edges(&self, m: &JsonValue, out: &mut Vec<OntologicalEdge>)
        ensures
            edges_view(final(out)@) == edges_view(old(out)@) + simple_field_edges_spec(self.rule_views(), *m),
    {
        reveal(simple_field_edges_spec);
        let kind = match kind_of(m) {
            Some(k) => k,
            None => {
                assert(edges_view(out@) =~= edges_view(old(out)@) + simple_field_edges_spec(self.rule_views(), *m));
                return;
            },
        };
        let group = group_of(m);
        let ghost rv = self.rule_views();
        let ghost f = |r: RuleView| rule_edge(*m, kind@, m_group(*m), r);
        let mut i: usize = 0;
        while i < self.rules.len()
            invariant
                i <= self.rules@.len(),
                rv == rules_view(self.rules@),
                group@ == m_group(*m),
                f == (|r: RuleView| rule_edge(*m, kind@, m_group(*m), r)),
                edges_view(out@) == edges_view(old(out)@) + flat_map(rv.take(i as int), f),
            decreases self.rules@.len() - i,
        {
            proof { lemma_flat_map_step(rv, i as int, f); }
            let r = &self.rules[i];
            let ghost before = edges_view(out@);
            if str_eq(r.kind.as_str(), kind) && chars_is(group.as_slice(), r.api_group.as_str()) {
                match (path_str(m, r.field_path.as_str()), manifest_element_id(m)) {
                    (Some(name), Some(source)) => {
                        let target = element_id(r.target_kind.as_str(), None, name);
                        let e = make_edge(m, &source, target, r.relation);
                        push_edge(out, e);
                    },
                    _ => {},
                }
            }
            assert(edges_view(out@) =~= before + f(rv[i as int]));
            i = i + 1;
        }
        assert(rv.take(rv.len() as int) =~= rv);
    }

    fn manifest_edges_into(&self, m: &JsonValue, out: &mut Vec<OntologicalEdge>)
        ensures
            edges_view(final(out)@) == edges_view(old(out)@) + manifest_edges(self.rule_views(), *m),
    {
        let ghost o = edges_view(out@);
        self.simple_field_edges(m, out);
        owner_reference_edges(m, out);
        controller_scale_target_edges(m, out);
        rbac_binding_edges(m, out);
        service_account_edges(m, out);
        volume_reference_edges(m, out);
        container_env_edges(m, out);
        api_service_edges(m, out);
        runtime_class_edges(m, out);
        node_name_edges(m, out);
        assert(edges_view(out@) =~= o + manifest_edges(self.rule_views(), *m));
    }

    /// Every edge the rule set and the structural rules extract from
    /// `manifests`: each manifest's edges in batch order, then the Service
    /// label selections across the batch.
    pub fn recognize(&self, manifests: &[JsonValue]) -> (edges: Vec<OntologicalEdge>)
        ensures
            edges_view(edges@) == recognize_spec(self.rule_views(), manifests@),
    {
        let ghost f = |m: JsonValue| manifest_edges(self.rule_views(), m);
        let mut edges: Vec<OntologicalEdge> = Vec::new();
        let mut i: usize = 0;
        while i < manifests.len()
            invariant
                i <= manifests@.len(),
                f == (|m: JsonValue| manifest_edges(self.rule_views(), m)),
                edges_view(edges@) == flat_map(manifests@.take(i as int), f),
            decreases manifests@.len() - i,
        {
            proof { lemma_flat_map_step(manifests@, i as int, f); }
            self.manifest_edges_into(&manifests[i], &mut edges);
            i = i + 1;
        }
        assert(manifests@.take(manifests@.len() as int) =~= manifests@);
        service_selector_edges(manifests, &mut edges);
        edges
    }
}

impl Default for KubernetesRecognizer {
    /// A recognizer with no rules at all (not even the built-ins).
    fn default() -> (r: KubernetesRecognizer)
        ensures
            r.rule_views() == Seq::<RuleView>::empty(),
    {
        let r = KubernetesRecognizer { rules: Vec::new() };
        assert(r.rule_views() =~= Seq::<RuleView>::empty());
        r
    }
}

/// The node for one manifest: its element id, a sub-kind of `K8sObject`
/// named by its kind, labelled with its name.
pub open spec fn manifest_node(m: JsonValue) -> Seq<NodeView> {
    match (m_element_id(m), m_kind(m), m_name(m)) {
        (Some(id), Some(kind), Some(name)) => seq![
            NodeView { id, stereotype: StereotypeView::SubKind { name: kind, parent: "K8sObject"@ }, label: Some(name) },
        ],
        _ => Seq::empty(),
    }
}

impl KubernetesRecognizer {
    /// [`Self::recognize`] in a graph: one node per manifest that has a kind
    /// and a name, then every recognized edge. An edge whose target
    /// manifest is not in the batch dangles.
    pub fn recognize_to_sysgraph(&self, manifests: &[JsonValue]) -> (g: SysGraph)
        ensures
            nodes_view(g.nodes@) == flat_map(manifests@, |m: JsonValue| manifest_node(m)),
            edges_view(g.edges@) == recognize_spec(self.rule_views(), manifests@),
    {
        let ghost f = |m: JsonValue| manifest_node(m);
        let mut graph = SysGraph::new();
        let mut i: usize = 0;
        while i < manifests.len()
            invariant
                i <= manifests@.len(),
                f == (|m: JsonValue| manifest_node(m)),
                nodes_view(graph.nodes@) == flat_map(manifests@.take(i as int), f),
                graph.edges@.len() == 0,
            decreases manifests@.len() - i,
        {
            proof { lemma_flat_map_step(manifests@, i as int, f); }
            let m = &manifests[i];
            let ghost before = nodes_view(graph.nodes@);
            match (manifest_element_id(m), kind_of(m), name_of(m)) {
                (Some(id), Some(kind), Some(name)) => {
                    let node = OntologicalNode {
                        id,
                        stereotype: UfoStereotype::SubKind { name: owned(kind), parent: owned("K8sObject") },
                        label: Some(owned(name)),
                    };
                    graph.push_node(node);
                    assert(nodes_view(graph.nodes@) =~= before.push(node_view(node)));
                },
                _ => {},
            }
            assert(nodes_view(graph.nodes@) =~= before + f(manifests@[i as int]));
            i = i + 1;
        }
        assert(manifests@.take(manifests@.len() as int) =~= manifests@);
        let edges = self.recognize(manifests);
        let ghost nodes = graph.nodes@;
        SysGraph { nodes: graph.nodes, edges }
    }
}

} // verus!
