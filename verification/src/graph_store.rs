//! A small in-memory RDF index over SysML v2 query results: element
//! metadata and relationship triples under the kr0ki namespace, two bounded
//! query shapes, and one structural check. A derived cache, neither a
//! triplestore nor a SPARQL endpoint.
use vstd::prelude::*;

use crate::model::Element;
use crate::text::{find_last, last_index_of, lemma_last_index_of, push_str, str_chars, str_eq};

verus! {

/// The kr0ki ontology namespace every stored IRI lives in.
pub const KR0KI_NS: &'static str = "http://kr0ki.promptexecution.com/ontology#";

/// The two query shapes.
#[derive(Debug, Clone, Copy, PartialEq, Eq, Structural)]
pub enum QueryShape {
    /// Every triple about the subject.
    TriplesAbout,
    /// The subject's relationship triples, without element metadata.
    RelatedVia,
}

/// A failed structural check.
#[derive(Debug, Clone, PartialEq, Eq)]
pub struct ShapeViolation {
    pub subject: String,
    pub rule: &'static str,
    pub message: String,
}

/// A stored object: an IRI or a plain literal.
#[derive(Debug, Clone, PartialEq, Eq)]
pub enum StoredObject {
    Node(String),
    Literal(String),
}

/// A stored triple: subject IRI, predicate IRI, object.
#[derive(Debug, Clone, PartialEq, Eq)]
pub struct StoredTriple {
    pub subject: String,
    pub predicate: String,
    pub object: StoredObject,
}

pub enum ObjectView {
    Node(Seq<char>),
    Literal(Seq<char>),
}

pub type TripleView = (Seq<char>, Seq<char>, ObjectView);

pub open spec fn object_view(o: StoredObject) -> ObjectView {
    match o {
        StoredObject::Node(s) => ObjectView::Node(s@),
        StoredObject::Literal(s) => ObjectView::Literal(s@),
    }
}

pub open spec fn triple_view(t: StoredTriple) -> TripleView {
    (t.subject@, t.predicate@, object_view(t.object))
}

/// The IRI of a kr0ki-namespace local name.
pub open spec fn local_iri(local: Seq<char>) -> Seq<char> {
    KR0KI_NS@ + local
}

/// Whether oxrdf accepts `iri` as an IRI (`NamedNode::new` succeeds).
pub uninterp spec fn iri_valid(iri: Seq<char>) -> bool;

/// `oxrdf::NamedNode::new(iri).is_ok()`: whether `iri` is a valid IRI.
#[verifier::external_body]
fn check_iri(iri: &str) -> (r: bool)
    ensures
        r == iri_valid(iri@),
{
    oxrdf::NamedNode::new(iri).is_ok()
}

/// The part of an IRI after its last `#` (the whole IRI when it has none).
pub open spec fn short_name_spec(iri: Seq<char>) -> Seq<char> {
    match last_index_of(iri, '#') {
        Some(i) => iri.skip(i + 1),
        None => iri,
    }
}

/// The text a stored object is reported as: an IRI's short name or a
/// literal's value.
pub open spec fn object_text(o: ObjectView) -> Seq<char> {
    match o {
        ObjectView::Node(s) => short_name_spec(s),
        ObjectView::Literal(s) => s,
    }
}

/// Predicates that carry element metadata rather than a relationship.
pub open spec fn is_metadata(short: Seq<char>) -> bool {
    short == "type"@ || short == "name"@ || short == "sourceProject"@ || short == "sourceCommit"@
}

/// The triples an element materializes: its type, its name if it has one,
/// its source project and commit.
pub open spec fn element_triples(project_id: Seq<char>, commit_id: Seq<char>, el: Element) -> Seq<TripleView> {
    let s = local_iri(el.id@);
    seq![(s, local_iri("type"@), ObjectView::Literal(el.ty@))]
        + element_name_triples(s, el)
        + seq![
            (s, local_iri("sourceProject"@), ObjectView::Literal(project_id)),
            (s, local_iri("sourceCommit"@), ObjectView::Literal(commit_id)),
        ]
}

/// `ts` extended by `x` unless `x` is already present.
pub open spec fn insert_one(ts: Seq<TripleView>, x: TripleView) -> Seq<TripleView> {
    if ts.contains(x) {
        ts
    } else {
        ts.push(x)
    }
}

/// `ts` extended by each of `new` that is not already present, in order.
pub open spec fn insert_all(ts: Seq<TripleView>, new: Seq<TripleView>) -> Seq<TripleView>
    decreases new.len(),
{
    if new.len() == 0 {
        ts
    } else {
        insert_one(insert_all(ts, new.drop_last()), new.last())
    }
}

proof fn lemma_insert_all_push(ts: Seq<TripleView>, new: Seq<TripleView>, x: TripleView)
    ensures
        insert_all(ts, new.push(x)) == insert_one(insert_all(ts, new), x),
{
    assert(new.push(x).drop_last() =~= new);
}

/// One query result row: subject short name, predicate short name, object
/// text.
pub open spec fn query_row(t: TripleView) -> (Seq<char>, Seq<char>, Seq<char>) {
    (short_name_spec(t.0), short_name_spec(t.1), object_text(t.2))
}

/// Whether a triple answers a query about the subject IRI `s`.
pub open spec fn answers(shape: QueryShape, s: Seq<char>, t: TripleView) -> bool {
    t.0 == s && (shape == QueryShape::TriplesAbout || !is_metadata(short_name_spec(t.1)))
}

pub open spec fn query_spec(ts: Seq<TripleView>, shape: QueryShape, s: Seq<char>) -> Seq<(Seq<char>, Seq<char>, Seq<char>)> {
    crate::text::flat_map(ts, |t: TripleView| if answers(shape, s, t) { seq![query_row(t)] } else { Seq::empty() })
}

/// Whether some element named `name` has a type triple.
pub open spec fn is_typed(ts: Seq<TripleView>, name: Seq<char>) -> bool {
    exists|i: int| 0 <= i < ts.len() && short_name_spec(ts[i].1) == "type"@ && #[trigger] short_name_spec(ts[i].0) == name
}

pub open spec fn violation_message(subject: Seq<char>) -> Seq<char> {
    subject + " is the target of a relationship but was never materialized with a type triple"@
}

/// The violation a triple causes: its IRI object was never typed.
pub open spec fn triple_violation(ts: Seq<TripleView>, t: TripleView) -> Seq<Seq<char>> {
    match t.2 {
        ObjectView::Node(o) => if !is_typed(ts, short_name_spec(o)) { seq![short_name_spec(o)] } else { Seq::empty() },
        ObjectView::Literal(_) => Seq::empty(),
    }
}

/// The subjects of every `must_have_type` violation, in triple order.
pub open spec fn violations_spec(ts: Seq<TripleView>) -> Seq<Seq<char>> {
    crate::text::flat_map(ts, |t: TripleView| triple_violation(ts, t))
}

/// The in-memory triple index.
pub struct GraphStore {
    triples: Vec<StoredTriple>,
}

impl GraphStore {
    /// The stored triples, in insertion order.
    pub closed spec fn view(&self) -> Seq<TripleView> {
        self.triples@.map_values(|t: StoredTriple| triple_view(t))
    }

    /// The empty store.
    pub fn new() -> (r: GraphStore)
        ensures
            r.view().len() == 0,
    {
        let r = GraphStore { triples: Vec::new() };
        assert(r.view() =~= Seq::<TripleView>::empty());
        r
    }
}

fn local_node(local: &str) -> (r: String)
    ensures
        r@ == local_iri(local@),
{
    let mut s = String::new();
    push_str(&mut s, KR0KI_NS);
    push_str(&mut s, local);
    s
}

fn short_name(iri: &str) -> (r: String)
    ensures
        r@ == short_name_spec(iri@),
{
    let v = str_chars(iri);
    proof { lemma_last_index_of(v@, '#'); }
    match find_last(v.as_slice(), '#') {
        Some(i) => crate::text::chars_to_string(v.as_slice(), i + 1, v.len()),
        None => {
            let mut s = String::new();
            push_str(&mut s, iri);
            s
        },
    }
}

fn copy_string(s: &String) -> (r: String)
    ensures
        r@ == s@,
{
    let mut r = String::new();
    push_str(&mut r, s.as_str());
    r
}

fn same_triple(a: &StoredTriple, b: &StoredTriple) -> (r: bool)
    ensures
        r == (triple_view(*a) == triple_view(*b)),
{
    let objects_equal = match (&a.object, &b.object) {
        (StoredObject::Node(x), StoredObject::Node(y)) => str_eq(x.as_str(), y.as_str()),
        (StoredObject::Literal(x), StoredObject::Literal(y)) => str_eq(x.as_str(), y.as_str()),
        _ => false,
    };
    str_eq(a.subject.as_str(), b.subject.as_str()) && str_eq(a.predicate.as_str(), b.predicate.as_str())
        && objects_equal
}

pub open spec fn element_name_triples(s: Seq<char>, el: Element) -> Seq<TripleView> {
    match el.name {
        Some(n) => seq![(s, local_iri("name"@), ObjectView::Literal(n@))],
        None => Seq::empty(),
    }
}

fn contains_name(names: &Vec<String>, name: &str) -> (r: bool)
    ensures
        r == names@.map_values(|s: String| s@).contains(name@),
{
    let ghost nv = names@.map_values(|s: String| s@);
    let mut j: usize = 0;
    while j < names.len()
        invariant
            j <= names@.len(),
            nv == names@.map_values(|s: String| s@),
            forall|k: int| 0 <= k < j ==> nv[k] != name@,
        decreases names@.len() - j,
    {
        if str_eq(names[j].as_str(), name) {
            assert(nv[j as int] == name@);
            return true;
        }
        j = j + 1;
    }
    false
}

/// Every IRI an element's triples use is valid.
pub open spec fn element_iris_valid(el: Element) -> bool {
    &&& iri_valid(local_iri(el.id@))
    &&& iri_valid(local_iri("type"@))
    &&& (el.name is Some ==> iri_valid(local_iri("name"@)))
    &&& iri_valid(local_iri("sourceProject"@))
    &&& iri_valid(local_iri("sourceCommit"@))
}

impl GraphStore {
    /// Appends `t` unless an equal triple is already stored.
    fn insert_unique(&mut self, t: StoredTriple)
        ensures
            final(self).view() == insert_one(old(self).view(), triple_view(t)),
    {
        let ghost tv = triple_view(t);
        let ghost v0 = self.view();
        let mut i: usize = 0;
        while i < self.triples.len()
            invariant
                i <= self.triples@.len(),
                v0 == self.view(),
                tv == triple_view(t),
                forall|k: int| 0 <= k < i ==> v0[k] != tv,
            decreases self.triples@.len() - i,
        {
            if same_triple(&self.triples[i], &t) {
                assert(v0[i as int] == tv);
                assert(v0.contains(tv));
                return;
            }
            i = i + 1;
        }
        assert(!v0.contains(tv));
        self.triples.push(t);
        assert(self.view() =~= v0.push(tv));
    }

    /// Materializes an element: its `type` and (when named) `name` as
    /// literals, and the project and commit it was read from. Triples
    /// already present are not stored twice.
    pub fn insert_element_triples(&mut self, project_id: &str, commit_id: &str, element: &Element)
        requires
            element_iris_valid(*element),
        ensures
            final(self).view() == insert_all(old(self).view(), element_triples(project_id@, commit_id@, *element)),
    {
        let ghost v0 = self.view();
        let ghost s = local_iri(element.id@);
        let ghost t0 = (s, local_iri("type"@), ObjectView::Literal(element.ty@));
        let ghost tname = element_name_triples(s, *element);
        let ghost tp = (s, local_iri("sourceProject"@), ObjectView::Literal(project_id@));
        let ghost tc = (s, local_iri("sourceCommit"@), ObjectView::Literal(commit_id@));
        let ghost all = element_triples(project_id@, commit_id@, *element);
        self.insert_unique(StoredTriple {
            subject: local_node(element.id()),
            predicate: local_node("type"),
            object: StoredObject::Literal(copy_string(&element.ty)),
        });
        proof {
            lemma_insert_all_push(v0, Seq::empty(), t0);
            assert(Seq::<TripleView>::empty().push(t0) =~= seq![t0]);
        }
        match element.name() {
            Some(name) => {
                let mut n = String::new();
                push_str(&mut n, name);
                self.insert_unique(StoredTriple {
                    subject: local_node(element.id()),
                    predicate: local_node("name"),
                    object: StoredObject::Literal(n),
                });
                proof {
                    lemma_insert_all_push(v0, seq![t0], tname[0]);
                    assert(seq![t0].push(tname[0]) =~= seq![t0] + tname);
                }
            },
            None => {
                assert(seq![t0] + tname =~= seq![t0]);
            },
        }
        let mut p = String::new();
        push_str(&mut p, project_id);
        self.insert_unique(StoredTriple {
            subject: local_node(element.id()),
            predicate: local_node("sourceProject"),
            object: StoredObject::Literal(p),
        });
        proof { lemma_insert_all_push(v0, seq![t0] + tname, tp); }
        let mut c = String::new();
        push_str(&mut c, commit_id);
        self.insert_unique(StoredTriple {
            subject: local_node(element.id()),
            predicate: local_node("sourceCommit"),
            object: StoredObject::Literal(c),
        });
        proof { lemma_insert_all_push(v0, (seq![t0] + tname).push(tp), tc); }
        assert(all =~= (seq![t0] + tname).push(tp).push(tc));
    }
}

/// The triple a relationship stores: subject, relation kind and object as
/// kr0ki IRIs.
pub open spec fn relationship_triple(subject_id: Seq<char>, relation_kind: Seq<char>, object_id: Seq<char>) -> TripleView {
    (local_iri(subject_id), local_iri(relation_kind), ObjectView::Node(local_iri(object_id)))
}

impl GraphStore {
    /// Stores `subject --relation_kind--> object` (all three kr0ki local
    /// names), unless already present.
    pub fn insert_relationship_triple(&mut self, subject_id: &str, relation_kind: &str, object_id: &str)
        requires
            iri_valid(local_iri(subject_id@)),
            iri_valid(local_iri(relation_kind@)),
            iri_valid(local_iri(object_id@)),
        ensures
            final(self).view() == insert_one(old(self).view(), relationship_triple(subject_id@, relation_kind@, object_id@)),
    {
        self.insert_unique(StoredTriple {
            subject: local_node(subject_id),
            predicate: local_node(relation_kind),
            object: StoredObject::Node(local_node(object_id)),
        });
    }

    /// The rows answering `shape` about the element `subject`: subject,
    /// predicate and object short names (a literal object by its value), in
    /// insertion order. No subject, no rows.
    pub fn query(&self, shape: QueryShape, subject: Option<&str>) -> (r: Vec<(String, String, String)>)
        requires
            subject matches Some(s) ==> iri_valid(local_iri(s@)),
        ensures
            r@.map_values(|row: (String, String, String)| (row.0@, row.1@, row.2@)) == match subject {
                Some(s) => query_spec(self.view(), shape, local_iri(s@)),
                None => Seq::empty(),
            },
    {
        let subject = match subject {
            Some(s) => s,
            None => {
                let r: Vec<(String, String, String)> = Vec::new();
                assert(r@.map_values(|row: (String, String, String)| (row.0@, row.1@, row.2@)) =~= Seq::empty());
                return r;
            },
        };
        let iri = local_node(subject);
        let ghost v = self.view();
        let ghost f = |t: TripleView| if answers(shape, iri@, t) { seq![query_row(t)] } else { Seq::empty() };
        let mut out: Vec<(String, String, String)> = Vec::new();
        let mut i: usize = 0;
        while i < self.triples.len()
            invariant
                i <= self.triples@.len(),
                v == self.view(),
                f == (|t: TripleView| if answers(shape, iri@, t) { seq![query_row(t)] } else { Seq::empty() }),
                out@.map_values(|row: (String, String, String)| (row.0@, row.1@, row.2@)) == crate::text::flat_map(v.take(i as int), f),
            decreases self.triples@.len() - i,
        {
            proof { crate::text::lemma_flat_map_step(v, i as int, f); }
            let t = &self.triples[i];
            assert(triple_view(*t) == v[i as int]);
            let ghost before = out@;
            let pred = short_name(t.predicate.as_str());
            let is_meta = str_eq(pred.as_str(), "type") || str_eq(pred.as_str(), "name")
                || str_eq(pred.as_str(), "sourceProject") || str_eq(pred.as_str(), "sourceCommit");
            let hit = str_eq(t.subject.as_str(), iri.as_str()) && (shape == QueryShape::TriplesAbout || !is_meta);
            if hit {
                let object = match &t.object {
                    StoredObject::Node(o) => short_name(o.as_str()),
                    StoredObject::Literal(l) => copy_string(l),
                };
                out.push((short_name(t.subject.as_str()), pred, object));
            }
            assert(out@.map_values(|row: (String, String, String)| (row.0@, row.1@, row.2@))
                =~= before.map_values(|row: (String, String, String)| (row.0@, row.1@, row.2@)) + f(v[i as int]));
            i = i + 1;
        }
        assert(v.take(v.len() as int) =~= v);
        out
    }

    fn typed_names(&self) -> (r: Vec<String>)
        ensures
            forall|name: Seq<char>| is_typed(self.view(), name) <==> r@.map_values(|s: String| s@).contains(name),
    {
        let ghost v = self.view();
        let mut out: Vec<String> = Vec::new();
        let mut i: usize = 0;
        while i < self.triples.len()
            invariant
                i <= self.triples@.len(),
                v == self.view(),
                forall|name: Seq<char>| is_typed(v.take(i as int), name) <==> out@.map_values(|s: String| s@).contains(name),
            decreases self.triples@.len() - i,
        {
            let t = &self.triples[i];
            assert(triple_view(*t) == v[i as int]);
            let ghost before = out@.map_values(|s: String| s@);
            let pred = short_name(t.predicate.as_str());
            if str_eq(pred.as_str(), "type") {
                out.push(short_name(t.subject.as_str()));
            }
            proof {
                let vt = v.take(i + 1);
                let now = out@.map_values(|s: String| s@);
                assert forall|name: Seq<char>| is_typed(vt, name) <==> now.contains(name) by {
                    if is_typed(vt, name) {
                        let k = choose|k: int| 0 <= k < vt.len() && short_name_spec(vt[k].1) == "type"@ && #[trigger] short_name_spec(vt[k].0) == name;
                        if k < i {
                            assert(v.take(i as int)[k] == vt[k]);
                            assert(is_typed(v.take(i as int), name));
                            assert(before.contains(name));
                            let j = choose|j: int| 0 <= j < before.len() && before[j] == name;
                            assert(now[j] == name);
                        } else {
                            assert(now[now.len() - 1] == name);
                        }
                    }
                    if now.contains(name) {
                        let j = choose|j: int| 0 <= j < now.len() && now[j] == name;
                        if j < before.len() {
                            assert(before[j] == name);
                            assert(before.contains(name));
                            assert(is_typed(v.take(i as int), name));
                            let k = choose|k: int| 0 <= k < i && short_name_spec(v.take(i as int)[k].1) == "type"@
                                && #[trigger] short_name_spec(v.take(i as int)[k].0) == name;
                            assert(vt[k] == v.take(i as int)[k]);
                        } else {
                            assert(vt[i as int] == v[i as int]);
                            assert(short_name_spec(vt[i as int].0) == name);
                        }
                    }
                }
            }
            i = i + 1;
        }
        assert(v.take(v.len() as int) =~= v);
        out
    }

    /// Every relationship target that was never materialized with a type
    /// triple (`must_have_type`), in triple order.
    pub fn check_shapes(&self) -> (r: Vec<ShapeViolation>)
        ensures
            r@.len() == violations_spec(self.view()).len(),
            forall|i: int| 0 <= i < r@.len() ==> (#[trigger] r@[i]).subject@ == violations_spec(self.view())[i]
                && r@[i].rule@ == "must_have_type"@
                && r@[i].message@ == violation_message(r@[i].subject@),
    {
        let typed = self.typed_names();
        let ghost v = self.view();
        let ghost f = |t: TripleView| triple_violation(v, t);
        let mut out: Vec<ShapeViolation> = Vec::new();
        let mut i: usize = 0;
        while i < self.triples.len()
            invariant
                i <= self.triples@.len(),
                v == self.view(),
                f == (|t: TripleView| triple_violation(v, t)),
                forall|name: Seq<char>| is_typed(v, name) <==> typed@.map_values(|s: String| s@).contains(name),
                out@.map_values(|x: ShapeViolation| x.subject@) == crate::text::flat_map(v.take(i as int), f),
                forall|k: int| 0 <= k < out@.len() ==> (#[trigger] out@[k]).rule@ == "must_have_type"@
                    && out@[k].message@ == violation_message(out@[k].subject@),
            decreases self.triples@.len() - i,
        {
            proof { crate::text::lemma_flat_map_step(v, i as int, f); }
            let t = &self.triples[i];
            assert(triple_view(*t) == v[i as int]);
            let ghost before = out@;
            match &t.object {
                StoredObject::Node(o) => {
                    let name = short_name(o.as_str());
                    let known = contains_name(&typed, name.as_str());
                    if !known {
                        let mut message = copy_string(&name);
                        push_str(&mut message, " is the target of a relationship but was never materialized with a type triple");
                        out.push(ShapeViolation { subject: name, rule: "must_have_type", message });
                    }
                },
                StoredObject::Literal(_) => {},
            }
            assert(out@.map_values(|x: ShapeViolation| x.subject@)
                =~= before.map_values(|x: ShapeViolation| x.subject@) + f(v[i as int]));
            i = i + 1;
        }
        assert(v.take(v.len() as int) =~= v);
        assert forall|i: int| 0 <= i < out@.len() implies (#[trigger] out@[i]).subject@ == violations_spec(v)[i] by {
            assert(out@.map_values(|x: ShapeViolation| x.subject@)[i] == out@[i].subject@);
        }
        out
    }
}

impl GraphStore {
    /// [`GraphStore::insert_element_triples`] when every IRI it needs is
    /// valid; otherwise nothing is stored and `false` is returned.
    pub fn try_insert_element_triples(&mut self, project_id: &str, commit_id: &str, element: &Element) -> (r: bool)
        ensures
            r == element_iris_valid(*element),
            r ==> final(self).view() == insert_all(old(self).view(), element_triples(project_id@, commit_id@, *element)),
            !r ==> final(self).view() == old(self).view(),
    {
        let id_ok = check_iri(local_node(element.id()).as_str());
        let type_ok = check_iri(local_node("type").as_str());
        let name_ok = match element.name() {
            Some(_) => check_iri(local_node("name").as_str()),
            None => true,
        };
        let project_ok = check_iri(local_node("sourceProject").as_str());
        let commit_ok = check_iri(local_node("sourceCommit").as_str());
        if id_ok && type_ok && name_ok && project_ok && commit_ok {
            self.insert_element_triples(project_id, commit_id, element);
            true
        } else {
            false
        }
    }

    /// [`GraphStore::insert_relationship_triple`] when all three IRIs are
    /// valid; otherwise nothing is stored and `false` is returned.
    pub fn try_insert_relationship_triple(&mut self, subject_id: &str, relation_kind: &str, object_id: &str) -> (r: bool)
        ensures
            r == (iri_valid(local_iri(subject_id@)) && iri_valid(local_iri(relation_kind@)) && iri_valid(local_iri(object_id@))),
            r ==> final(self).view() == insert_one(old(self).view(), relationship_triple(subject_id@, relation_kind@, object_id@)),
            !r ==> final(self).view() == old(self).view(),
    {
        let a = check_iri(local_node(subject_id).as_str());
        let b = check_iri(local_node(relation_kind).as_str());
        let c = check_iri(local_node(object_id).as_str());
        if a && b && c {
            self.insert_relationship_triple(subject_id, relation_kind, object_id);
            true
        } else {
            false
        }
    }

    /// [`GraphStore::query`] when the subject's IRI is valid; `None`
    /// otherwise.
    pub fn try_query(&self, shape: QueryShape, subject: Option<&str>) -> (r: Option<Vec<(String, String, String)>>)
        ensures
            r is Some <==> (subject matches Some(s) ==> iri_valid(local_iri(s@))),
            r matches Some(rows) ==> rows@.map_values(|row: (String, String, String)| (row.0@, row.1@, row.2@)) == match subject {
                Some(s) => query_spec(self.view(), shape, local_iri(s@)),
                None => Seq::empty(),
            },
    {
        let ok = match subject {
            Some(s) => check_iri(local_node(s).as_str()),
            None => true,
        };
        if ok {
            Some(self.query(shape, subject))
        } else {
            None
        }
    }
}

} // verus!
