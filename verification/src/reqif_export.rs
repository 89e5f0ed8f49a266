//! Requirements graph to ReqIF: one string datatype, one spec object type
//! with a `Text` attribute, one spec relation type per relation kind, one
//! spec object per requirement (its title as long name, its text as the
//! `Text` value) and one spec relation per asserted relation between two
//! requirements. Relations that touch evidence, or that are only inferred or
//! proposed, are dropped: a relation to an object the bundle never writes
//! would not resolve on re-import. Attributes beyond title and text, and the
//! baseline's revision and provenance, have no ReqIF field and are not
//! carried.
use vstd::prelude::*;

use crate::reqif_adapter::RequirementRelationKind;
use crate::reqif_bundle::{
    bundle_v, data_type_v, spec_object_v, spec_relation_v, spec_type_v, AttributeData, AttributeDataV, AttributeDefinition,
    AttributeDefinitionV, AttributeValue, AttributeValueV, BundleV, ContentV, DataTypeDefinition, DataTypeV, DatatypeKind,
    ReqIfBundle, ReqIfContent, ReqIfHeader, SpecObject, SpecObjectV, SpecRelation, SpecRelationV, SpecType, SpecTypeKind,
    SpecTypeV,
};
use crate::requirements::{
    graph_v, requirement_v, AuthorityV, GraphV, RelationAuthority, RelationV, Requirement, RequirementGraph, RequirementRelation,
    RequirementV,
};
use crate::reqif_adapter::{
    attribute_definition_names, is_ascii, lowercase, lowered_provenance, normalize_key_spec, relation_kind_spec, snake_char,
    type_definition_keys, definition_keys, ReqIfAdapterConfig,
};
use crate::text::{ascii_lower, flat_map, lemma_flat_map_step, lemma_map_chars_identity, str_eq};

verus! {

/// Why a graph could not be written as ReqIF XML: the serializer's
/// message.
#[derive(Debug, Clone, PartialEq, Eq)]
pub enum ReqIfExportError {
    Unparse(String),
}

/// The ReqIF 1.0 XML namespace.
pub const REQIF_NAMESPACE: &'static str = "http://www.omg.org/spec/ReqIF/20110401/reqif.xsd";

pub const DATA_TYPE_STRING_ID: &'static str = "DT-STRING";

pub const SPEC_OBJECT_TYPE_ID: &'static str = "ST-REQUIREMENT";

pub const TEXT_ATTR_DEF_ID: &'static str = "AD-TEXT";

/// Every relation kind, in declaration order.
pub open spec fn all_relation_kinds() -> Seq<RequirementRelationKind> {
    seq![
        RequirementRelationKind::Contains,
        RequirementRelationKind::Derives,
        RequirementRelationKind::Refines,
        RequirementRelationKind::Requires,
        RequirementRelationKind::Satisfies,
        RequirementRelationKind::Verifies,
        RequirementRelationKind::Implements,
        RequirementRelationKind::Traces,
        RequirementRelationKind::AllocatedTo,
        RequirementRelationKind::Precedes,
    ]
}

/// The spec-relation-type identifier of a relation kind.
pub open spec fn relation_type_id_spec(k: RequirementRelationKind) -> Seq<char> {
    match k {
        RequirementRelationKind::Contains => "ST-CONTAINS"@,
        RequirementRelationKind::Derives => "ST-DERIVES"@,
        RequirementRelationKind::Refines => "ST-REFINES"@,
        RequirementRelationKind::Requires => "ST-REQUIRES"@,
        RequirementRelationKind::Satisfies => "ST-SATISFIES"@,
        RequirementRelationKind::Verifies => "ST-VERIFIES"@,
        RequirementRelationKind::Implements => "ST-IMPLEMENTS"@,
        RequirementRelationKind::Traces => "ST-TRACES"@,
        RequirementRelationKind::AllocatedTo => "ST-ALLOCATED-TO"@,
        RequirementRelationKind::Precedes => "ST-PRECEDES"@,
    }
}

/// The spec-relation-type long name of a relation kind: a name the
/// adapter maps back to the same kind.
pub open spec fn relation_long_name_spec(k: RequirementRelationKind) -> Seq<char> {
    match k {
        RequirementRelationKind::Contains => "contains"@,
        RequirementRelationKind::Derives => "derives"@,
        RequirementRelationKind::Refines => "refines"@,
        RequirementRelationKind::Requires => "requires"@,
        RequirementRelationKind::Satisfies => "satisfies"@,
        RequirementRelationKind::Verifies => "verifies"@,
        RequirementRelationKind::Implements => "implements"@,
        RequirementRelationKind::Traces => "traces"@,
        RequirementRelationKind::AllocatedTo => "allocated_to"@,
        RequirementRelationKind::Precedes => "precedes"@,
    }
}

pub open spec fn string_data_type() -> DataTypeV {
    DataTypeV { kind: DatatypeKind::String, identifier: DATA_TYPE_STRING_ID@, long_name: None }
}

pub open spec fn text_definition() -> AttributeDefinitionV {
    AttributeDefinitionV {
        kind: DatatypeKind::String,
        identifier: TEXT_ATTR_DEF_ID@,
        long_name: Some("Text"@),
        datatype: DATA_TYPE_STRING_ID@,
    }
}

pub open spec fn object_type() -> SpecTypeV {
    SpecTypeV {
        kind: SpecTypeKind::SpecObject,
        identifier: SPEC_OBJECT_TYPE_ID@,
        long_name: Some("Requirement"@),
        attributes: seq![text_definition()],
    }
}

pub open spec fn relation_spec_type(k: RequirementRelationKind) -> SpecTypeV {
    SpecTypeV {
        kind: SpecTypeKind::SpecRelation,
        identifier: relation_type_id_spec(k),
        long_name: Some(relation_long_name_spec(k)),
        attributes: Seq::empty(),
    }
}

pub open spec fn relation_types() -> Seq<SpecTypeV> {
    all_relation_kinds().map_values(|k: RequirementRelationKind| relation_spec_type(k))
}

/// A requirement as a spec object: its title as long name, its text as
/// the value of the text attribute `text_def`.
pub open spec fn exported_object(r: RequirementV, text_def: Seq<char>) -> SpecObjectV {
    SpecObjectV {
        identifier: r.id,
        long_name: Some(r.title),
        spec_type: SPEC_OBJECT_TYPE_ID@,
        values: seq![AttributeValueV { definition: text_def, data: AttributeDataV::String(r.text) }],
    }
}

pub open spec fn is_requirement_id(g: GraphV, id: Seq<char>) -> bool {
    exists|k: int| 0 <= k < g.requirements.len() && #[trigger] g.requirements[k].id == id
}

/// An asserted relation between two requirements.
pub open spec fn exportable(g: GraphV, r: RelationV) -> bool {
    &&& r.authority is Asserted
    &&& is_requirement_id(g, r.source)
    &&& is_requirement_id(g, r.target)
}

pub open spec fn exported_relation(r: RelationV) -> SpecRelationV {
    SpecRelationV {
        identifier: r.id,
        long_name: None,
        relation_type: relation_type_id_spec(r.kind),
        source: r.source,
        target: r.target,
    }
}

/// The asserted relations as spec relations, in order.
pub open spec fn asserted_spec_relations(rs: Seq<RelationV>) -> Seq<SpecRelationV> {
    flat_map(rs, |r: RelationV| if r.authority is Asserted { seq![exported_relation(r)] } else { Seq::empty() })
}

/// The asserted relations between two requirements as spec relations.
pub open spec fn exported_relations(g: GraphV) -> Seq<SpecRelationV> {
    flat_map(
        asserted_spec_relations(g.relations),
        |s: SpecRelationV| if is_requirement_id(g, s.source) && is_requirement_id(g, s.target) { seq![s] } else { Seq::empty() },
    )
}

/// The bundle a graph exports to.
pub open spec fn exported_bundle(g: GraphV) -> BundleV {
    BundleV {
        encoding: Some("UTF-8"@),
        namespace: Some(REQIF_NAMESPACE@),
        header: Some(g.baseline.id),
        content: Some(ContentV {
            data_types: seq![string_data_type()],
            spec_types: seq![object_type()] + relation_types(),
            spec_objects: g.requirements.map_values(|r: RequirementV| exported_object(r, TEXT_ATTR_DEF_ID@)),
            spec_relations: exported_relations(g),
        }),
    }
}

/// The spec-relation-type identifier of a relation kind.
pub fn relation_type_id(kind: RequirementRelationKind) -> (r: &'static str)
    ensures
        r@ == relation_type_id_spec(kind),
{
    match kind {
        RequirementRelationKind::Contains => "ST-CONTAINS",
        RequirementRelationKind::Derives => "ST-DERIVES",
        RequirementRelationKind::Refines => "ST-REFINES",
        RequirementRelationKind::Requires => "ST-REQUIRES",
        RequirementRelationKind::Satisfies => "ST-SATISFIES",
        RequirementRelationKind::Verifies => "ST-VERIFIES",
        RequirementRelationKind::Implements => "ST-IMPLEMENTS",
        RequirementRelationKind::Traces => "ST-TRACES",
        RequirementRelationKind::AllocatedTo => "ST-ALLOCATED-TO",
        RequirementRelationKind::Precedes => "ST-PRECEDES",
    }
}

/// The spec-relation-type long name of a relation kind.
pub fn relation_long_name(kind: RequirementRelationKind) -> (r: &'static str)
    ensures
        r@ == relation_long_name_spec(kind),
{
    match kind {
        RequirementRelationKind::Contains => "contains",
        RequirementRelationKind::Derives => "derives",
        RequirementRelationKind::Refines => "refines",
        RequirementRelationKind::Requires => "requires",
        RequirementRelationKind::Satisfies => "satisfies",
        RequirementRelationKind::Verifies => "verifies",
        RequirementRelationKind::Implements => "implements",
        RequirementRelationKind::Traces => "traces",
        RequirementRelationKind::AllocatedTo => "allocated_to",
        RequirementRelationKind::Precedes => "precedes",
    }
}

/// The fixed types every exported bundle declares.
pub struct TypeLayer {
    pub data_type: DataTypeDefinition,
    pub text_attr_def_id: String,
    pub spec_object_type: SpecType,
    pub relation_types: Vec<SpecType>,
}

fn relation_spec_type_exec(kind: RequirementRelationKind) -> (r: SpecType)
    ensures
        spec_type_v(r) == relation_spec_type(kind),
{
    let r = SpecType {
        kind: SpecTypeKind::SpecRelation,
        identifier: relation_type_id(kind).to_owned(),
        long_name: Some(relation_long_name(kind).to_owned()),
        attributes: Vec::new(),
    };
    assert(spec_type_v(r).attributes =~= Seq::<AttributeDefinitionV>::empty());
    r
}

/// The string datatype, the `Text` attribute, the requirement object type
/// and one relation type per kind (in declaration order).
pub fn type_layer() -> (r: TypeLayer)
    ensures
        data_type_v(r.data_type) == string_data_type(),
        r.text_attr_def_id@ == TEXT_ATTR_DEF_ID@,
        spec_type_v(r.spec_object_type) == object_type(),
        r.relation_types@.map_values(|t: SpecType| spec_type_v(t)) == relation_types(),
{
    let data_type = DataTypeDefinition {
        kind: DatatypeKind::String,
        identifier: DATA_TYPE_STRING_ID.to_owned(),
        long_name: None,
    };
    let text_def = AttributeDefinition {
        kind: DatatypeKind::String,
        identifier: TEXT_ATTR_DEF_ID.to_owned(),
        long_name: Some("Text".to_owned()),
        datatype: DATA_TYPE_STRING_ID.to_owned(),
    };
    let spec_object_type = SpecType {
        kind: SpecTypeKind::SpecObject,
        identifier: SPEC_OBJECT_TYPE_ID.to_owned(),
        long_name: Some("Requirement".to_owned()),
        attributes: vec![text_def],
    };
    assert(spec_type_v(spec_object_type).attributes =~= seq![text_definition()]);
    let kinds = [
        RequirementRelationKind::Contains,
        RequirementRelationKind::Derives,
        RequirementRelationKind::Refines,
        RequirementRelationKind::Requires,
        RequirementRelationKind::Satisfies,
        RequirementRelationKind::Verifies,
        RequirementRelationKind::Implements,
        RequirementRelationKind::Traces,
        RequirementRelationKind::AllocatedTo,
        RequirementRelationKind::Precedes,
    ];
    assert(kinds@ =~= all_relation_kinds());
    let mut rel_types: Vec<SpecType> = Vec::new();
    let mut i: usize = 0;
    while i < 10
        invariant
            i <= 10,
            kinds@ == all_relation_kinds(),
            rel_types@.map_values(|t: SpecType| spec_type_v(t)) == relation_types().take(i as int),
        decreases 10 - i,
    {
        let t = relation_spec_type_exec(kinds[i]);
        let ghost before = rel_types@.map_values(|t: SpecType| spec_type_v(t));
        rel_types.push(t);
        proof {
            assert(relation_types()[i as int] == relation_spec_type(kinds@[i as int]));
            assert(relation_types().take(i + 1) =~= relation_types().take(i as int).push(relation_types()[i as int]));
            assert(rel_types@.map_values(|t: SpecType| spec_type_v(t)) =~= before.push(spec_type_v(t)));
        }
        i = i + 1;
    }
    assert(relation_types().take(10) =~= relation_types());
    TypeLayer { data_type, text_attr_def_id: TEXT_ATTR_DEF_ID.to_owned(), spec_object_type, relation_types: rel_types }
}

/// A requirement as a spec object (see [`exported_object`]).
pub fn requirement_to_spec_object(req: &Requirement, text_attr_def_id: &str) -> (r: SpecObject)
    ensures
        spec_object_v(r) == exported_object(requirement_v(*req), text_attr_def_id@),
{
    let r = SpecObject {
        identifier: req.id.clone(),
        long_name: Some(req.title.clone()),
        spec_type: SPEC_OBJECT_TYPE_ID.to_owned(),
        values: vec![AttributeValue { definition: text_attr_def_id.to_owned(), data: AttributeData::String(req.text.clone()) }],
    };
    assert(spec_object_v(r).values =~= exported_object(requirement_v(*req), text_attr_def_id@).values);
    r
}

/// The asserted relations as spec relations, in order; inferred and
/// proposed relations are left out.
pub fn asserted_relations_to_spec_relations(relations: &[RequirementRelation]) -> (r: Vec<SpecRelation>)
    ensures
        r@.map_values(|s: SpecRelation| spec_relation_v(s))
            == asserted_spec_relations(relations@.map_values(|x: RequirementRelation| crate::requirements::relation_v(x))),
{
    let ghost rv = relations@.map_values(|x: RequirementRelation| crate::requirements::relation_v(x));
    let ghost f = |r: RelationV| if r.authority is Asserted { seq![exported_relation(r)] } else { Seq::<SpecRelationV>::empty() };
    let mut out: Vec<SpecRelation> = Vec::new();
    let mut i: usize = 0;
    assert(flat_map(rv.take(0), f) =~= Seq::<SpecRelationV>::empty());
    while i < relations.len()
        invariant
            i <= relations@.len(),
            rv == relations@.map_values(|x: RequirementRelation| crate::requirements::relation_v(x)),
            f == (|r: RelationV| if r.authority is Asserted { seq![exported_relation(r)] } else { Seq::<SpecRelationV>::empty() }),
            out@.map_values(|s: SpecRelation| spec_relation_v(s)) == flat_map(rv.take(i as int), f),
        decreases relations@.len() - i,
    {
        proof { lemma_flat_map_step(rv, i as int, f); }
        let r = &relations[i];
        assert(rv[i as int] == crate::requirements::relation_v(*r));
        let ghost before = out@.map_values(|s: SpecRelation| spec_relation_v(s));
        match &r.authority {
            RelationAuthority::Asserted => {
                let s = SpecRelation {
                    identifier: r.id.clone(),
                    long_name: None,
                    relation_type: relation_type_id(r.kind).to_owned(),
                    source: r.source.clone(),
                    target: r.target.clone(),
                };
                out.push(s);
                assert(out@.map_values(|s: SpecRelation| spec_relation_v(s)) =~= before + f(rv[i as int]));
            },
            _ => {
                assert(before + f(rv[i as int]) =~= before);
            },
        }
        i = i + 1;
    }
    assert(rv.take(rv.len() as int) =~= rv);
    out
}

fn copy_opt(o: &Option<String>) -> (r: Option<String>)
    ensures
        crate::reqif_bundle::opt_v(r) == crate::reqif_bundle::opt_v(*o),
{
    match o {
        Some(x) => Some(x.clone()),
        None => None,
    }
}

fn is_requirement_id_exec(graph: &RequirementGraph, id: &str) -> (r: bool)
    ensures
        r == is_requirement_id(graph_v(*graph), id@),
{
    let ghost g = graph_v(*graph);
    let mut k: usize = 0;
    while k < graph.requirements.len()
        invariant
            k <= graph.requirements@.len(),
            g == graph_v(*graph),
            forall|j: int| 0 <= j < k ==> (#[trigger] g.requirements[j]).id != id@,
        decreases graph.requirements@.len() - k,
    {
        if str_eq(graph.requirements[k].id.as_str(), id) {
            assert(g.requirements[k as int].id == id@);
            return true;
        }
        k = k + 1;
    }
    false
}

/// The bundle a graph exports to (see [`exported_bundle`]).
pub fn export_bundle(graph: &RequirementGraph) -> (r: Result<ReqIfBundle, ReqIfExportError>)
    ensures
        r matches Ok(b) && bundle_v(b) == exported_bundle(graph_v(*graph)),
{
    let ghost g = graph_v(*graph);
    let layer = type_layer();
    let mut spec_objects: Vec<SpecObject> = Vec::new();
    let mut i: usize = 0;
    while i < graph.requirements.len()
        invariant
            i <= graph.requirements@.len(),
            g == graph_v(*graph),
            layer.text_attr_def_id@ == TEXT_ATTR_DEF_ID@,
            spec_objects@.map_values(|o: SpecObject| spec_object_v(o))
                == g.requirements.take(i as int).map_values(|r: RequirementV| exported_object(r, TEXT_ATTR_DEF_ID@)),
        decreases graph.requirements@.len() - i,
    {
        let o = requirement_to_spec_object(&graph.requirements[i], layer.text_attr_def_id.as_str());
        let ghost before = spec_objects@.map_values(|o: SpecObject| spec_object_v(o));
        spec_objects.push(o);
        proof {
            assert(g.requirements[i as int] == requirement_v(graph.requirements@[i as int]));
            assert(g.requirements.take(i + 1) =~= g.requirements.take(i as int).push(g.requirements[i as int]));
            assert(spec_objects@.map_values(|o: SpecObject| spec_object_v(o)) =~= before.push(spec_object_v(o)));
        }
        i = i + 1;
    }
    assert(g.requirements.take(g.requirements.len() as int) =~= g.requirements);
    let asserted = asserted_relations_to_spec_relations(graph.relations.as_slice());
    let ghost av = asserted@.map_values(|s: SpecRelation| spec_relation_v(s));
    let ghost f = |s: SpecRelationV| if is_requirement_id(g, s.source) && is_requirement_id(g, s.target) { seq![s] } else { Seq::<SpecRelationV>::empty() };
    let mut spec_relations: Vec<SpecRelation> = Vec::new();
    let mut i: usize = 0;
    assert(flat_map(av.take(0), f) =~= Seq::<SpecRelationV>::empty());
    while i < asserted.len()
        invariant
            i <= asserted@.len(),
            g == graph_v(*graph),
            av == asserted@.map_values(|s: SpecRelation| spec_relation_v(s)),
            f == (|s: SpecRelationV| if is_requirement_id(g, s.source) && is_requirement_id(g, s.target) { seq![s] } else { Seq::<SpecRelationV>::empty() }),
            spec_relations@.map_values(|s: SpecRelation| spec_relation_v(s)) == flat_map(av.take(i as int), f),
        decreases asserted@.len() - i,
    {
        proof { lemma_flat_map_step(av, i as int, f); }
        let s = &asserted[i];
        assert(av[i as int] == spec_relation_v(*s));
        let ghost before = spec_relations@.map_values(|s: SpecRelation| spec_relation_v(s));
        if is_requirement_id_exec(graph, s.source.as_str()) && is_requirement_id_exec(graph, s.target.as_str()) {
            let c = SpecRelation {
                identifier: s.identifier.clone(),
                long_name: copy_opt(&s.long_name),
                relation_type: s.relation_type.clone(),
                source: s.source.clone(),
                target: s.target.clone(),
            };
            spec_relations.push(c);
            assert(spec_relations@.map_values(|s: SpecRelation| spec_relation_v(s)) =~= before + f(av[i as int]));
        } else {
            assert(before + f(av[i as int]) =~= before);
        }
        i = i + 1;
    }
    assert(av.take(av.len() as int) =~= av);
    let mut spec_types: Vec<SpecType> = vec![layer.spec_object_type];
    let mut rel_types = layer.relation_types;
    let ghost rt = rel_types@.map_values(|t: SpecType| spec_type_v(t));
    spec_types.append(&mut rel_types);
    assert(spec_types@.map_values(|t: SpecType| spec_type_v(t)) =~= seq![object_type()] + rt);
    let content = ReqIfContent {
        data_types: vec![layer.data_type],
        spec_types,
        spec_objects,
        spec_relations,
    };
    let bundle = ReqIfBundle {
        encoding: Some("UTF-8".to_owned()),
        namespace: Some(REQIF_NAMESPACE.to_owned()),
        header: Some(ReqIfHeader { identifier: graph.baseline.id.clone() }),
        content: Some(content),
    };
    proof {
        let c = crate::reqif_bundle::content_v(content);
        assert(c.data_types =~= seq![string_data_type()]);
        assert(c.spec_types == seq![object_type()] + relation_types());
        assert(bundle_v(bundle) == exported_bundle(g));
    }
    Ok(bundle)
}

// ---------------------------------------------------------------------
// Export and re-import
// ---------------------------------------------------------------------

/// Only lowercase ASCII letters and underscores.
pub open spec fn plain_key(s: Seq<char>) -> bool {
    forall|i: int| 0 <= i < s.len() ==> ('a' <= #[trigger] s[i] <= 'z' || s[i] == '_')
}

proof fn lemma_normalize_plain(s: Seq<char>)
    requires
        plain_key(s),
    ensures
        normalize_key_spec(s) == s,
{
    assert(is_ascii(s)) by {
        assert forall|i: int| 0 <= i < s.len() implies (s[i] as u32) < 128 by {
            assert('a' <= s[i] <= 'z' || s[i] == '_');
        }
    }
    assert(ascii_lower(s) =~= s);
    assert(lowercase(s) == s);
    assert forall|c: char| s.contains(c) implies #[trigger] snake_char(c) == seq![c] by {
        let k = choose|k: int| 0 <= k < s.len() && s[k] == c;
        assert('a' <= s[k] <= 'z' || s[k] == '_');
    }
    lemma_map_chars_identity(s, |c: char| snake_char(c));
}

proof fn lemma_long_names_plain(k: RequirementRelationKind)
    ensures
        plain_key(relation_long_name_spec(k)),
{
    reveal_strlit("contains");
    reveal_strlit("derives");
    reveal_strlit("refines");
    reveal_strlit("requires");
    reveal_strlit("satisfies");
    reveal_strlit("verifies");
    reveal_strlit("implements");
    reveal_strlit("traces");
    reveal_strlit("allocated_to");
    reveal_strlit("precedes");
}

/// Every relation kind's long name, normalized as the adapter normalizes
/// relation-type names, maps back to that kind.
pub proof fn law_relation_long_names_round_trip(k: RequirementRelationKind)
    ensures
        relation_kind_spec(normalize_key_spec(relation_long_name_spec(k))) == Some(k),
{
    let n = relation_long_name_spec(k);
    lemma_long_names_plain(k);
    lemma_normalize_plain(n);
    assert(normalize_key_spec(n) == n);
    reveal_strlit("contains");
    reveal_strlit("derives");
    reveal_strlit("derive");
    reveal_strlit("derived_from");
    reveal_strlit("refines");
    reveal_strlit("requires");
    reveal_strlit("satisfies");
    reveal_strlit("verifies");
    reveal_strlit("implements");
    reveal_strlit("traces");
    reveal_strlit("allocated_to");
    reveal_strlit("allocatedto");
    reveal_strlit("precedes");
    assert(n[0] != "contains"@[0] || n.len() != 8 || k == RequirementRelationKind::Contains);
    assert(n[0] != "derives"@[0] || n.len() != 7 || k == RequirementRelationKind::Derives);
    assert(n[0] != "requires"@[0] || n.len() != 8 || k == RequirementRelationKind::Requires);
    assert(n[0] != "verifies"@[0] || n.len() != 8 || k == RequirementRelationKind::Verifies);
    assert(n[0] != "derived_from"@[0] || n.len() != 12 || k == RequirementRelationKind::Derives);
    assert(n[0] != "derive"@[0] || n.len() != 6 || k == RequirementRelationKind::Derives);
    assert(relation_kind_spec(n) == Some(k));
}

/// Some spec object has identifier `id`.
pub open spec fn names_object(objects: Seq<SpecObjectV>, id: Seq<char>) -> bool {
    exists|j: int| 0 <= j < objects.len() && #[trigger] objects[j].identifier == id
}

/// Every exported relation runs between two exported objects: relations
/// touching evidence are dropped, never left dangling.
pub proof fn law_exported_relations_resolve(g: GraphV)
    ensures
        ({
            let c = exported_bundle(g).content.unwrap();
            forall|i: int| 0 <= i < c.spec_relations.len() ==> {
                &&& names_object(c.spec_objects, (#[trigger] c.spec_relations[i]).source)
                &&& names_object(c.spec_objects, c.spec_relations[i].target)
            }
        }),
{
    let c = exported_bundle(g).content.unwrap();
    let f = |r: RelationV| if exportable(g, r) { seq![exported_relation(r)] } else { Seq::<SpecRelationV>::empty() };
    lemma_exported_relations_one_pass(g);
    lemma_flat_map_members(g.relations, f);
    assert forall|i: int| 0 <= i < c.spec_relations.len() implies {
        &&& names_object(c.spec_objects, (#[trigger] c.spec_relations[i]).source)
        &&& names_object(c.spec_objects, c.spec_relations[i].target)
    } by {
        let s = c.spec_relations[i];
        assert(in_image(g.relations, f, s));
        let (k, m) = choose|k: int, m: int| 0 <= k < g.relations.len() && 0 <= m < f(g.relations[k]).len() && #[trigger] f(g.relations[k])[m] == s;
        let r = g.relations[k];
        assert(exportable(g, r));
        let a = choose|a: int| 0 <= a < g.requirements.len() && #[trigger] g.requirements[a].id == r.source;
        let b = choose|b: int| 0 <= b < g.requirements.len() && #[trigger] g.requirements[b].id == r.target;
        assert(c.spec_objects[a].identifier == s.source);
        assert(c.spec_objects[b].identifier == s.target);
    }
}

/// `x` is in the image of some element of `s`.
pub open spec fn in_image<T, U>(s: Seq<T>, f: spec_fn(T) -> Seq<U>, x: U) -> bool {
    exists|k: int, m: int| 0 <= k < s.len() && 0 <= m < f(s[k]).len() && #[trigger] f(s[k])[m] == x
}

/// Every element of a `flat_map` comes from the image of some element.
proof fn lemma_flat_map_members<T, U>(s: Seq<T>, f: spec_fn(T) -> Seq<U>)
    ensures
        forall|i: int| 0 <= i < flat_map(s, f).len() ==> in_image(s, f, #[trigger] flat_map(s, f)[i]),
    decreases s.len(),
{
    if s.len() > 0 {
        let init = s.drop_last();
        lemma_flat_map_members(init, f);
        let prev = flat_map(init, f);
        let last = f(s[s.len() - 1]);
        assert(flat_map(s, f) == prev + last);
        assert forall|i: int| 0 <= i < flat_map(s, f).len() implies in_image(s, f, #[trigger] flat_map(s, f)[i]) by {
            if i < prev.len() {
                assert(flat_map(s, f)[i] == prev[i]);
                assert(in_image(init, f, prev[i]));
                let (k, m) = choose|k: int, m: int| 0 <= k < init.len() && 0 <= m < f(init[k]).len() && #[trigger] f(init[k])[m] == prev[i];
                assert(s[k] == init[k]);
                assert(f(s[k])[m] == flat_map(s, f)[i]);
            } else {
                let m = i - prev.len();
                assert(flat_map(s, f)[i] == last[m]);
                assert(f(s[s.len() - 1])[m] == flat_map(s, f)[i]);
            }
        }
    }
}

/// A relation as it comes back from export and re-import: asserted, with
/// the re-import's provenance.
pub open spec fn reimported(r: RelationV, cfg: ReqIfAdapterConfig) -> RelationV {
    RelationV {
        id: r.id,
        source: r.source,
        target: r.target,
        kind: r.kind,
        authority: AuthorityV::Asserted,
        provenance: lowered_provenance(cfg),
    }
}

proof fn lemma_flat_map_append<T, U>(a: Seq<T>, b: Seq<T>, f: spec_fn(T) -> Seq<U>)
    ensures
        flat_map(a + b, f) == flat_map(a, f) + flat_map(b, f),
    decreases b.len(),
{
    if b.len() == 0 {
        assert(a + b =~= a);
        assert(flat_map(a, f) + flat_map(b, f) =~= flat_map(a, f));
    } else {
        lemma_flat_map_append(a, b.drop_last(), f);
        assert((a + b).drop_last() =~= a + b.drop_last());
        assert((a + b).last() == b.last());
        assert(flat_map(a, f) + flat_map(b, f) =~= flat_map(a, f) + flat_map(b.drop_last(), f) + f(b.last()));
    }
}

proof fn lemma_flat_map_single<T, U>(x: T, f: spec_fn(T) -> Seq<U>)
    ensures
        flat_map(seq![x], f) == f(x),
{
    assert(seq![x].drop_last() =~= Seq::<T>::empty());
    assert(flat_map(Seq::<T>::empty(), f) + f(x) =~= f(x));
}

proof fn lemma_flat_map_nothing<T, U>(s: Seq<T>, f: spec_fn(T) -> Seq<U>)
    requires
        forall|i: int| 0 <= i < s.len() ==> (#[trigger] f(s[i])).len() == 0,
    ensures
        flat_map(s, f) == Seq::<U>::empty(),
    decreases s.len(),
{
    if s.len() > 0 {
        assert forall|i: int| 0 <= i < s.drop_last().len() implies (#[trigger] f(s.drop_last()[i])).len() == 0 by {
            assert(s.drop_last()[i] == s[i]);
        }
        lemma_flat_map_nothing(s.drop_last(), f);
        assert(f(s[s.len() - 1]).len() == 0);
        assert(flat_map(s, f) =~= Seq::<U>::empty());
    }
}

proof fn lemma_flat_map_map<T, U, V>(s: Seq<T>, f: spec_fn(T) -> Seq<U>, h: spec_fn(U) -> V, g: spec_fn(T) -> Seq<V>)
    requires
        forall|i: int| 0 <= i < s.len() ==> (#[trigger] f(s[i])).map_values(h) == g(s[i]),
    ensures
        flat_map(s, f).map_values(h) == flat_map(s, g),
    decreases s.len(),
{
    if s.len() == 0 {
        assert(flat_map(s, f).map_values(h) =~= Seq::<V>::empty());
    } else {
        let init = s.drop_last();
        assert forall|i: int| 0 <= i < init.len() implies (#[trigger] f(init[i])).map_values(h) == g(init[i]) by {
            assert(init[i] == s[i]);
        }
        lemma_flat_map_map(init, f, h, g);
        assert(f(s[s.len() - 1]).map_values(h) == g(s[s.len() - 1]));
        assert(flat_map(s, f).map_values(h) =~= flat_map(init, f).map_values(h) + f(s.last()).map_values(h));
    }
}

/// The attribute-definition keys of the exported types: only `Text`.
proof fn lemma_exported_names()
    ensures
        attribute_definition_names(seq![object_type()] + relation_types()) == seq![(TEXT_ATTR_DEF_ID@, "text"@)],
{
    let f = |t: SpecTypeV| type_definition_keys(t);
    lemma_flat_map_append(seq![object_type()], relation_types(), f);
    assert forall|i: int| 0 <= i < relation_types().len() implies (#[trigger] f(relation_types()[i])).len() == 0 by {
        assert(relation_types()[i].attributes == Seq::<AttributeDefinitionV>::empty());
        assert(relation_types()[i].attributes =~= Seq::<AttributeDefinitionV>::empty());
        assert(flat_map(Seq::<AttributeDefinitionV>::empty(), |d: AttributeDefinitionV| definition_keys(d)) =~= Seq::<(Seq<char>, Seq<char>)>::empty());
    }
    lemma_flat_map_nothing(relation_types(), f);
    lemma_flat_map_single(object_type(), f);
    lemma_flat_map_single(text_definition(), |d: AttributeDefinitionV| definition_keys(d));
    reveal_strlit("Text");
    reveal_strlit("text");
    assert(ascii_lower("Text"@) =~= "text"@);
    assert(is_ascii("Text"@));
    assert(plain_key("text"@));
    lemma_normalize_plain("text"@);
    assert(lowercase("Text"@) == lowercase("text"@)) by {
        assert(is_ascii("text"@));
        assert(ascii_lower("text"@) =~= "text"@);
    }
    assert(normalize_key_spec("Text"@) == "text"@);
    assert(f(object_type()) == seq![(TEXT_ATTR_DEF_ID@, "text"@)]);
    assert(seq![(TEXT_ATTR_DEF_ID@, "text"@)] + Seq::<(Seq<char>, Seq<char>)>::empty() =~= seq![(TEXT_ATTR_DEF_ID@, "text"@)]);
}

pub open spec fn kind_index(k: RequirementRelationKind) -> int {
    match k {
        RequirementRelationKind::Contains => 0,
        RequirementRelationKind::Derives => 1,
        RequirementRelationKind::Refines => 2,
        RequirementRelationKind::Requires => 3,
        RequirementRelationKind::Satisfies => 4,
        RequirementRelationKind::Verifies => 5,
        RequirementRelationKind::Implements => 6,
        RequirementRelationKind::Traces => 7,
        RequirementRelationKind::AllocatedTo => 8,
        RequirementRelationKind::Precedes => 9,
    }
}

proof fn lemma_type_ids_distinct(k1: RequirementRelationKind, k2: RequirementRelationKind)
    ensures
        k1 != k2 ==> relation_type_id_spec(k1) != relation_type_id_spec(k2),
        relation_type_id_spec(k1) != SPEC_OBJECT_TYPE_ID@,
{
    reveal_strlit("ST-CONTAINS");
    reveal_strlit("ST-DERIVES");
    reveal_strlit("ST-REFINES");
    reveal_strlit("ST-REQUIRES");
    reveal_strlit("ST-SATISFIES");
    reveal_strlit("ST-VERIFIES");
    reveal_strlit("ST-IMPLEMENTS");
    reveal_strlit("ST-TRACES");
    reveal_strlit("ST-ALLOCATED-TO");
    reveal_strlit("ST-PRECEDES");
    reveal_strlit("ST-REQUIREMENT");
    let a = relation_type_id_spec(k1);
    let b = relation_type_id_spec(k2);
    assert(k1 == k2 || a.len() != b.len() || a[3] != b[3]);
    assert(a.len() != SPEC_OBJECT_TYPE_ID@.len());
}

proof fn lemma_lookup_unique(pairs: Seq<(Seq<char>, Seq<char>)>, id: Seq<char>, j: int)
    requires
        0 <= j < pairs.len(),
        pairs[j].0 == id,
        forall|i: int| 0 <= i < pairs.len() && i != j ==> (#[trigger] pairs[i]).0 != id,
    ensures
        crate::reqif_adapter::lookup(pairs, id) == Some(pairs[j].1),
    decreases pairs.len(),
{
    if j < pairs.len() - 1 {
        let init = pairs.drop_last();
        assert(pairs[pairs.len() - 1].0 != id);
        assert forall|i: int| 0 <= i < init.len() && i != j implies (#[trigger] init[i]).0 != id by {
            assert(init[i] == pairs[i]);
        }
        lemma_lookup_unique(init, id, j);
    }
}

/// The exported relation type of each kind is found under its identifier
/// with its long name.
proof fn lemma_exported_type_names(k: RequirementRelationKind)
    ensures
        crate::reqif_adapter::lookup(crate::reqif_adapter::spec_type_names(seq![object_type()] + relation_types()), relation_type_id_spec(k))
            == Some(relation_long_name_spec(k)),
{
    let types = seq![object_type()] + relation_types();
    let tn = crate::reqif_adapter::spec_type_names(types);
    let j = kind_index(k) + 1;
    assert(all_relation_kinds()[kind_index(k)] == k);
    assert(types[j] == relation_spec_type(k));
    lemma_long_names_plain(k);
    lemma_normalize_plain(relation_long_name_spec(k));
    assert(tn[j] == (relation_type_id_spec(k), relation_long_name_spec(k)));
    assert forall|i: int| 0 <= i < tn.len() && i != j implies (#[trigger] tn[i]).0 != relation_type_id_spec(k) by {
        if i == 0 {
            lemma_type_ids_distinct(k, k);
        } else {
            let k2 = all_relation_kinds()[i - 1];
            assert(types[i] == relation_spec_type(k2));
            assert(k2 != k);
            lemma_type_ids_distinct(k2, k);
        }
    }
    lemma_lookup_unique(tn, relation_type_id_spec(k), j);
}

/// Exporting a graph and lowering the bundle again gives back its
/// requirements, in order, with their ids and texts and their titles (an
/// empty title comes back as the id), and its asserted relations between
/// requirements, in order and of the same kinds; the baseline keeps its id
/// unless that is empty.
pub proof fn law_export_then_lower_round_trips(g: GraphV, cfg: ReqIfAdapterConfig, h: GraphV)
    requires
        crate::reqif_adapter::lowers_to(exported_bundle(g), cfg, h),
    ensures
        h.baseline.id == (if g.baseline.id.len() > 0 { g.baseline.id } else { cfg.source_uri@ }),
        h.requirements.len() == g.requirements.len(),
        forall|i: int| 0 <= i < g.requirements.len() ==> {
            &&& (#[trigger] h.requirements[i]).id == g.requirements[i].id
            &&& h.requirements[i].text == g.requirements[i].text
            &&& h.requirements[i].title == (if g.requirements[i].title.len() > 0 {
                g.requirements[i].title
            } else {
                g.requirements[i].id
            })
        },
        h.relations == flat_map(g.relations, |r: RelationV| if exportable(g, r) { seq![reimported(r, cfg)] } else { Seq::<RelationV>::empty() }),
{
    let b = exported_bundle(g);
    let c = b.content.unwrap();
    let names = attribute_definition_names(c.spec_types);
    lemma_exported_names();
    assert(names == seq![(TEXT_ATTR_DEF_ID@, "text"@)]);
    reveal_strlit("text");
    reveal_strlit("name");
    reveal_strlit("title");
    reveal_strlit("key");
    reveal_strlit("description");
    assert forall|i: int| 0 <= i < g.requirements.len() implies {
        &&& (#[trigger] h.requirements[i]).id == g.requirements[i].id
        &&& h.requirements[i].text == g.requirements[i].text
        &&& h.requirements[i].title == (if g.requirements[i].title.len() > 0 {
            g.requirements[i].title
        } else {
            g.requirements[i].id
        })
    } by {
        let r = g.requirements[i];
        let o = c.spec_objects[i];
        assert(o == exported_object(r, TEXT_ATTR_DEF_ID@));
        assert(crate::reqif_adapter::lowers_requirement(h.requirements[i], o, names, crate::reqif_adapter::lowered_baseline(b, cfg), lowered_provenance(cfg)));
        let v = AttributeValueV { definition: TEXT_ATTR_DEF_ID@, data: AttributeDataV::String(r.text) };
        let fa = |v: AttributeValueV| match crate::reqif_adapter::lookup(names, v.definition) {
            Some(k) => seq![(k, crate::reqif_adapter::attribute_text(v.data))],
            None => Seq::<(Seq<char>, Seq<char>)>::empty(),
        };
        lemma_flat_map_single(v, fa);
        let a = crate::reqif_adapter::attribute_assignments(o.values, names);
        assert(o.values == seq![v]);
        assert(crate::reqif_adapter::lookup(names, TEXT_ATTR_DEF_ID@) == Some("text"@)) by {
            assert(names.drop_last() =~= Seq::<(Seq<char>, Seq<char>)>::empty());
        }
        assert(a == seq![("text"@, r.text)]);
        assert(crate::requirements_render::assigns(a, "text"@)) by {
            assert(a[0].0 == "text"@);
        }
        assert(crate::requirements_render::last_label(a, "text"@) == r.text) by {
            assert(a.last() == ("text"@, r.text));
        }
        assert("text"@[0] != "name"@[0]);
        assert("text"@.len() != "title"@.len());
        assert(!crate::requirements_render::assigns(a, "name"@)) by {
            if crate::requirements_render::assigns(a, "name"@) {
                let k = choose|k: int| 0 <= k < a.len() && a[k].0 == "name"@;
                assert(k == 0);
            }
        }
        assert(!crate::requirements_render::assigns(a, "title"@)) by {
            if crate::requirements_render::assigns(a, "title"@) {
                let k = choose|k: int| 0 <= k < a.len() && a[k].0 == "title"@;
                assert(k == 0);
            }
        }
        assert(!crate::requirements_render::assigns(a, "key"@));
    }
    let tn = crate::reqif_adapter::spec_type_names(c.spec_types);
    let p = lowered_provenance(cfg);
    let fx = |r: RelationV| if exportable(g, r) { seq![exported_relation(r)] } else { Seq::<SpecRelationV>::empty() };
    let fl = |s: SpecRelationV| crate::reqif_adapter::lowered_relation(s, tn, p);
    let fr = |r: RelationV| if exportable(g, r) { seq![reimported(r, cfg)] } else { Seq::<RelationV>::empty() };
    assert forall|i: int| 0 <= i < g.relations.len() implies (#[trigger] fx(g.relations[i])).map_values(fl) == fr(g.relations[i]) by {
        let r = g.relations[i];
        if exportable(g, r) {
            lemma_exported_type_names(r.kind);
            law_relation_long_names_round_trip(r.kind);
            lemma_long_names_plain(r.kind);
            lemma_normalize_plain(relation_long_name_spec(r.kind));
            assert(fl(exported_relation(r)) == reimported(r, cfg));
            assert(fx(r).map_values(fl) =~= seq![reimported(r, cfg)]);
        } else {
            assert(fx(r).map_values(fl) =~= Seq::<RelationV>::empty());
        }
    }
    lemma_exported_relations_one_pass(g);
    lemma_flat_map_map(g.relations, fx, fl, fr);
}

proof fn lemma_flat_map_congruent<T, U>(s: Seq<T>, f: spec_fn(T) -> Seq<U>, g: spec_fn(T) -> Seq<U>)
    requires
        forall|i: int| 0 <= i < s.len() ==> #[trigger] f(s[i]) == g(s[i]),
    ensures
        flat_map(s, f) == flat_map(s, g),
    decreases s.len(),
{
    if s.len() > 0 {
        assert forall|i: int| 0 <= i < s.drop_last().len() implies #[trigger] f(s.drop_last()[i]) == g(s.drop_last()[i]) by {
            assert(s.drop_last()[i] == s[i]);
        }
        lemma_flat_map_congruent(s.drop_last(), f, g);
        assert(f(s[s.len() - 1]) == g(s[s.len() - 1]));
    }
}

proof fn lemma_flat_map_flat_map<T, U, V>(s: Seq<T>, f1: spec_fn(T) -> Seq<U>, f2: spec_fn(U) -> Seq<V>)
    ensures
        flat_map(flat_map(s, f1), f2) == flat_map(s, |x: T| flat_map(f1(x), f2)),
    decreases s.len(),
{
    if s.len() == 0 {
        assert(flat_map(s, f1) =~= Seq::<U>::empty());
    } else {
        let init = s.drop_last();
        lemma_flat_map_flat_map(init, f1, f2);
        lemma_flat_map_append(flat_map(init, f1), f1(s.last()), f2);
    }
}

/// The exported relations in one pass over the graph's relations.
proof fn lemma_exported_relations_one_pass(g: GraphV)
    ensures
        exported_relations(g) == flat_map(g.relations, |r: RelationV| if exportable(g, r) { seq![exported_relation(r)] } else { Seq::<SpecRelationV>::empty() }),
{
    let f1 = |r: RelationV| if r.authority is Asserted { seq![exported_relation(r)] } else { Seq::<SpecRelationV>::empty() };
    let f2 = |s: SpecRelationV| if is_requirement_id(g, s.source) && is_requirement_id(g, s.target) { seq![s] } else { Seq::<SpecRelationV>::empty() };
    let fx = |r: RelationV| if exportable(g, r) { seq![exported_relation(r)] } else { Seq::<SpecRelationV>::empty() };
    let f12 = |x: RelationV| flat_map(f1(x), f2);
    lemma_flat_map_flat_map(g.relations, f1, f2);
    assert forall|i: int| 0 <= i < g.relations.len() implies #[trigger] f12(g.relations[i]) == fx(g.relations[i]) by {
        let r = g.relations[i];
        if r.authority is Asserted {
            lemma_flat_map_single(exported_relation(r), f2);
        } else {
            assert(f1(r) =~= Seq::<SpecRelationV>::empty());
            assert(flat_map(f1(r), f2) =~= Seq::<SpecRelationV>::empty());
        }
    }
    lemma_flat_map_congruent(g.relations, f12, fx);
}

} // verus!
