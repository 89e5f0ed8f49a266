//! Lowering a parsed ReqIF bundle onto a requirements graph: each spec
//! object becomes a requirement (its attribute values keyed by the
//! normalized long names of their definitions), each spec relation an
//! asserted relation whose kind comes from its relation type's name.
//! ReqIF has no title or text fields of its own: a requirement's title is
//! its object's long name or else its `name`, `title` or `key` attribute or
//! else its identifier; its text is its `text` or else `description`
//! attribute.
use vstd::prelude::*;

use crate::reqif_bundle::{
    attribute_data_v, bundle_v, content_v, spec_object_v, spec_relation_v, spec_type_v, AttributeData, AttributeDataV,
    AttributeDefinitionV, BundleV, ReqIfBundle, SpecObject, SpecObjectV, SpecRelation, SpecRelationV, SpecType,
    SpecTypeV,
};
use crate::requirements::{
    provenance_v, relation_v, requirement_v, graph_v, AuthorityV, BaselineIdentity, BaselineV, GraphV, Provenance,
    ProvenanceV, RelationAuthority, RelationV, Requirement, RequirementError, RequirementGraph, RequirementRelation, RequirementV,
    graph_valid, reports_first_dangling,
};
use crate::requirements_render::{assigns, is_label_table, last_label, table_view, upsert};
use crate::text::{ascii_lower, chars_eq, chars_to_string, flat_map, join, lemma_flat_map_step, map_chars, push_char, push_str, str_chars, str_eq};

verus! {

/// Caller-supplied identity for the baseline a ReqIF bundle represents.
#[derive(Debug, Clone, PartialEq, Eq)]
pub struct ReqIfAdapterConfig {
    /// Opaque locator for the source artifact; also the baseline id when the
    /// bundle's own header identifier is absent.
    pub source_uri: String,
    pub revision: String,
    pub import_artifact_sha256: Option<String>,
}

/// Why a parsed bundle could not be lowered.
#[derive(Debug, Clone, PartialEq, Eq)]
pub enum ReqIfAdapterError {
    /// The document is not well-formed ReqIF XML; the parser's message.
    Parse(String),
    /// No `<REQ-IF-CONTENT>` element.
    MissingContent,
    /// The lowered graph failed validation.
    Graph(RequirementError),
}

/// The requirement-relation vocabulary.
#[derive(Debug, Clone, Copy, PartialEq, Eq, Structural)]
pub enum RequirementRelationKind {
    Contains,
    Derives,
    Refines,
    Requires,
    Satisfies,
    Verifies,
    Implements,
    Traces,
    AllocatedTo,
    Precedes,
}

/// The relation kind a normalized relation-type name denotes, if any.
pub open spec fn relation_kind_spec(name: Seq<char>) -> Option<RequirementRelationKind> {
    if name == "contains"@ {
        Some(RequirementRelationKind::Contains)
    } else if name == "derives"@ || name == "derive"@ || name == "derived_from"@ {
        Some(RequirementRelationKind::Derives)
    } else if name == "refines"@ {
        Some(RequirementRelationKind::Refines)
    } else if name == "requires"@ {
        Some(RequirementRelationKind::Requires)
    } else if name == "satisfies"@ {
        Some(RequirementRelationKind::Satisfies)
    } else if name == "verifies"@ {
        Some(RequirementRelationKind::Verifies)
    } else if name == "implements"@ {
        Some(RequirementRelationKind::Implements)
    } else if name == "traces"@ {
        Some(RequirementRelationKind::Traces)
    } else if name == "allocated_to"@ || name == "allocatedto"@ {
        Some(RequirementRelationKind::AllocatedTo)
    } else if name == "precedes"@ {
        Some(RequirementRelationKind::Precedes)
    } else {
        None
    }
}

/// Maps a normalized `SPEC-RELATION-TYPE` long name onto the relation
/// vocabulary; an unrecognized name maps to nothing.
pub fn relation_kind_from_name(name: &str) -> (r: Option<RequirementRelationKind>)
    ensures
        r == relation_kind_spec(name@),
{
    if str_eq(name, "contains") {
        Some(RequirementRelationKind::Contains)
    } else if str_eq(name, "derives") || str_eq(name, "derive") || str_eq(name, "derived_from") {
        Some(RequirementRelationKind::Derives)
    } else if str_eq(name, "refines") {
        Some(RequirementRelationKind::Refines)
    } else if str_eq(name, "requires") {
        Some(RequirementRelationKind::Requires)
    } else if str_eq(name, "satisfies") {
        Some(RequirementRelationKind::Satisfies)
    } else if str_eq(name, "verifies") {
        Some(RequirementRelationKind::Verifies)
    } else if str_eq(name, "implements") {
        Some(RequirementRelationKind::Implements)
    } else if str_eq(name, "traces") {
        Some(RequirementRelationKind::Traces)
    } else if str_eq(name, "allocated_to") || str_eq(name, "allocatedto") {
        Some(RequirementRelationKind::AllocatedTo)
    } else if str_eq(name, "precedes") {
        Some(RequirementRelationKind::Precedes)
    } else {
        None
    }
}

/// The relation kind of a relation type: its mapped kind, `Traces` for an
/// unknown or unnamed type.
pub fn relation_kind_or_traces(name: Option<&str>) -> (r: RequirementRelationKind)
    ensures
        r == match name {
            Some(n) => match relation_kind_spec(n@) {
                Some(k) => k,
                None => RequirementRelationKind::Traces,
            },
            None => RequirementRelationKind::Traces,
        },
{
    match name {
        Some(n) => match relation_kind_from_name(n) {
            Some(k) => k,
            None => RequirementRelationKind::Traces,
        },
        None => RequirementRelationKind::Traces,
    }
}

/// Whether every character is ASCII.
pub open spec fn is_ascii(s: Seq<char>) -> bool {
    forall|i: int| 0 <= i < s.len() ==> (s[i] as u32) < 128
}

/// The Unicode lowercase (`str::to_lowercase`) of a string that is not all
/// ASCII.
pub uninterp spec fn unicode_lowercase(s: Seq<char>) -> Seq<char>;

/// The Unicode lowercase of a string: letter by letter for ASCII.
pub open spec fn lowercase(s: Seq<char>) -> Seq<char> {
    if is_ascii(s) {
        ascii_lower(s)
    } else {
        unicode_lowercase(s)
    }
}

/// `str::to_lowercase`. Claimed: on an all-ASCII string it maps `A`-`Z`
/// to `a`-`z` and keeps every other character (the Unicode lowercase
/// mapping of ASCII); otherwise its result is named, not stated.
#[verifier::external_body]
fn to_lowercase(s: &str) -> (r: String)
    ensures
        r@ == (if is_ascii(s@) { ascii_lower(s@) } else { unicode_lowercase(s@) }),
{
    s.to_lowercase()
}

/// A space or a hyphen becomes an underscore.
pub open spec fn snake_char(c: char) -> Seq<char> {
    if c == ' ' || c == '-' {
        seq!['_']
    } else {
        seq![c]
    }
}

/// An attribute-definition or relation-type name normalized to a key:
/// lowercased, spaces and hyphens replaced by underscores.
pub open spec fn normalize_key_spec(s: Seq<char>) -> Seq<char> {
    map_chars(lowercase(s), |c: char| snake_char(c))
}

/// Normalizes a long name to a key (`"Allocated To"` to `"allocated_to"`).
pub fn normalize_key(s: &str) -> (r: String)
    ensures
        r@ == normalize_key_spec(s@),
{
    let lower = to_lowercase(s);
    let v = str_chars(lower.as_str());
    let ghost f = |c: char| snake_char(c);
    let mut out = String::new();
    let mut i: usize = 0;
    while i < v.len()
        invariant
            i <= v@.len(),
            v@ == lowercase(s@),
            f == (|c: char| snake_char(c)),
            out@ == map_chars(v@.take(i as int), f),
        decreases v@.len() - i,
    {
        proof { crate::text::lemma_map_chars_step(v@, i as int, f); }
        let c = v[i];
        if c == ' ' || c == '-' {
            push_char(&mut out, '_');
        } else {
            push_char(&mut out, c);
        }
        i = i + 1;
    }
    assert(v@.take(v@.len() as int) =~= v@);
    out
}

// ---------------------------------------------------------------------
// Lowering a bundle
// ---------------------------------------------------------------------

pub open spec fn pairs_v(v: Seq<(String, String)>) -> Seq<(Seq<char>, Seq<char>)> {
    v.map_values(|p: (String, String)| (p.0@, p.1@))
}

/// The value the last pair with first component `id` pairs it with.
pub open spec fn lookup(pairs: Seq<(Seq<char>, Seq<char>)>, id: Seq<char>) -> Option<Seq<char>>
    decreases pairs.len(),
{
    if pairs.len() == 0 {
        None
    } else if pairs.last().0 == id {
        Some(pairs.last().1)
    } else {
        lookup(pairs.drop_last(), id)
    }
}

/// `(identifier, key)` of an attribute definition with a long name.
pub open spec fn definition_keys(d: AttributeDefinitionV) -> Seq<(Seq<char>, Seq<char>)> {
    match d.long_name {
        Some(n) => seq![(d.identifier, normalize_key_spec(n))],
        None => Seq::empty(),
    }
}

pub open spec fn type_definition_keys(t: SpecTypeV) -> Seq<(Seq<char>, Seq<char>)> {
    flat_map(t.attributes, |d: AttributeDefinitionV| definition_keys(d))
}

/// Attribute-definition identifier to key, over every spec type in order
/// (a later definition of the same identifier wins).
pub open spec fn attribute_definition_names(types: Seq<SpecTypeV>) -> Seq<(Seq<char>, Seq<char>)> {
    flat_map(types, |t: SpecTypeV| type_definition_keys(t))
}

pub open spec fn opt_or_empty(o: Option<Seq<char>>) -> Seq<char> {
    match o {
        Some(s) => s,
        None => Seq::empty(),
    }
}

/// Spec-type identifier to normalized long name (empty when unnamed).
pub open spec fn spec_type_names(types: Seq<SpecTypeV>) -> Seq<(Seq<char>, Seq<char>)> {
    types.map_values(|t: SpecTypeV| (t.identifier, normalize_key_spec(opt_or_empty(t.long_name))))
}

/// An attribute value as text: booleans as `true`/`false`, enumeration
/// values as their identifiers joined by `, `, XHTML raw.
pub open spec fn attribute_text(d: AttributeDataV) -> Seq<char> {
    match d {
        AttributeDataV::String(s) => s,
        AttributeDataV::Boolean(b) => if b { "true"@ } else { "false"@ },
        AttributeDataV::Integer(s) => s,
        AttributeDataV::Real(s) => s,
        AttributeDataV::Date(s) => s,
        AttributeDataV::Xhtml(s) => s,
        AttributeDataV::Enumeration(ids) => join(ids, ", "@),
    }
}

/// The `(key, text)` assignments of a spec object's values, in order; a
/// value whose definition has no key is dropped.
pub open spec fn attribute_assignments(values: Seq<crate::reqif_bundle::AttributeValueV>, names: Seq<(Seq<char>, Seq<char>)>) -> Seq<(Seq<char>, Seq<char>)> {
    flat_map(values, |v: crate::reqif_bundle::AttributeValueV| match lookup(names, v.definition) {
        Some(k) => seq![(k, attribute_text(v.data))],
        None => Seq::empty(),
    })
}

/// The last text assigned to `key`, if any.
pub open spec fn assigned(a: Seq<(Seq<char>, Seq<char>)>, key: Seq<char>) -> Option<Seq<char>> {
    if assigns(a, key) {
        Some(last_label(a, key))
    } else {
        None
    }
}

pub open spec fn requirement_title(o: SpecObjectV, a: Seq<(Seq<char>, Seq<char>)>) -> Seq<char> {
    match o.long_name {
        Some(n) if n.len() > 0 => n,
        _ => match assigned(a, "name"@) {
            Some(x) => x,
            None => match assigned(a, "title"@) {
                Some(x) => x,
                None => match assigned(a, "key"@) {
                    Some(x) => x,
                    None => o.identifier,
                },
            },
        },
    }
}

pub open spec fn requirement_text(a: Seq<(Seq<char>, Seq<char>)>) -> Seq<char> {
    match assigned(a, "text"@) {
        Some(x) => x,
        None => opt_or_empty(assigned(a, "description"@)),
    }
}

/// `r` is spec object `o` lowered: its identifier, title and text, the
/// given baseline and provenance, its attributes as a table sorted by key
/// (last value per key), no evidence.
pub open spec fn lowers_requirement(
    r: RequirementV,
    o: SpecObjectV,
    names: Seq<(Seq<char>, Seq<char>)>,
    b: BaselineV,
    p: ProvenanceV,
) -> bool {
    let a = attribute_assignments(o.values, names);
    &&& r.id == o.identifier
    &&& r.title == requirement_title(o, a)
    &&& r.text == requirement_text(a)
    &&& r.baseline == b
    &&& r.provenance == p
    &&& is_label_table(a, r.attributes)
    &&& r.evidence == Seq::<Seq<char>>::empty()
}

/// A spec relation lowered: asserted, its kind named by its relation type
/// (`Traces` when the type is unknown or its name maps to no kind).
pub open spec fn lowered_relation(s: SpecRelationV, type_names: Seq<(Seq<char>, Seq<char>)>, p: ProvenanceV) -> RelationV {
    RelationV {
        id: s.identifier,
        source: s.source,
        target: s.target,
        kind: match lookup(type_names, s.relation_type) {
            Some(n) => match relation_kind_spec(n) {
                Some(k) => k,
                None => RequirementRelationKind::Traces,
            },
            None => RequirementRelationKind::Traces,
        },
        authority: AuthorityV::Asserted,
        provenance: p,
    }
}

/// The baseline of a lowered bundle: the header identifier (or, when it is
/// absent or empty, the source URI) at the configured revision.
pub open spec fn lowered_baseline(b: BundleV, cfg: ReqIfAdapterConfig) -> BaselineV {
    BaselineV {
        id: match b.header {
            Some(h) if h.len() > 0 => h,
            _ => cfg.source_uri@,
        },
        revision: cfg.revision@,
        import_artifact_sha256: crate::reqif_bundle::opt_v(cfg.import_artifact_sha256),
        exported_baseline_sha256: None,
    }
}

pub open spec fn lowered_provenance(cfg: ReqIfAdapterConfig) -> ProvenanceV {
    ProvenanceV {
        source_uri: cfg.source_uri@,
        artifact_sha256: crate::reqif_bundle::opt_v(cfg.import_artifact_sha256),
        locator: None,
    }
}

/// `g` is the bundle lowered: one requirement per spec object and one
/// relation per spec relation, in order, and no evidence.
pub open spec fn lowers_to(b: BundleV, cfg: ReqIfAdapterConfig, g: GraphV) -> bool {
    match b.content {
        Some(c) => {
            let names = attribute_definition_names(c.spec_types);
            &&& g.baseline == lowered_baseline(b, cfg)
            &&& g.evidence.len() == 0
            &&& g.requirements.len() == c.spec_objects.len()
            &&& forall|i: int| 0 <= i < c.spec_objects.len()
                ==> lowers_requirement(#[trigger] g.requirements[i], c.spec_objects[i], names, lowered_baseline(b, cfg), lowered_provenance(cfg))
            &&& g.relations == c.spec_relations.map_values(
                |s: SpecRelationV| lowered_relation(s, spec_type_names(c.spec_types), lowered_provenance(cfg)))
        },
        None => false,
    }
}

fn copy_opt_string(o: &Option<String>) -> (r: Option<String>)
    ensures
        crate::reqif_bundle::opt_v(r) == crate::reqif_bundle::opt_v(*o),
{
    match o {
        Some(s) => Some(s.clone()),
        None => None,
    }
}

/// The attribute-definition keys of every spec type.
fn attribute_definition_names_exec(types: &Vec<SpecType>) -> (r: Vec<(String, String)>)
    ensures
        pairs_v(r@) == attribute_definition_names(types@.map_values(|t: SpecType| spec_type_v(t))),
{
    let ghost tv = types@.map_values(|t: SpecType| spec_type_v(t));
    let ghost f = |t: SpecTypeV| type_definition_keys(t);
    let mut out: Vec<(String, String)> = Vec::new();
    let mut i: usize = 0;
    assert(pairs_v(out@) =~= flat_map(tv.take(0), f));
    while i < types.len()
        invariant
            i <= types@.len(),
            tv == types@.map_values(|t: SpecType| spec_type_v(t)),
            f == (|t: SpecTypeV| type_definition_keys(t)),
            pairs_v(out@) == flat_map(tv.take(i as int), f),
        decreases types@.len() - i,
    {
        proof { lemma_flat_map_step(tv, i as int, f); }
        let t = &types[i];
        let ghost dv = tv[i as int].attributes;
        let ghost g = |d: AttributeDefinitionV| definition_keys(d);
        let ghost base = pairs_v(out@);
        let mut j: usize = 0;
        assert(flat_map(dv.take(0), g) =~= Seq::<(Seq<char>, Seq<char>)>::empty());
        while j < t.attributes.len()
            invariant
                j <= t.attributes@.len(),
                i < tv.len(),
                dv == tv[i as int].attributes,
                tv[i as int] == spec_type_v(*t),
                g == (|d: AttributeDefinitionV| definition_keys(d)),
                pairs_v(out@) == base + flat_map(dv.take(j as int), g),
            decreases t.attributes@.len() - j,
        {
            proof { lemma_flat_map_step(dv, j as int, g); }
            let d = &t.attributes[j];
            let ghost before = pairs_v(out@);
            match &d.long_name {
                Some(n) => {
                    let key = normalize_key(n.as_str());
                    out.push((d.identifier.clone(), key));
                },
                None => {},
            }
            assert(pairs_v(out@) =~= before + g(dv[j as int]));
            assert(base + flat_map(dv.take(j + 1), g) =~= base + flat_map(dv.take(j as int), g) + g(dv[j as int]));
            j = j + 1;
        }
        assert(dv.take(dv.len() as int) =~= dv);
        assert(f(tv[i as int]) == flat_map(dv, g));
        i = i + 1;
    }
    assert(tv.take(tv.len() as int) =~= tv);
    out
}

/// The normalized name of every spec type.
fn spec_type_names_exec(types: &Vec<SpecType>) -> (r: Vec<(String, String)>)
    ensures
        pairs_v(r@) == spec_type_names(types@.map_values(|t: SpecType| spec_type_v(t))),
{
    let ghost tv = types@.map_values(|t: SpecType| spec_type_v(t));
    let mut out: Vec<(String, String)> = Vec::new();
    let mut i: usize = 0;
    while i < types.len()
        invariant
            i <= types@.len(),
            tv == types@.map_values(|t: SpecType| spec_type_v(t)),
            pairs_v(out@) == spec_type_names(tv.take(i as int)),
        decreases types@.len() - i,
    {
        let t = &types[i];
        let name: &str = match &t.long_name {
            Some(n) => n.as_str(),
            None => "",
        };
        proof { reveal_strlit(""); }
        assert(name@ == opt_or_empty(tv[i as int].long_name));
        let key = normalize_key(name);
        let ghost before = pairs_v(out@);
        let ident = t.identifier.clone();
        let ghost row = (ident@, key@);
        out.push((ident, key));
        proof {
            assert(tv[i as int] == spec_type_v(types@[i as int]));
            assert(row == (tv[i as int].identifier, normalize_key_spec(opt_or_empty(tv[i as int].long_name))));
            assert(tv.take(i + 1) =~= tv.take(i as int).push(tv[i as int]));
            assert(spec_type_names(tv.take(i + 1)) =~= spec_type_names(tv.take(i as int)).push(row));
            assert(pairs_v(out@) =~= before.push(row));
        }
        i = i + 1;
    }
    assert(tv.take(tv.len() as int) =~= tv);
    out
}

/// The value paired with `id` by the last pair that has it.
fn lookup_exec(pairs: &Vec<(String, String)>, id: &str) -> (r: Option<String>)
    ensures
        crate::reqif_bundle::opt_v(r) == lookup(pairs_v(pairs@), id@),
{
    let ghost pv = pairs_v(pairs@);
    let mut found: Option<String> = None;
    let mut i: usize = 0;
    while i < pairs.len()
        invariant
            i <= pairs@.len(),
            pv == pairs_v(pairs@),
            crate::reqif_bundle::opt_v(found) == lookup(pv.take(i as int), id@),
        decreases pairs@.len() - i,
    {
        proof {
            assert(pv.take(i + 1).drop_last() =~= pv.take(i as int));
            assert(pv.take(i + 1).last() == pv[i as int]);
        }
        if str_eq(pairs[i].0.as_str(), id) {
            found = Some(pairs[i].1.clone());
        }
        i = i + 1;
    }
    assert(pv.take(pv.len() as int) =~= pv);
    found
}

/// An attribute value as text (see [`attribute_text`]).
pub fn attribute_value_string(d: &AttributeData) -> (r: String)
    ensures
        r@ == attribute_text(attribute_data_v(*d)),
{
    match d {
        AttributeData::String(v) => v.clone(),
        AttributeData::Boolean(b) => if *b { "true".to_owned() } else { "false".to_owned() },
        AttributeData::Integer(v) => v.clone(),
        AttributeData::Real(v) => v.clone(),
        AttributeData::Date(v) => v.clone(),
        AttributeData::Xhtml(v) => v.clone(),
        AttributeData::Enumeration(ids) => {
            let ghost parts = ids@.map_values(|s: String| s@);
            let mut out = String::new();
            let mut i: usize = 0;
            while i < ids.len()
                invariant
                    i <= ids@.len(),
                    parts == ids@.map_values(|s: String| s@),
                    out@ == join(parts.take(i as int), ", "@),
                decreases ids@.len() - i,
            {
                proof { crate::text::lemma_join_step(parts, ", "@, i as int); }
                if i > 0 {
                    push_str(&mut out, ", ");
                }
                push_str(&mut out, ids[i].as_str());
                proof {
                    if i > 0 {
                        assert(out@ =~= join(parts.take(i as int), ", "@) + ", "@ + parts[i as int]);
                    } else {
                        assert(out@ =~= parts[i as int]);
                    }
                }
                i = i + 1;
            }
            assert(parts.take(parts.len() as int) =~= parts);
            out
        },
    }
}

/// The text of the table row for `key`, if there is one.
fn table_get(table: &Vec<(Vec<char>, Vec<char>)>, key: &str, Ghost(a): Ghost<Seq<(Seq<char>, Seq<char>)>>) -> (r: Option<String>)
    requires
        is_label_table(a, table_view(table@)),
    ensures
        crate::reqif_bundle::opt_v(r) == assigned(a, key@),
{
    let ghost t = table_view(table@);
    let k = str_chars(key);
    let mut i: usize = 0;
    while i < table.len()
        invariant
            i <= table@.len(),
            t == table_view(table@),
            is_label_table(a, t),
            k@ == key@,
            forall|j: int| 0 <= j < i ==> (#[trigger] t[j]).0 != key@,
        decreases table@.len() - i,
    {
        if chars_eq(table[i].0.as_slice(), k.as_slice()) {
            let v = chars_to_string(table[i].1.as_slice(), 0, table[i].1.len());
            proof {
                assert(t[i as int] == (table@[i as int].0@, table@[i as int].1@));
                assert(t[i as int].0 == key@);
                assert(assigns(t, key@));
                assert(v@ =~= t[i as int].1);
                assert(t[i as int].1 == last_label(a, t[i as int].0));
            }
            return Some(v);
        }
        i = i + 1;
    }
    proof {
        if assigns(t, key@) {
            let j = choose|j: int| 0 <= j < t.len() && t[j].0 == key@;
            assert(t[j].0 != key@);
        }
    }
    None
}

fn table_strings(table: &Vec<(Vec<char>, Vec<char>)>) -> (r: Vec<(String, String)>)
    ensures
        pairs_v(r@) == table_view(table@),
{
    let mut out: Vec<(String, String)> = Vec::new();
    let mut i: usize = 0;
    while i < table.len()
        invariant
            i <= table@.len(),
            pairs_v(out@) == table_view(table@).take(i as int),
        decreases table@.len() - i,
    {
        let k = chars_to_string(table[i].0.as_slice(), 0, table[i].0.len());
        let v = chars_to_string(table[i].1.as_slice(), 0, table[i].1.len());
        let ghost row = (k@, v@);
        let ghost before = pairs_v(out@);
        proof {
            assert(k@ =~= table@[i as int].0@);
            assert(v@ =~= table@[i as int].1@);
            assert(table_view(table@)[i as int] == row);
            assert(table_view(table@).take(i + 1) =~= table_view(table@).take(i as int).push(row));
        }
        out.push((k, v));
        assert(pairs_v(out@) =~= before.push(row));
        i = i + 1;
    }
    assert(table_view(table@).take(table@.len() as int) =~= table_view(table@));
    out
}

/// A spec object lowered to a requirement (see [`lowers_requirement`]),
/// with the attribute-definition keys `names`.
pub fn spec_object_to_requirement(
    o: &SpecObject,
    names: &Vec<(String, String)>,
    baseline: &BaselineIdentity,
    provenance: &Provenance,
) -> (r: Requirement)
    ensures
        lowers_requirement(requirement_v(r), spec_object_v(*o), pairs_v(names@), crate::requirements::baseline_v(*baseline), provenance_v(*provenance)),
{
    let ghost ov = spec_object_v(*o);
    let ghost nv = pairs_v(names@);
    let ghost f = |v: crate::reqif_bundle::AttributeValueV| match lookup(nv, v.definition) {
        Some(k) => seq![(k, attribute_text(v.data))],
        None => Seq::<(Seq<char>, Seq<char>)>::empty(),
    };
    let mut table: Vec<(Vec<char>, Vec<char>)> = Vec::new();
    let mut i: usize = 0;
    proof {
        assert(flat_map(ov.values.take(0), f) =~= Seq::<(Seq<char>, Seq<char>)>::empty());
        assert(table_view(table@) =~= Seq::<(Seq<char>, Seq<char>)>::empty());
    }
    while i < o.values.len()
        invariant
            i <= o.values@.len(),
            ov == spec_object_v(*o),
            nv == pairs_v(names@),
            f == (|v: crate::reqif_bundle::AttributeValueV| match lookup(nv, v.definition) {
                Some(k) => seq![(k, attribute_text(v.data))],
                None => Seq::<(Seq<char>, Seq<char>)>::empty(),
            }),
            is_label_table(flat_map(ov.values.take(i as int), f), table_view(table@)),
        decreases o.values@.len() - i,
    {
        proof { lemma_flat_map_step(ov.values, i as int, f); }
        let ghost a = flat_map(ov.values.take(i as int), f);
        let v = &o.values[i];
        assert(ov.values[i as int] == crate::reqif_bundle::attribute_value_v(*v));
        match lookup_exec(names, v.definition.as_str()) {
            Some(k) => {
                let text = attribute_value_string(&v.data);
                let kc = str_chars(k.as_str());
                let tc = str_chars(text.as_str());
                upsert(&mut table, kc, tc, Ghost(a));
                assert(a.push((k@, text@)) =~= a + f(ov.values[i as int]));
            },
            None => {
                assert(a + f(ov.values[i as int]) =~= a);
            },
        }
        i = i + 1;
    }
    assert(ov.values.take(ov.values.len() as int) =~= ov.values);
    let ghost a = attribute_assignments(ov.values, nv);
    assert(a == flat_map(ov.values, f));
    let title = match &o.long_name {
        Some(n) if str_chars(n.as_str()).len() > 0 => n.clone(),
        _ => match table_get(&table, "name", Ghost(a)) {
            Some(x) => x,
            None => match table_get(&table, "title", Ghost(a)) {
                Some(x) => x,
                None => match table_get(&table, "key", Ghost(a)) {
                    Some(x) => x,
                    None => o.identifier.clone(),
                },
            },
        },
    };
    let text = match table_get(&table, "text", Ghost(a)) {
        Some(x) => x,
        None => match table_get(&table, "description", Ghost(a)) {
            Some(x) => x,
            None => String::new(),
        },
    };
    let r = Requirement {
        id: o.identifier.clone(),
        title,
        text,
        baseline: baseline.duplicate(),
        provenance: provenance.duplicate(),
        attributes: table_strings(&table),
        evidence: Vec::new(),
    };
    assert(requirement_v(r).evidence =~= Seq::<Seq<char>>::empty());
    r
}

/// A spec relation lowered to an asserted relation (see
/// [`lowered_relation`]), with the spec-type names `type_names`.
pub fn spec_relation_to_requirement_relation(
    s: &SpecRelation,
    type_names: &Vec<(String, String)>,
    provenance: &Provenance,
) -> (r: RequirementRelation)
    ensures
        relation_v(r) == lowered_relation(spec_relation_v(*s), pairs_v(type_names@), provenance_v(*provenance)),
{
    let kind = match lookup_exec(type_names, s.relation_type.as_str()) {
        Some(n) => relation_kind_or_traces(Some(n.as_str())),
        None => RequirementRelationKind::Traces,
    };
    RequirementRelation {
        id: s.identifier.clone(),
        source: s.source.clone(),
        target: s.target.clone(),
        kind,
        authority: RelationAuthority::Asserted,
        provenance: provenance.duplicate(),
    }
}

/// What lowering a bundle gives: the valid lowered graph; `MissingContent`
/// without content; `Graph` reporting the first relation of the lowered
/// graph with an unknown endpoint; never `Parse`.
pub open spec fn lowering_outcome(b: BundleV, cfg: ReqIfAdapterConfig, r: Result<GraphV, ReqIfAdapterError>) -> bool {
    match r {
        Ok(g) => lowers_to(b, cfg, g) && graph_valid(g),
        Err(ReqIfAdapterError::MissingContent) => b.content is None,
        Err(ReqIfAdapterError::Graph(e)) => exists|h: GraphV| {
            &&& lowers_to(b, cfg, h)
            &&& !graph_valid(h)
            &&& reports_first_dangling(h, e)
        },
        Err(ReqIfAdapterError::Parse(_)) => false,
    }
}

/// What every lowering of a bundle gives: a bundle without content fails
/// with `MissingContent` and only such a bundle does; a lowered graph is
/// valid, has one relation per spec relation, each asserted, of the kind
/// its relation type names (`Traces` when the type is unknown or its name
/// maps to no kind), and its baseline is the header identifier, or the
/// source URI when the identifier is absent or empty.
pub proof fn law_lowering_summary(b: BundleV, cfg: ReqIfAdapterConfig, r: Result<GraphV, ReqIfAdapterError>)
    requires
        lowering_outcome(b, cfg, r),
    ensures
        r == Err::<GraphV, ReqIfAdapterError>(ReqIfAdapterError::MissingContent) <==> b.content is None,
        r matches Ok(g) ==> {
            &&& graph_valid(g)
            &&& b.content matches Some(c)
            &&& g.relations.len() == c.spec_relations.len()
            &&& forall|i: int| 0 <= i < g.relations.len() ==> {
                &&& (#[trigger] g.relations[i]).authority == AuthorityV::Asserted
                &&& (match lookup(spec_type_names(c.spec_types), c.spec_relations[i].relation_type) {
                    Some(n) => relation_kind_spec(n) is None,
                    None => true,
                }) ==> g.relations[i].kind == RequirementRelationKind::Traces
            }
            &&& g.baseline.id == match b.header {
                Some(h) => if h.len() > 0 { h } else { cfg.source_uri@ },
                None => cfg.source_uri@,
            }
        },
{
    match r {
        Ok(g) => {
            let c = b.content->0;
            assert forall|i: int| 0 <= i < g.relations.len() implies {
                &&& (#[trigger] g.relations[i]).authority == AuthorityV::Asserted
                &&& (match lookup(spec_type_names(c.spec_types), c.spec_relations[i].relation_type) {
                    Some(n) => relation_kind_spec(n) is None,
                    None => true,
                }) ==> g.relations[i].kind == RequirementRelationKind::Traces
            } by {
                assert(g.relations[i] == lowered_relation(c.spec_relations[i], spec_type_names(c.spec_types), lowered_provenance(cfg)));
            }
        },
        Err(ReqIfAdapterError::Graph(e)) => {
            let h = choose|h: GraphV| lowers_to(b, cfg, h) && !graph_valid(h) && reports_first_dangling(h, e);
        },
        _ => {},
    }
}

/// Lowers a parsed bundle onto a requirements graph (see [`lowers_to`])
/// and validates it; a bundle without content is `MissingContent`, a
/// lowered graph with a relation to an unknown item is `Graph`.
pub fn bundle_to_requirement_graph(bundle: &ReqIfBundle, config: &ReqIfAdapterConfig) -> (r: Result<RequirementGraph, ReqIfAdapterError>)
    ensures
        lowering_outcome(bundle_v(*bundle), *config, match r {
            Ok(g) => Ok(graph_v(g)),
            Err(e) => Err(e),
        }),
        bundle.content is None ==> r is Err,
{
    let content = match &bundle.content {
        Some(c) => c,
        None => return Err(ReqIfAdapterError::MissingContent),
    };
    let ghost bv = bundle_v(*bundle);
    let ghost cv = content_v(*content);
    let id = match &bundle.header {
        Some(h) if str_chars(h.identifier.as_str()).len() > 0 => h.identifier.clone(),
        _ => config.source_uri.clone(),
    };
    let baseline = BaselineIdentity {
        id,
        revision: config.revision.clone(),
        import_artifact_sha256: copy_opt_string(&config.import_artifact_sha256),
        exported_baseline_sha256: None,
    };
    let provenance = Provenance {
        source_uri: config.source_uri.clone(),
        artifact_sha256: copy_opt_string(&config.import_artifact_sha256),
        locator: None,
    };
    let ghost b = lowered_baseline(bv, *config);
    let ghost p = lowered_provenance(*config);
    assert(crate::requirements::baseline_v(baseline) == b);
    assert(provenance_v(provenance) == p);
    let names = attribute_definition_names_exec(&content.spec_types);
    let type_names = spec_type_names_exec(&content.spec_types);
    assert(cv.spec_types == content.spec_types@.map_values(|t: SpecType| spec_type_v(t)));
    let ghost nv = attribute_definition_names(cv.spec_types);
    let ghost tn = spec_type_names(cv.spec_types);
    let mut requirements: Vec<Requirement> = Vec::new();
    let mut i: usize = 0;
    while i < content.spec_objects.len()
        invariant
            i <= content.spec_objects@.len(),
            cv == content_v(*content),
            nv == pairs_v(names@),
            crate::requirements::baseline_v(baseline) == b,
            provenance_v(provenance) == p,
            requirements@.len() == i,
            forall|j: int| 0 <= j < i ==> lowers_requirement(#[trigger] requirement_v(requirements@[j]), cv.spec_objects[j], nv, b, p),
        decreases content.spec_objects@.len() - i,
    {
        let r = spec_object_to_requirement(&content.spec_objects[i], &names, &baseline, &provenance);
        assert(cv.spec_objects[i as int] == spec_object_v(content.spec_objects@[i as int]));
        requirements.push(r);
        proof {
            assert forall|j: int| 0 <= j < i + 1 implies lowers_requirement(#[trigger] requirement_v(requirements@[j]), cv.spec_objects[j], nv, b, p) by {
                if j == i {
                    assert(requirements@[j] == r);
                }
            }
        }
        i = i + 1;
    }
    let mut relations: Vec<RequirementRelation> = Vec::new();
    let mut i: usize = 0;
    while i < content.spec_relations.len()
        invariant
            i <= content.spec_relations@.len(),
            cv == content_v(*content),
            tn == pairs_v(type_names@),
            provenance_v(provenance) == p,
            relations@.map_values(|r: RequirementRelation| relation_v(r))
                == cv.spec_relations.take(i as int).map_values(|s: SpecRelationV| lowered_relation(s, tn, p)),
        decreases content.spec_relations@.len() - i,
    {
        let r = spec_relation_to_requirement_relation(&content.spec_relations[i], &type_names, &provenance);
        let ghost before = relations@.map_values(|r: RequirementRelation| relation_v(r));
        assert(cv.spec_relations[i as int] == spec_relation_v(content.spec_relations@[i as int]));
        relations.push(r);
        proof {
            assert(cv.spec_relations.take(i + 1) =~= cv.spec_relations.take(i as int).push(cv.spec_relations[i as int]));
            assert(relations@.map_values(|r: RequirementRelation| relation_v(r)) =~= before.push(relation_v(r)));
        }
        i = i + 1;
    }
    assert(cv.spec_relations.take(cv.spec_relations.len() as int) =~= cv.spec_relations);
    let graph = RequirementGraph { baseline, requirements, evidence: Vec::new(), relations };
    proof {
        let gv = graph_v(graph);
        assert(gv.evidence.len() == 0);
        assert forall|j: int| 0 <= j < cv.spec_objects.len() implies lowers_requirement(#[trigger] gv.requirements[j], cv.spec_objects[j], nv, b, p) by {
            assert(gv.requirements[j] == requirement_v(graph.requirements@[j]));
        }
        assert(lowers_to(bv, *config, gv));
    }
    match graph.validate() {
        Ok(()) => Ok(graph),
        Err(e) => Err(ReqIfAdapterError::Graph(e)),
    }
}

} // verus!
