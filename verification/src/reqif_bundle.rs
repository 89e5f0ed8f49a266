//! The content of a ReqIF document as the library reads and writes it: the
//! header's identifier, the datatype definitions, the spec types with their
//! attribute definitions, the spec objects with their attribute values, and
//! the spec relations between objects.
use vstd::prelude::*;

verus! {

/// The kind of a spec type.
#[derive(Debug, Clone, Copy, PartialEq, Eq, Structural)]
pub enum SpecTypeKind {
    SpecObject,
    Specification,
    SpecRelation,
    RelationGroup,
}

/// The datatype of an attribute definition or a datatype definition.
#[derive(Debug, Clone, Copy, PartialEq, Eq, Structural)]
pub enum DatatypeKind {
    String,
    Boolean,
    Integer,
    Real,
    Date,
    Xhtml,
    Enumeration,
}

/// `<DATATYPE-DEFINITION-*>`.
#[derive(Debug, Clone, PartialEq, Eq)]
pub struct DataTypeDefinition {
    pub kind: DatatypeKind,
    pub identifier: String,
    pub long_name: Option<String>,
}

/// `<ATTRIBUTE-DEFINITION-*>`: an attribute a spec type declares.
#[derive(Debug, Clone, PartialEq, Eq)]
pub struct AttributeDefinition {
    pub kind: DatatypeKind,
    pub identifier: String,
    pub long_name: Option<String>,
    /// Identifier of the datatype definition it refers to.
    pub datatype: String,
}

/// `<SPEC-OBJECT-TYPE>`, `<SPECIFICATION-TYPE>`, `<SPEC-RELATION-TYPE>` or
/// `<RELATION-GROUP-TYPE>`.
#[derive(Debug, Clone, PartialEq, Eq)]
pub struct SpecType {
    pub kind: SpecTypeKind,
    pub identifier: String,
    pub long_name: Option<String>,
    pub attributes: Vec<AttributeDefinition>,
}

/// The value an attribute holds.
#[derive(Debug, Clone, PartialEq, Eq)]
pub enum AttributeData {
    String(String),
    Boolean(bool),
    Integer(String),
    Real(String),
    Date(String),
    /// The raw XHTML.
    Xhtml(String),
    /// Identifiers of the chosen enumeration values.
    Enumeration(Vec<String>),
}

/// `<ATTRIBUTE-VALUE-*>`: a value for the attribute definition it names.
#[derive(Debug, Clone, PartialEq, Eq)]
pub struct AttributeValue {
    /// Identifier of the attribute definition.
    pub definition: String,
    pub data: AttributeData,
}

/// `<SPEC-OBJECT>`.
#[derive(Debug, Clone, PartialEq, Eq)]
pub struct SpecObject {
    pub identifier: String,
    pub long_name: Option<String>,
    /// Identifier of its spec object type.
    pub spec_type: String,
    pub values: Vec<AttributeValue>,
}

/// `<SPEC-RELATION>`.
#[derive(Debug, Clone, PartialEq, Eq)]
pub struct SpecRelation {
    pub identifier: String,
    pub long_name: Option<String>,
    /// Identifier of its spec relation type.
    pub relation_type: String,
    pub source: String,
    pub target: String,
}

/// `<REQ-IF-CONTENT>`.
#[derive(Debug, Clone, PartialEq, Eq)]
pub struct ReqIfContent {
    pub data_types: Vec<DataTypeDefinition>,
    pub spec_types: Vec<SpecType>,
    pub spec_objects: Vec<SpecObject>,
    pub spec_relations: Vec<SpecRelation>,
}

/// `<REQ-IF-HEADER>`.
#[derive(Debug, Clone, PartialEq, Eq)]
pub struct ReqIfHeader {
    pub identifier: String,
}

/// A ReqIF document: its declared encoding and namespace, its header and
/// its core content.
#[derive(Debug, Clone, PartialEq, Eq)]
pub struct ReqIfBundle {
    pub encoding: Option<String>,
    pub namespace: Option<String>,
    pub header: Option<ReqIfHeader>,
    pub content: Option<ReqIfContent>,
}

// ---------------------------------------------------------------------
// Views
// ---------------------------------------------------------------------

pub struct DataTypeV {
    pub kind: DatatypeKind,
    pub identifier: Seq<char>,
    pub long_name: Option<Seq<char>>,
}

pub struct AttributeDefinitionV {
    pub kind: DatatypeKind,
    pub identifier: Seq<char>,
    pub long_name: Option<Seq<char>>,
    pub datatype: Seq<char>,
}

pub struct SpecTypeV {
    pub kind: SpecTypeKind,
    pub identifier: Seq<char>,
    pub long_name: Option<Seq<char>>,
    pub attributes: Seq<AttributeDefinitionV>,
}

pub enum AttributeDataV {
    String(Seq<char>),
    Boolean(bool),
    Integer(Seq<char>),
    Real(Seq<char>),
    Date(Seq<char>),
    Xhtml(Seq<char>),
    Enumeration(Seq<Seq<char>>),
}

pub struct AttributeValueV {
    pub definition: Seq<char>,
    pub data: AttributeDataV,
}

pub struct SpecObjectV {
    pub identifier: Seq<char>,
    pub long_name: Option<Seq<char>>,
    pub spec_type: Seq<char>,
    pub values: Seq<AttributeValueV>,
}

pub struct SpecRelationV {
    pub identifier: Seq<char>,
    pub long_name: Option<Seq<char>>,
    pub relation_type: Seq<char>,
    pub source: Seq<char>,
    pub target: Seq<char>,
}

pub struct ContentV {
    pub data_types: Seq<DataTypeV>,
    pub spec_types: Seq<SpecTypeV>,
    pub spec_objects: Seq<SpecObjectV>,
    pub spec_relations: Seq<SpecRelationV>,
}

pub struct BundleV {
    pub encoding: Option<Seq<char>>,
    pub namespace: Option<Seq<char>>,
    pub header: Option<Seq<char>>,
    pub content: Option<ContentV>,
}

pub open spec fn opt_v(o: Option<String>) -> Option<Seq<char>> {
    match o {
        Some(s) => Some(s@),
        None => None,
    }
}

pub open spec fn data_type_v(d: DataTypeDefinition) -> DataTypeV {
    DataTypeV { kind: d.kind, identifier: d.identifier@, long_name: opt_v(d.long_name) }
}

pub open spec fn attribute_definition_v(d: AttributeDefinition) -> AttributeDefinitionV {
    AttributeDefinitionV { kind: d.kind, identifier: d.identifier@, long_name: opt_v(d.long_name), datatype: d.datatype@ }
}

pub open spec fn spec_type_v(t: SpecType) -> SpecTypeV {
    SpecTypeV {
        kind: t.kind,
        identifier: t.identifier@,
        long_name: opt_v(t.long_name),
        attributes: t.attributes@.map_values(|d: AttributeDefinition| attribute_definition_v(d)),
    }
}

pub open spec fn attribute_data_v(d: AttributeData) -> AttributeDataV {
    match d {
        AttributeData::String(s) => AttributeDataV::String(s@),
        AttributeData::Boolean(b) => AttributeDataV::Boolean(b),
        AttributeData::Integer(s) => AttributeDataV::Integer(s@),
        AttributeData::Real(s) => AttributeDataV::Real(s@),
        AttributeData::Date(s) => AttributeDataV::Date(s@),
        AttributeData::Xhtml(s) => AttributeDataV::Xhtml(s@),
        AttributeData::Enumeration(ids) => AttributeDataV::Enumeration(ids@.map_values(|s: String| s@)),
    }
}

pub open spec fn attribute_value_v(v: AttributeValue) -> AttributeValueV {
    AttributeValueV { definition: v.definition@, data: attribute_data_v(v.data) }
}

pub open spec fn spec_object_v(o: SpecObject) -> SpecObjectV {
    SpecObjectV {
        identifier: o.identifier@,
        long_name: opt_v(o.long_name),
        spec_type: o.spec_type@,
        values: o.values@.map_values(|v: AttributeValue| attribute_value_v(v)),
    }
}

pub open spec fn spec_relation_v(r: SpecRelation) -> SpecRelationV {
    SpecRelationV {
        identifier: r.identifier@,
        long_name: opt_v(r.long_name),
        relation_type: r.relation_type@,
        source: r.source@,
        target: r.target@,
    }
}

pub open spec fn content_v(c: ReqIfContent) -> ContentV {
    ContentV {
        data_types: c.data_types@.map_values(|d: DataTypeDefinition| data_type_v(d)),
        spec_types: c.spec_types@.map_values(|t: SpecType| spec_type_v(t)),
        spec_objects: c.spec_objects@.map_values(|o: SpecObject| spec_object_v(o)),
        spec_relations: c.spec_relations@.map_values(|r: SpecRelation| spec_relation_v(r)),
    }
}

pub open spec fn bundle_v(b: ReqIfBundle) -> BundleV {
    BundleV {
        encoding: opt_v(b.encoding),
        namespace: opt_v(b.namespace),
        header: match b.header {
            Some(h) => Some(h.identifier@),
            None => None,
        },
        content: match b.content {
            Some(c) => Some(content_v(c)),
            None => None,
        },
    }
}

} // verus!
