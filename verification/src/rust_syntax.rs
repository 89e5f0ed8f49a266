//! Parsed Rust syntax as the parser reports it, and its reading into the
//! recognizer's summaries: a type is read through references, arrays,
//! parentheses and groups to its path's last segment and that segment's
//! type arguments; an impl's trait and self type are read by their paths'
//! last segments; a call site counts when its callee is a single-segment
//! path without a qualified self; a `use` item yields the leading segment of
//! each of its trees, through groups.
use vstd::prelude::*;

use crate::rust_recognizer::{recognize_files, Edge, Node, RustFile, RustItem, RustType};

verus! {

/// One segment of a path, with the type arguments in its angle brackets.
pub struct SynSegment {
    pub ident: String,
    pub type_args: Vec<SynType>,
}

/// A type as written.
pub enum SynType {
    Path(Vec<SynSegment>),
    Reference(Box<SynType>),
    Array(Box<SynType>),
    Paren(Box<SynType>),
    Group(Box<SynType>),
    Other,
}

/// A `use` tree.
pub enum SynUse {
    Path { ident: String, rest: Box<SynUse> },
    Group(Vec<SynUse>),
    Name,
    Rename,
    Glob,
}

/// The callee path of a call expression whose callee is a path.
pub struct SynCall {
    pub qualified_self: bool,
    pub segments: Vec<String>,
}

/// An item as written, with the items nested inside it in source order.
pub enum SynItem {
    Mod { name: String, items: Vec<SynItem> },
    Struct { name: String, field_types: Vec<SynType>, nested: Vec<SynItem> },
    /// An enum and each variant's field types.
    Enum { name: String, variants: Vec<Vec<SynType>>, nested: Vec<SynItem> },
    Trait { name: String, nested: Vec<SynItem> },
    /// A free function and the path calls in its body (nested `fn` items
    /// excluded), in source order.
    Fn { name: String, calls: Vec<SynCall>, nested: Vec<SynItem> },
    /// An impl block: whether it has generic parameters, its trait's path
    /// (none for an inherent impl) and its self type.
    Impl { generic: bool, trait_path: Option<Vec<String>>, self_type: SynType, nested: Vec<SynItem> },
    Use(SynUse),
    Other { nested: Vec<SynItem> },
}

/// A parsed source file.
pub struct SynFile {
    pub items: Vec<SynItem>,
}

#[verifier::external_type_specification]
#[verifier::external_body]
pub struct ExRustSourceFile(syn::File);

/// Whether `syn::parse_file` accepts the source text as a Rust file.
pub uninterp spec fn rust_source_parses(source: Seq<char>) -> bool;

/// `syn::parse_file`: parses the whole text as one Rust source file, or
/// fails with a syntax error. Whether it succeeds depends on the text
/// alone; the error is rendered by its `Display`. What the tree holds is
/// not stated here: its walk into [`SynFile`] is done by the caller.
#[verifier::external_body]
fn parse_file_text(source: &str) -> (r: Result<syn::File, String>)
    ensures
        r is Ok <==> rust_source_parses(source@),
{
    match syn::parse_file(source) {
        Ok(file) => Ok(file),
        Err(e) => Err(e.to_string()),
    }
}

/// Parses one source text as a Rust file; `Err` carries the syntax error's
/// message.
pub fn parse_rust_source(source: &str) -> (r: Result<syn::File, String>)
    ensures
        r is Ok <==> rust_source_parses(source@),
{
    parse_file_text(source)
}

// ---------------------------------------------------------------------
// Shapes
// ---------------------------------------------------------------------

/// What the recognizer reads of a type.
pub enum TypeShape {
    Path { name: Seq<char>, args: Seq<TypeShape> },
    Other,
}

/// What the recognizer reads of an item.
pub enum ItemShape {
    Mod { name: Seq<char>, items: Seq<ItemShape> },
    Struct { name: Seq<char>, field_types: Seq<TypeShape>, nested: Seq<ItemShape> },
    Enum { name: Seq<char>, field_types: Seq<TypeShape>, nested: Seq<ItemShape> },
    Trait { name: Seq<char>, nested: Seq<ItemShape> },
    Fn { name: Seq<char>, calls: Seq<Seq<char>>, nested: Seq<ItemShape> },
    Impl { generic: bool, trait_name: Option<Seq<char>>, self_type: Option<Seq<char>>, nested: Seq<ItemShape> },
    Use { roots: Seq<Seq<char>> },
    Other { nested: Seq<ItemShape> },
}

pub open spec fn rust_type_shape(t: RustType) -> TypeShape
    decreases t,
{
    match t {
        RustType::Path { name, args } => TypeShape::Path { name: name@, args: rust_types_shape(args@) },
        RustType::Other => TypeShape::Other,
    }
}

pub open spec fn rust_types_shape(ts: Seq<RustType>) -> Seq<TypeShape>
    decreases ts,
{
    if ts.len() == 0 {
        Seq::empty()
    } else {
        rust_types_shape(ts.drop_last()).push(rust_type_shape(ts.last()))
    }
}

pub open spec fn syn_type_shape(t: SynType) -> TypeShape
    decreases t,
{
    match t {
        SynType::Path(segs) => if segs@.len() == 0 {
            TypeShape::Other
        } else {
            let last = segs@[segs@.len() - 1];
            TypeShape::Path { name: last.ident@, args: syn_types_shape(last.type_args@) }
        },
        SynType::Reference(b) => syn_type_shape(*b),
        SynType::Array(b) => syn_type_shape(*b),
        SynType::Paren(b) => syn_type_shape(*b),
        SynType::Group(b) => syn_type_shape(*b),
        SynType::Other => TypeShape::Other,
    }
}

pub open spec fn syn_types_shape(ts: Seq<SynType>) -> Seq<TypeShape>
    decreases ts,
{
    if ts.len() == 0 {
        Seq::empty()
    } else {
        syn_types_shape(ts.drop_last()).push(syn_type_shape(ts.last()))
    }
}

pub open spec fn strings_v(v: Seq<String>) -> Seq<Seq<char>> {
    v.map_values(|s: String| s@)
}

pub open spec fn rust_item_shape(i: RustItem) -> ItemShape
    decreases i,
{
    match i {
        RustItem::Mod { name, items } => ItemShape::Mod { name: name@, items: rust_items_shape(items@) },
        RustItem::Struct { name, field_types, nested } => ItemShape::Struct {
            name: name@,
            field_types: rust_types_shape(field_types@),
            nested: rust_items_shape(nested@),
        },
        RustItem::Enum { name, field_types, nested } => ItemShape::Enum {
            name: name@,
            field_types: rust_types_shape(field_types@),
            nested: rust_items_shape(nested@),
        },
        RustItem::Trait { name, nested } => ItemShape::Trait { name: name@, nested: rust_items_shape(nested@) },
        RustItem::Fn { name, calls, nested } => ItemShape::Fn { name: name@, calls: strings_v(calls@), nested: rust_items_shape(nested@) },
        RustItem::Impl { generic, trait_name, self_type, nested } => ItemShape::Impl {
            generic,
            trait_name: crate::ontology::opt_string_view(trait_name),
            self_type: crate::ontology::opt_string_view(self_type),
            nested: rust_items_shape(nested@),
        },
        RustItem::Use { roots } => ItemShape::Use { roots: strings_v(roots@) },
        RustItem::Other { nested } => ItemShape::Other { nested: rust_items_shape(nested@) },
    }
}

pub open spec fn rust_items_shape(is: Seq<RustItem>) -> Seq<ItemShape>
    decreases is,
{
    if is.len() == 0 {
        Seq::empty()
    } else {
        rust_items_shape(is.drop_last()).push(rust_item_shape(is.last()))
    }
}

/// The leading segment of each tree of a `use` item, through groups.
pub open spec fn use_roots_spec(u: SynUse) -> Seq<Seq<char>>
    decreases u,
{
    match u {
        SynUse::Path { ident, .. } => seq![ident@],
        SynUse::Group(items) => uses_roots_spec(items@),
        _ => Seq::empty(),
    }
}

pub open spec fn uses_roots_spec(us: Seq<SynUse>) -> Seq<Seq<char>>
    decreases us,
{
    if us.len() == 0 {
        Seq::empty()
    } else {
        uses_roots_spec(us.drop_last()) + use_roots_spec(us.last())
    }
}

/// The callee name of a call that counts: one segment, no qualified self.
pub open spec fn call_name(c: SynCall) -> Seq<Seq<char>> {
    if !c.qualified_self && c.segments@.len() == 1 {
        seq![c.segments@[0]@]
    } else {
        Seq::empty()
    }
}

pub open spec fn last_segment(p: Option<Vec<String>>) -> Option<Seq<char>> {
    match p {
        Some(v) => if v@.len() > 0 { Some(v@[v@.len() - 1]@) } else { None },
        None => None,
    }
}

/// The simple name of an impl's self type: its path's last segment when
/// it is a path type.
pub open spec fn self_type_name(t: SynType) -> Option<Seq<char>> {
    match t {
        SynType::Path(segs) => if segs@.len() > 0 { Some(segs@[segs@.len() - 1].ident@) } else { None },
        _ => None,
    }
}

pub open spec fn variants_shape(vs: Seq<Vec<SynType>>) -> Seq<TypeShape>
    decreases vs.len(),
{
    if vs.len() == 0 {
        Seq::empty()
    } else {
        variants_shape(vs.drop_last()) + syn_types_shape(vs.last()@)
    }
}

pub open spec fn syn_item_shape(i: SynItem) -> ItemShape
    decreases i,
{
    match i {
        SynItem::Mod { name, items } => ItemShape::Mod { name: name@, items: syn_items_shape(items@) },
        SynItem::Struct { name, field_types, nested } => ItemShape::Struct {
            name: name@,
            field_types: syn_types_shape(field_types@),
            nested: syn_items_shape(nested@),
        },
        SynItem::Enum { name, variants, nested } => ItemShape::Enum {
            name: name@,
            field_types: variants_shape(variants@),
            nested: syn_items_shape(nested@),
        },
        SynItem::Trait { name, nested } => ItemShape::Trait { name: name@, nested: syn_items_shape(nested@) },
        SynItem::Fn { name, calls, nested } => ItemShape::Fn {
            name: name@,
            calls: crate::text::flat_map(calls@, |c: SynCall| call_name(c)),
            nested: syn_items_shape(nested@),
        },
        SynItem::Impl { generic, trait_path, self_type, nested } => ItemShape::Impl {
            generic,
            trait_name: last_segment(trait_path),
            self_type: self_type_name(self_type),
            nested: syn_items_shape(nested@),
        },
        SynItem::Use(u) => ItemShape::Use { roots: use_roots_spec(u) },
        SynItem::Other { nested } => ItemShape::Other { nested: syn_items_shape(nested@) },
    }
}

pub open spec fn syn_items_shape(is: Seq<SynItem>) -> Seq<ItemShape>
    decreases is,
{
    if is.len() == 0 {
        Seq::empty()
    } else {
        syn_items_shape(is.drop_last()).push(syn_item_shape(is.last()))
    }
}

// ---------------------------------------------------------------------
// Reading syntax into summaries
// ---------------------------------------------------------------------

/// The recognizer's reading of a type (see [`syn_type_shape`]).
pub fn convert_type(t: &SynType) -> (r: RustType)
    ensures
        rust_type_shape(r) == syn_type_shape(*t),
    decreases t,
{
    match t {
        SynType::Path(segs) => {
            if segs.len() == 0 {
                RustType::Other
            } else {
                let last = &segs[segs.len() - 1];
                let args = convert_types(&last.type_args);
                RustType::Path { name: last.ident.clone(), args }
            }
        },
        SynType::Reference(b) => convert_type(b),
        SynType::Array(b) => convert_type(b),
        SynType::Paren(b) => convert_type(b),
        SynType::Group(b) => convert_type(b),
        SynType::Other => RustType::Other,
    }
}

pub fn convert_types(ts: &Vec<SynType>) -> (r: Vec<RustType>)
    ensures
        rust_types_shape(r@) == syn_types_shape(ts@),
    decreases ts,
{
    let mut out: Vec<RustType> = Vec::new();
    let mut i: usize = 0;
    assert(ts@.take(0) =~= Seq::<SynType>::empty());
    while i < ts.len()
        invariant
            i <= ts@.len(),
            out@.len() == i,
            rust_types_shape(out@) == syn_types_shape(ts@.take(i as int)),
        decreases ts@.len() - i,
    {
        let t = convert_type(&ts[i]);
        let ghost before = out@;
        out.push(t);
        assert(out@.drop_last() =~= before);
        assert(ts@.take(i + 1).drop_last() =~= ts@.take(i as int));
        i = i + 1;
    }
    assert(ts@.take(ts@.len() as int) =~= ts@);
    out
}

fn push_roots(u: &SynUse, out: &mut Vec<String>)
    ensures
        strings_v(final(out)@) == strings_v(old(out)@) + use_roots_spec(*u),
    decreases u,
{
    match u {
        SynUse::Path { ident, .. } => {
            out.push(ident.clone());
            assert(strings_v(out@) =~= strings_v(old(out)@) + use_roots_spec(*u));
        },
        SynUse::Group(items) => {
            push_all_roots(items, out);
        },
        _ => {
            assert(strings_v(out@) =~= strings_v(old(out)@) + use_roots_spec(*u));
        },
    }
}

fn push_all_roots(items: &Vec<SynUse>, out: &mut Vec<String>)
    ensures
        strings_v(final(out)@) == strings_v(old(out)@) + uses_roots_spec(items@),
    decreases items,
{
    let ghost o0 = strings_v(out@);
    let mut i: usize = 0;
    assert(items@.take(0) =~= Seq::<SynUse>::empty());
    while i < items.len()
        invariant
            i <= items@.len(),
            strings_v(out@) == o0 + uses_roots_spec(items@.take(i as int)),
        decreases items@.len() - i,
    {
        push_roots(&items[i], out);
        assert(items@.take(i + 1).drop_last() =~= items@.take(i as int));
        assert(strings_v(out@) =~= o0 + uses_roots_spec(items@.take(i + 1)));
        i = i + 1;
    }
    assert(items@.take(items@.len() as int) =~= items@);
}

fn call_names(calls: &Vec<SynCall>) -> (r: Vec<String>)
    ensures
        strings_v(r@) == crate::text::flat_map(calls@, |c: SynCall| call_name(c)),
{
    let ghost f = |c: SynCall| call_name(c);
    let mut out: Vec<String> = Vec::new();
    let mut i: usize = 0;
    assert(strings_v(out@) =~= crate::text::flat_map(calls@.take(0), f));
    while i < calls.len()
        invariant
            i <= calls@.len(),
            f == (|c: SynCall| call_name(c)),
            strings_v(out@) == crate::text::flat_map(calls@.take(i as int), f),
        decreases calls@.len() - i,
    {
        proof { crate::text::lemma_flat_map_step(calls@, i as int, f); }
        let c = &calls[i];
        let ghost before = strings_v(out@);
        if !c.qualified_self && c.segments.len() == 1 {
            out.push(c.segments[0].clone());
        }
        assert(strings_v(out@) =~= before + f(calls@[i as int]));
        i = i + 1;
    }
    assert(calls@.take(calls@.len() as int) =~= calls@);
    out
}

fn variant_field_types(variants: &Vec<Vec<SynType>>) -> (r: Vec<RustType>)
    ensures
        rust_types_shape(r@) == variants_shape(variants@),
{
    let mut out: Vec<RustType> = Vec::new();
    let mut i: usize = 0;
    assert(rust_types_shape(out@) =~= variants_shape(variants@.take(0)));
    while i < variants.len()
        invariant
            i <= variants@.len(),
            rust_types_shape(out@) == variants_shape(variants@.take(i as int)),
        decreases variants@.len() - i,
    {
        let ghost o0 = out@;
        let v = &variants[i];
        let mut j: usize = 0;
        assert(v@.take(0) =~= Seq::<SynType>::empty());
        while j < v.len()
            invariant
                j <= v@.len(),
                out@.len() == o0.len() + j,
                out@.take(o0.len() as int) == o0,
                rust_types_shape(out@) == rust_types_shape(o0) + syn_types_shape(v@.take(j as int)),
            decreases v@.len() - j,
        {
            let t = convert_type(&v[j]);
            let ghost before = out@;
            out.push(t);
            assert(out@.drop_last() =~= before);
            assert(out@.take(o0.len() as int) =~= before.take(o0.len() as int));
            assert(v@.take(j + 1).drop_last() =~= v@.take(j as int));
            assert(rust_types_shape(out@) =~= rust_types_shape(o0) + syn_types_shape(v@.take(j + 1)));
            j = j + 1;
        }
        assert(v@.take(v@.len() as int) =~= v@);
        assert(variants@.take(i + 1).drop_last() =~= variants@.take(i as int));
        assert(variants@.take(i + 1).last() == variants@[i as int]);
        i = i + 1;
    }
    assert(variants@.take(variants@.len() as int) =~= variants@);
    out
}

fn last_of(p: &Option<Vec<String>>) -> (r: Option<String>)
    ensures
        crate::ontology::opt_string_view(r) == last_segment(*p),
{
    match p {
        Some(v) => if v.len() > 0 { Some(v[v.len() - 1].clone()) } else { None },
        None => None,
    }
}

fn self_name(t: &SynType) -> (r: Option<String>)
    ensures
        crate::ontology::opt_string_view(r) == self_type_name(*t),
{
    match t {
        SynType::Path(segs) => if segs.len() > 0 { Some(segs[segs.len() - 1].ident.clone()) } else { None },
        _ => None,
    }
}

/// The recognizer's reading of an item (see [`syn_item_shape`]).
pub fn convert_item(i: &SynItem) -> (r: RustItem)
    ensures
        rust_item_shape(r) == syn_item_shape(*i),
    decreases i,
{
    match i {
        SynItem::Mod { name, items } => RustItem::Mod { name: name.clone(), items: convert_items(items) },
        SynItem::Struct { name, field_types, nested } => RustItem::Struct {
            name: name.clone(),
            field_types: convert_types(field_types),
            nested: convert_items(nested),
        },
        SynItem::Enum { name, variants, nested } => RustItem::Enum {
            name: name.clone(),
            field_types: variant_field_types(variants),
            nested: convert_items(nested),
        },
        SynItem::Trait { name, nested } => RustItem::Trait { name: name.clone(), nested: convert_items(nested) },
        SynItem::Fn { name, calls, nested } => RustItem::Fn { name: name.clone(), calls: call_names(calls), nested: convert_items(nested) },
        SynItem::Impl { generic, trait_path, self_type, nested } => RustItem::Impl {
            generic: *generic,
            trait_name: last_of(trait_path),
            self_type: self_name(self_type),
            nested: convert_items(nested),
        },
        SynItem::Use(u) => {
            let mut roots: Vec<String> = Vec::new();
            push_roots(u, &mut roots);
            assert(strings_v(roots@) =~= use_roots_spec(*u));
            RustItem::Use { roots }
        },
        SynItem::Other { nested } => RustItem::Other { nested: convert_items(nested) },
    }
}

pub fn convert_items(is: &Vec<SynItem>) -> (r: Vec<RustItem>)
    ensures
        rust_items_shape(r@) == syn_items_shape(is@),
    decreases is,
{
    let mut out: Vec<RustItem> = Vec::new();
    let mut i: usize = 0;
    assert(is@.take(0) =~= Seq::<SynItem>::empty());
    while i < is.len()
        invariant
            i <= is@.len(),
            rust_items_shape(out@) == syn_items_shape(is@.take(i as int)),
        decreases is@.len() - i,
    {
        let it = convert_item(&is[i]);
        let ghost before = out@;
        out.push(it);
        assert(out@.drop_last() =~= before);
        assert(is@.take(i + 1).drop_last() =~= is@.take(i as int));
        i = i + 1;
    }
    assert(is@.take(is@.len() as int) =~= is@);
    out
}

/// The recognizer's reading of a parsed file.
pub fn convert_file(f: &SynFile) -> (r: RustFile)
    ensures
        rust_items_shape(r.items@) == syn_items_shape(f.items@),
{
    RustFile { items: convert_items(&f.items) }
}

/// Reads every parsed file and recognizes them against one shared name
/// table (see [`recognize_files`]).
pub fn recognize_syntax(files: &[SynFile]) -> (r: (Vec<Node>, Vec<Edge>))
    ensures
        exists|rf: Seq<RustFile>| {
            &&& rf.len() == files@.len()
            &&& forall|i: int| 0 <= i < rf.len() ==> rust_items_shape((#[trigger] rf[i]).items@) == syn_items_shape(files@[i].items@)
            &&& crate::rust_recognizer::nodes_v(r.0@) == crate::rust_recognizer::add_nodes(Seq::empty(),
                crate::rust_recognizer::files_node_events(rf, crate::rust_recognizer::files_type_decls(rf)))
            &&& crate::rust_recognizer::edges_v(r.1@) == crate::rust_recognizer::edge_records(
                crate::rust_recognizer::files_edge_events(rf, crate::rust_recognizer::files_type_decls(rf),
                crate::rust_recognizer::files_fn_decls(rf)))
        },
{
    let mut converted: Vec<RustFile> = Vec::new();
    let mut i: usize = 0;
    while i < files.len()
        invariant
            i <= files@.len(),
            converted@.len() == i,
            forall|k: int| 0 <= k < i ==> rust_items_shape((#[trigger] converted@[k]).items@) == syn_items_shape(files@[k].items@),
        decreases files@.len() - i,
    {
        let f = convert_file(&files[i]);
        converted.push(f);
        i = i + 1;
    }
    let r = recognize_files(converted.as_slice());
    assert(converted@.len() == files@.len());
    r
}

} // verus!
