//! What the harvester computes from a parsed item: display signatures with
//! attribute noise removed and whitespace collapsed, module-qualified names,
//! joined doc comments, the complexity heuristic and the symbol record.
//!
//! Which items of a parsed file become symbols is decided here too: the
//! caller walks the parsed tree and hands over each item as written (its
//! kind, visibility, token text, attributes and the items inside it), and
//! [`harvest_file`] keeps the public ones, qualified by their modules.
use vstd::prelude::*;

use crate::docgen::{Symbol, SymbolKind};
use crate::text::{is_whitespace, is_ws, join, str_eq, lemma_split_on_nonempty, lines, occurs_at, occurs_at_exec, push_char, push_chars, push_joined, push_str, split_lines, split_on, str_chars};

verus! {

// ---------------------------------------------------------------------
// Substring search and attribute stripping
// ---------------------------------------------------------------------

/// First position `>= i` where `needle` occurs in `hay` (`str::find` from `i`).
pub open spec fn find_from(hay: Seq<char>, needle: Seq<char>, i: int) -> Option<int>
    decreases hay.len() + 1 - i,
{
    if i < 0 || i + needle.len() > hay.len() {
        None
    } else if occurs_at(hay, needle, i) {
        Some(i)
    } else {
        find_from(hay, needle, i + 1)
    }
}

pub proof fn lemma_find_from(hay: Seq<char>, needle: Seq<char>, i: int)
    requires
        0 <= i,
    ensures
        match find_from(hay, needle, i) {
            Some(k) => i <= k && k + needle.len() <= hay.len() && occurs_at(hay, needle, k)
                && forall|j: int| i <= j < k ==> !occurs_at(hay, needle, j),
            None => forall|j: int| i <= j ==> !occurs_at(hay, needle, j),
        },
    decreases hay.len() + 1 - i,
{
    if !(i + needle.len() > hay.len()) && !occurs_at(hay, needle, i) {
        lemma_find_from(hay, needle, i + 1);
        assert(find_from(hay, needle, i) == find_from(hay, needle, i + 1));
    }
}

/// `str::find` of `needle` in `hay[from..]`, as an absolute position.
pub fn find_chars_from(hay: &[char], needle: &[char], from: usize) -> (r: Option<usize>)
    ensures
        match r {
            Some(k) => find_from(hay@, needle@, from as int) == Some(k as int),
            None => find_from(hay@, needle@, from as int) is None,
        },
{
    if needle.len() > hay.len() || from > hay.len() - needle.len() {
        proof { lemma_find_from(hay@, needle@, from as int); }
        return None;
    }
    let limit = hay.len() - needle.len();
    let mut j = from;
    while j < limit
        invariant
            from <= j <= limit,
            limit + needle@.len() == hay@.len(),
            find_from(hay@, needle@, from as int) == find_from(hay@, needle@, j as int),
        decreases limit - j,
    {
        if occurs_at_exec(hay, needle, j) {
            return Some(j);
        }
        j = j + 1;
    }
    if occurs_at_exec(hay, needle, j) {
        Some(j)
    } else {
        assert(find_from(hay@, needle@, j + 1) is None);
        None
    }
}

/// Every `pat ... ]` span removed, leftmost first, until `pat` no longer
/// occurs or no `]` follows it.
pub open spec fn strip_spans(s: Seq<char>, pat: Seq<char>) -> Seq<char>
    decreases s.len(),
{
    match find_from(s, pat, 0) {
        None => s,
        Some(st) => match find_from(s, seq![']'], st) {
            None => s,
            Some(e) => if 0 <= st <= e < s.len() {
                strip_spans(s.take(st) + s.skip(e + 1), pat)
            } else {
                s
            },
        },
    }
}

/// `#[...]` and `# [...]` attribute text removed from a token string.
pub open spec fn strip_attrs_spec(s: Seq<char>) -> Seq<char> {
    strip_spans(strip_spans(s, seq!['#', ' ', '[']), seq!['#', '['])
}

fn strip_spans_exec(s: Vec<char>, pat: &[char]) -> (r: Vec<char>)
    ensures
        r@ == strip_spans(s@, pat@),
{
    let mut close: Vec<char> = Vec::new();
    close.push(']');
    assert(close@ =~= seq![']']);
    let mut out = s;
    loop
        invariant
            close@ == seq![']'],
            strip_spans(out@, pat@) == strip_spans(s@, pat@),
        decreases out@.len(),
    {
        let start = match find_chars_from(out.as_slice(), pat, 0) {
            Some(k) => k,
            None => {
                return out;
            },
        };
        proof { lemma_find_from(out@, pat@, 0); }
        let end = match find_chars_from(out.as_slice(), close.as_slice(), start) {
            Some(k) => k,
            None => {
                assert(close@ == seq![']']);
                return out;
            },
        };
        proof { lemma_find_from(out@, close@, start as int); }
        assert(find_from(out@, close@, start as int) == Some(end as int));
        let total = out.len();
        assert(end + 1 <= total);
        let mut next: Vec<char> = Vec::new();
        let mut i: usize = 0;
        while i < start
            invariant
                i <= start <= end < out@.len(),
                next@ == out@.take(i as int),
            decreases start - i,
        {
            next.push(out[i]);
            assert(out@.take(i + 1) =~= out@.take(i as int).push(out@[i as int]));
            i = i + 1;
        }
        let mut j: usize = end + 1;
        while j < out.len()
            invariant
                start <= end < j <= out@.len(),
                next@ == out@.take(start as int) + out@.subrange(end + 1, j as int),
            decreases out@.len() - j,
        {
            next.push(out[j]);
            assert(out@.subrange(end + 1, j + 1) =~= out@.subrange(end + 1, j as int).push(out@[j as int]));
            j = j + 1;
        }
        assert(next@ =~= out@.take(start as int) + out@.skip(end + 1));
        out = next;
    }
}

/// Strips `#[...]` and `# [...]` attribute noise from a token string.
pub fn strip_outer_attrs(s: &str) -> (r: String)
    ensures
        r@ == strip_attrs_spec(s@),
{
    let v = str_chars(s);
    let mut spaced: Vec<char> = Vec::new();
    spaced.push('#');
    spaced.push(' ');
    spaced.push('[');
    let mut tight: Vec<char> = Vec::new();
    tight.push('#');
    tight.push('[');
    assert(spaced@ =~= seq!['#', ' ', '[']);
    assert(tight@ =~= seq!['#', '[']);
    let a = strip_spans_exec(v, spaced.as_slice());
    let b = strip_spans_exec(a, tight.as_slice());
    assert(spaced@ == seq!['#', ' ', '[']);
    assert(tight@ == seq!['#', '[']);
    let mut out = String::new();
    push_chars(&mut out, b.as_slice(), 0, b.len());
    assert(b@.subrange(0, b@.len() as int) =~= b@);
    out
}

// ---------------------------------------------------------------------
// Whitespace collapsing
// ---------------------------------------------------------------------

/// The maximal runs of non-whitespace characters (`str::split_whitespace`).
pub open spec fn words(s: Seq<char>) -> Seq<Seq<char>>
    decreases s.len(),
{
    if s.len() == 0 {
        Seq::empty()
    } else {
        let w = words(s.drop_last());
        let c = s.last();
        if is_ws(c) {
            w
        } else if s.len() >= 2 && !is_ws(s[s.len() - 2]) {
            w.update(w.len() - 1, w.last().push(c))
        } else {
            w.push(seq![c])
        }
    }
}

pub proof fn lemma_words_nonempty(s: Seq<char>)
    requires
        s.len() > 0,
        !is_ws(s.last()),
    ensures
        words(s).len() > 0,
    decreases s.len(),
{
    if s.len() >= 2 && !is_ws(s[s.len() - 2]) {
        lemma_words_nonempty(s.drop_last());
    }
}

proof fn lemma_join_extend_last(parts: Seq<Seq<char>>, sep: Seq<char>, c: char)
    requires
        parts.len() > 0,
    ensures
        join(parts.update(parts.len() - 1, parts.last().push(c)), sep) == join(parts, sep).push(c),
{
    let q = parts.update(parts.len() - 1, parts.last().push(c));
    if parts.len() == 1 {
    } else {
        assert(q.drop_last() =~= parts.drop_last());
    }
}

proof fn lemma_join_push(parts: Seq<Seq<char>>, sep: Seq<char>, w: Seq<char>)
    ensures
        join(parts.push(w), sep) == if parts.len() == 0 { w } else { join(parts, sep) + sep + w },
{
    assert(parts.push(w).drop_last() =~= parts);
}

/// Whitespace runs collapsed to single spaces, ends trimmed
/// (`split_whitespace().collect::<Vec<_>>().join(" ")`).
pub open spec fn collapse_ws(s: Seq<char>) -> Seq<char> {
    join(words(s), seq![' '])
}

/// Collapses whitespace runs to one space and trims both ends.
pub fn collapse_whitespace(s: &str) -> (r: String)
    ensures
        r@ == collapse_ws(s@),
{
    let v = str_chars(s);
    let mut out = String::new();
    let mut any = false;
    let mut i: usize = 0;
    while i < v.len()
        invariant
            i <= v@.len(),
            out@ == join(words(v@.take(i as int)), seq![' ']),
            any <==> words(v@.take(i as int)).len() > 0,
        decreases v@.len() - i,
    {
        let c = v[i];
        let ghost t = v@.take(i as int);
        let ghost t1 = v@.take(i + 1);
        assert(t1.drop_last() =~= t);
        assert(t1.last() == c);
        if is_whitespace(c) {
        } else if i > 0 && !is_whitespace(v[i - 1]) {
            assert(t1[t1.len() - 2] == v@[i - 1]);
            proof {
                lemma_words_nonempty(t);
                lemma_join_extend_last(words(t), seq![' '], c);
            }
            push_char(&mut out, c);
        } else {
            proof {
                if i > 0 {
                    assert(t1[t1.len() - 2] == v@[i - 1]);
                }
                lemma_join_push(words(t), seq![' '], seq![c]);
            }
            if any {
                push_char(&mut out, ' ');
            }
            push_char(&mut out, c);
            any = true;
            assert(out@ =~= join(words(t1), seq![' ']));
        }
        i = i + 1;
    }
    assert(v@.take(v@.len() as int) =~= v@);
    out
}

/// The display form of an item's token text: attributes removed, then
/// whitespace collapsed.
pub fn signature_text(tokens: &str) -> (r: String)
    ensures
        r@ == collapse_ws(strip_attrs_spec(tokens@)),
{
    let stripped = strip_outer_attrs(tokens);
    collapse_whitespace(stripped.as_str())
}

// ---------------------------------------------------------------------
// Names, docs, complexity
// ---------------------------------------------------------------------

pub open spec fn strings_view(v: Seq<String>) -> Seq<Seq<char>> {
    v.map_values(|s: String| s@)
}

/// `module::path::name`.
pub open spec fn qualified_name_spec(modules: Seq<String>, name: Seq<char>) -> Seq<char> {
    join(strings_view(modules).push(name), "::"@)
}

/// The name qualified by the enclosing module path, joined with `::`.
pub fn qualified_name(modules: &[String], name: &str) -> (r: String)
    ensures
        r@ == qualified_name_spec(modules@, name@),
{
    let mut parts: Vec<&str> = Vec::new();
    let mut i: usize = 0;
    while i < modules.len()
        invariant
            i <= modules@.len(),
            parts@.map_values(|p: &str| p@) == strings_view(modules@.take(i as int)),
        decreases modules@.len() - i,
    {
        parts.push(modules[i].as_str());
        assert(strings_view(modules@.take(i + 1)) =~= strings_view(modules@.take(i as int)).push(modules@[i as int]@));
        assert(parts@.map_values(|p: &str| p@) =~= strings_view(modules@.take(i as int)).push(modules@[i as int]@));
        i = i + 1;
    }
    assert(modules@.take(modules@.len() as int) =~= modules@);
    parts.push(name);
    assert(parts@.map_values(|p: &str| p@) =~= strings_view(modules@).push(name@));
    let mut out = String::new();
    push_joined(&mut out, &parts, "::");
    out
}

/// The doc-comment strings of an item joined with newlines.
pub fn join_doc_lines(doc_lines: &[String]) -> (r: String)
    ensures
        r@ == join(strings_view(doc_lines@), "\n"@),
{
    let mut parts: Vec<&str> = Vec::new();
    let mut i: usize = 0;
    while i < doc_lines.len()
        invariant
            i <= doc_lines@.len(),
            parts@.map_values(|p: &str| p@) == strings_view(doc_lines@.take(i as int)),
        decreases doc_lines@.len() - i,
    {
        parts.push(doc_lines[i].as_str());
        assert(strings_view(doc_lines@.take(i + 1)) =~= strings_view(doc_lines@.take(i as int)).push(doc_lines@[i as int]@));
        assert(parts@.map_values(|p: &str| p@) =~= strings_view(doc_lines@.take(i as int)).push(doc_lines@[i as int]@));
        i = i + 1;
    }
    assert(doc_lines@.take(doc_lines@.len() as int) =~= doc_lines@);
    let mut out = String::new();
    push_joined(&mut out, &parts, "\n");
    out
}

proof fn lemma_split_on_len(s: Seq<char>, c: char)
    ensures
        split_on(s, c).len() <= s.len() + 1,
    decreases s.len(),
{
    if s.len() > 0 {
        lemma_split_on_len(s.drop_last(), c);
        lemma_split_on_nonempty(s.drop_last(), c);
        let prev = split_on(s.drop_last(), c);
        if s.last() == c {
            assert(split_on(s, c) == prev.push(Seq::<char>::empty()));
        } else {
            assert(split_on(s, c) == prev.update(prev.len() - 1, prev.last().push(s.last())));
        }
    }
}

pub proof fn lemma_lines_len(s: Seq<char>)
    ensures
        lines(s).len() <= s.len() + 1,
{
    lemma_split_on_len(s, '\n');
    lemma_split_on_nonempty(s, '\n');
}

/// The complexity heuristic: doc-comment lines plus signature lines.
pub open spec fn complexity_spec(docstring: Seq<char>, signature: Seq<char>) -> nat {
    lines(docstring).len() + lines(signature).len()
}

/// Number of lines of the doc comment plus number of lines of the signature.
pub fn complexity(docstring: &str, signature: &str) -> (r: u64)
    requires
        docstring@.len() + signature@.len() + 2 <= u64::MAX,
    ensures
        r == complexity_spec(docstring@, signature@),
{
    let d = split_lines(str_chars(docstring).as_slice());
    let s = split_lines(str_chars(signature).as_slice());
    proof {
        lemma_lines_len(docstring@);
        lemma_lines_len(signature@);
        assert(d@.len() == lines(docstring@).len());
        assert(s@.len() == lines(signature@).len());
    }
    (d.len() as u64) + (s.len() as u64)
}

/// The record for one public item: its module-qualified name, the joined
/// doc comment and the complexity heuristic; no start line.
pub fn make_symbol(
    modules: &[String],
    relative_path: &str,
    name: &str,
    kind: SymbolKind,
    signature: String,
    return_type: String,
    doc_lines: &[String],
) -> (r: Symbol)
    requires
        join(strings_view(doc_lines@), "\n"@).len() + signature@.len() + 2 <= u64::MAX,
    ensures
        r.name@ == name@,
        r.qualified_name@ == qualified_name_spec(modules@, name@),
        r.file_path@ == relative_path@,
        r.kind == kind,
        r.signature@ == signature@,
        r.return_type@ == return_type@,
        r.start_line is None,
        r.docstring@ == join(strings_view(doc_lines@), "\n"@),
        r.complexity == Some(complexity_spec(r.docstring@, signature@) as u64),
{
    let docstring = join_doc_lines(doc_lines);
    let c = complexity(docstring.as_str(), signature.as_str());
    let mut n = String::new();
    push_str(&mut n, name);
    let mut fp = String::new();
    push_str(&mut fp, relative_path);
    Symbol {
        name: n,
        qualified_name: qualified_name(modules, name),
        file_path: fp,
        kind,
        signature,
        return_type,
        start_line: None,
        complexity: Some(c),
        docstring,
    }
}


// ---------------------------------------------------------------------
// Walking a parsed file
// ---------------------------------------------------------------------

/// An outer attribute as written: its path's segments and, for the
/// `#[path = "literal"]` form, the string literal's value.
pub struct AttrSyntax {
    pub path: Vec<String>,
    pub string_value: Option<String>,
}

/// An item as the parser's walk meets it.
pub struct ItemSyntax {
    /// The symbol kind the item would be harvested as; `None` for items
    /// that are never harvested (impls, `use`, macro invocations, ...).
    pub kind: Option<SymbolKind>,
    pub name: String,
    /// Whether the item is declared `pub`.
    pub public: bool,
    /// The token text of the item, or of its signature for a function.
    pub tokens: String,
    /// The token text of a function's return type (empty otherwise).
    pub output_tokens: String,
    pub attrs: Vec<AttrSyntax>,
    /// The items met inside this one, in source order (not looking inside
    /// those).
    pub nested: Vec<ItemSyntax>,
}

/// A doc comment line: an attribute `#[doc = "..."]`.
pub open spec fn is_doc_attr(a: AttrSyntax) -> bool {
    a.path@.len() == 1 && a.path@[0]@ == "doc"@ && a.string_value is Some
}

/// The doc comment lines among an item's attributes, in order.
pub open spec fn doc_lines_of(attrs: Seq<AttrSyntax>) -> Seq<Seq<char>>
    decreases attrs.len(),
{
    if attrs.len() == 0 {
        Seq::empty()
    } else {
        let prev = doc_lines_of(attrs.drop_last());
        if is_doc_attr(attrs.last()) {
            prev.push(attrs.last().string_value->0@)
        } else {
            prev
        }
    }
}

/// The displayed signature of a harvested item: `pub mod name` for a
/// module, `pub ` and the signature text for a function, the item's text
/// otherwise.
pub open spec fn item_signature(d: ItemSyntax) -> Seq<char> {
    if d.kind == Some(SymbolKind::Mod) {
        "pub mod "@ + d.name@
    } else if d.kind == Some(SymbolKind::Function) {
        "pub "@ + collapse_ws(strip_attrs_spec(d.tokens@))
    } else {
        collapse_ws(strip_attrs_spec(d.tokens@))
    }
}

/// The displayed return type: a function's, empty for other items.
pub open spec fn item_return_type(d: ItemSyntax) -> Seq<char> {
    if d.kind == Some(SymbolKind::Function) {
        collapse_ws(strip_attrs_spec(d.output_tokens@))
    } else {
        Seq::empty()
    }
}

pub open spec fn item_docstring(d: ItemSyntax) -> Seq<char> {
    join(doc_lines_of(d.attrs@), "\n"@)
}

/// Whether the item's own symbol is harvested: a public item of a harvested
/// kind (whose doc and signature lengths fit the complexity count).
pub open spec fn harvests_itself(d: ItemSyntax) -> bool {
    &&& d.public
    &&& d.kind is Some
    &&& item_docstring(d).len() + item_signature(d).len() + 2 <= u64::MAX
}

/// What a harvested symbol holds, before the file path is attached.
pub struct SymbolSpec {
    pub kind: SymbolKind,
    pub name: Seq<char>,
    pub qualified_name: Seq<char>,
    pub signature: Seq<char>,
    pub return_type: Seq<char>,
    pub docstring: Seq<char>,
}

pub open spec fn item_symbol(d: ItemSyntax, modules: Seq<String>) -> SymbolSpec {
    SymbolSpec {
        kind: d.kind->0,
        name: d.name@,
        qualified_name: qualified_name_spec(modules, d.name@),
        signature: item_signature(d),
        return_type: item_return_type(d),
        docstring: item_docstring(d),
    }
}

/// The module path inside an item: a module adds its own name.
pub open spec fn inner_modules(d: ItemSyntax, modules: Seq<String>) -> Seq<String> {
    if d.kind == Some(SymbolKind::Mod) {
        modules.push(d.name)
    } else {
        modules
    }
}

/// The symbols harvested from an item and everything inside it, in the
/// order the walk meets them: the item first, then its nested items.
pub open spec fn harvest_item_spec(d: ItemSyntax, modules: Seq<String>) -> Seq<SymbolSpec>
    decreases d,
{
    let own = if harvests_itself(d) { seq![item_symbol(d, modules)] } else { Seq::empty() };
    own + harvest_items_spec(d.nested@, inner_modules(d, modules))
}

pub open spec fn harvest_items_spec(ds: Seq<ItemSyntax>, modules: Seq<String>) -> Seq<SymbolSpec>
    decreases ds,
{
    if ds.len() == 0 {
        Seq::empty()
    } else {
        harvest_items_spec(ds.drop_last(), modules) + harvest_item_spec(ds.last(), modules)
    }
}

/// A symbol record holds what the walk harvested, in the given file.
pub open spec fn symbol_is(s: Symbol, e: SymbolSpec, relative_path: Seq<char>) -> bool {
    &&& s.kind == e.kind
    &&& s.name@ == e.name
    &&& s.qualified_name@ == e.qualified_name
    &&& s.file_path@ == relative_path
    &&& s.signature@ == e.signature
    &&& s.return_type@ == e.return_type
    &&& s.start_line is None
    &&& s.docstring@ == e.docstring
    &&& s.complexity == Some(complexity_spec(e.docstring, e.signature) as u64)
}

/// `out` is `before` followed by records of `es`.
pub open spec fn extends_with(out: Seq<Symbol>, before: Seq<Symbol>, es: Seq<SymbolSpec>, relative_path: Seq<char>) -> bool {
    &&& out.len() == before.len() + es.len()
    &&& forall|i: int| 0 <= i < before.len() ==> out[i] == before[i]
    &&& forall|i: int| 0 <= i < es.len() ==> symbol_is(#[trigger] out[before.len() + i], es[i], relative_path)
}

fn doc_lines(attrs: &Vec<AttrSyntax>) -> (r: Vec<String>)
    ensures
        strings_view(r@) == doc_lines_of(attrs@),
{
    let mut out: Vec<String> = Vec::new();
    let mut i: usize = 0;
    while i < attrs.len()
        invariant
            i <= attrs@.len(),
            strings_view(out@) == doc_lines_of(attrs@.take(i as int)),
        decreases attrs@.len() - i,
    {
        let a = &attrs[i];
        assert(attrs@.take(i + 1).drop_last() =~= attrs@.take(i as int));
        let ghost before = out@;
        let doc_path = a.path.len() == 1 && str_eq(a.path[0].as_str(), "doc");
        proof {
            reveal_strlit("doc");
        }
        assert(doc_path == (a.path@.len() == 1 && a.path@[0]@ == "doc"@));
        if doc_path {
            if let Some(v) = &a.string_value {
                out.push(v.clone());
                assert(strings_view(out@) =~= strings_view(before).push(v@));
            }
        }
        i = i + 1;
    }
    assert(attrs@.take(attrs@.len() as int) =~= attrs@);
    out
}

fn item_signature_text(d: &ItemSyntax) -> (r: String)
    ensures
        r@ == item_signature(*d),
{
    if d.kind == Some(SymbolKind::Mod) {
        let mut s = String::new();
        push_str(&mut s, "pub mod ");
        push_str(&mut s, d.name.as_str());
        s
    } else if d.kind == Some(SymbolKind::Function) {
        let t = signature_text(d.tokens.as_str());
        let mut s = String::new();
        push_str(&mut s, "pub ");
        push_str(&mut s, t.as_str());
        s
    } else {
        signature_text(d.tokens.as_str())
    }
}

fn push_item_symbols(d: &ItemSyntax, modules: &mut Vec<String>, relative_path: &str, out: &mut Vec<Symbol>)
    ensures
        final(modules)@ == old(modules)@,
        extends_with(final(out)@, old(out)@, harvest_item_spec(*d, old(modules)@), relative_path@),
    decreases d,
{
    let ghost start = out@;
    let ghost mods = modules@;
    if d.public && d.kind.is_some() {
        let docs = doc_lines(&d.attrs);
        let signature = item_signature_text(d);
        let docstring_len = join_doc_lines(docs.as_slice()).unicode_len();
        let signature_len = signature.unicode_len();
        if docstring_len as u64 <= u64::MAX - 2 && signature_len as u64 <= u64::MAX - 2 - docstring_len as u64 {
            let return_type = if d.kind == Some(SymbolKind::Function) {
                signature_text(d.output_tokens.as_str())
            } else {
                String::new()
            };
            let kind = match d.kind {
                Some(k) => k,
                None => SymbolKind::Mod,
            };
            let sym = make_symbol(modules.as_slice(), relative_path, d.name.as_str(), kind, signature, return_type, docs.as_slice());
            out.push(sym);
        }
    }
    let ghost mid = out@;
    assert(extends_with(mid, start, if harvests_itself(*d) { seq![item_symbol(*d, mods)] } else { Seq::empty() }, relative_path@));
    let is_mod = d.kind == Some(SymbolKind::Mod);
    if is_mod {
        modules.push(d.name.clone());
    }
    assert(modules@ == inner_modules(*d, mods));
    push_items_symbols(&d.nested, modules, relative_path, out);
    if is_mod {
        modules.pop();
        assert(modules@ =~= mods);
    }
    proof {
        lemma_extends_trans(out@, mid, start,
            if harvests_itself(*d) { seq![item_symbol(*d, mods)] } else { Seq::empty() },
            harvest_items_spec(d.nested@, inner_modules(*d, mods)), relative_path@);
    }
}

proof fn lemma_extends_trans(out: Seq<Symbol>, mid: Seq<Symbol>, start: Seq<Symbol>, a: Seq<SymbolSpec>, b: Seq<SymbolSpec>, p: Seq<char>)
    requires
        extends_with(mid, start, a, p),
        extends_with(out, mid, b, p),
    ensures
        extends_with(out, start, a + b, p),
{
    assert forall|i: int| 0 <= i < (a + b).len() implies symbol_is(#[trigger] out[start.len() + i], (a + b)[i], p) by {
        if i < a.len() {
            assert(out[start.len() + i] == mid[start.len() + i]);
        } else {
            assert(out[mid.len() + (i - a.len())] == out[start.len() + i]);
        }
    }
}

fn push_items_symbols(ds: &Vec<ItemSyntax>, modules: &mut Vec<String>, relative_path: &str, out: &mut Vec<Symbol>)
    ensures
        final(modules)@ == old(modules)@,
        extends_with(final(out)@, old(out)@, harvest_items_spec(ds@, old(modules)@), relative_path@),
    decreases ds,
{
    let ghost start = out@;
    let ghost mods = modules@;
    let mut i: usize = 0;
    assert(ds@.take(0) =~= Seq::<ItemSyntax>::empty());
    while i < ds.len()
        invariant
            i <= ds@.len(),
            modules@ == mods,
            extends_with(out@, start, harvest_items_spec(ds@.take(i as int), mods), relative_path@),
        decreases ds@.len() - i,
    {
        let ghost mid = out@;
        push_item_symbols(&ds[i], modules, relative_path, out);
        assert(ds@.take(i + 1).drop_last() =~= ds@.take(i as int));
        proof {
            lemma_extends_trans(out@, mid, start, harvest_items_spec(ds@.take(i as int), mods),
                harvest_item_spec(ds@[i as int], mods), relative_path@);
        }
        i = i + 1;
    }
    assert(ds@.take(ds@.len() as int) =~= ds@);
}

/// Collects the public symbols of one parsed file into `out`, in the order
/// the walk meets them; each is qualified by the modules around it and
/// carries `relative_path`.
pub fn harvest_file(items: &Vec<ItemSyntax>, relative_path: &str, out: &mut Vec<Symbol>)
    ensures
        extends_with(final(out)@, old(out)@, harvest_items_spec(items@, Seq::empty()), relative_path@),
{
    let mut modules: Vec<String> = Vec::new();
    push_items_symbols(items, &mut modules, relative_path, out);
}

} // verus!
