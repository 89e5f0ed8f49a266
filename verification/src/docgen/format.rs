//! Output formatters for harvested symbols: tomllm tables, rustdoc comment
//! blocks and a standalone HTML page.
use vstd::prelude::*;

use crate::docgen::{kind_name, Symbol, SymbolKind};
use crate::text::{add_distinct, concat_map, decimal, escape_default_char, flatten_newline_char, html_escape_char, lemma_add_distinct_step, lemma_concat_map_step, lines, map_chars, push_decimal, push_escape_default, push_html_escaped, push_str, split_lines, str_chars};

verus! {

/// Package version printed in the HTML footer.
pub const VERSION: &'static str = "0.1.0";

/// D2 source of the render flow shown on the HTML page.
pub const RUST_FLOW_D2: &'static str = "direction: right
caller: HTTP caller
route: Axum route
service: RenderService
cache: FsCache
backend: HttpKrokiBackend
artifact: Rendered artifact
caller -> route: POST /render/{format}
route -> service: render(format, source, output)
service -> cache: content-addressed lookup
cache -> artifact: hit
service -> backend: miss
backend -> cache: atomic write
cache -> artifact
";

/// KerML representation of the render flow.
pub const RUST_FLOW_KERML: &'static str = "package Kr0kiRenderFlow {
    classifier HttpCaller;
    classifier AxumRoute;
    classifier RenderService;
    classifier FsCache;
    classifier HttpKrokiBackend;
    classifier Artifact;
    feature route : AxumRoute;
    feature service : RenderService;
    feature cache : FsCache;
    feature backend : HttpKrokiBackend;
    connector route to service;
    connector service to cache;
    connector service to backend;
    connector backend to cache;
}
";

/// SysML v2 representation of the render flow.
pub const RUST_FLOW_SYSML: &'static str = "package Kr0kiRenderFlow {
    part def AxumRoute;
    part def RenderService;
    part def FsCache;
    part def HttpKrokiBackend;
    item def Artifact;
    action def Render {
        in source : String;
        out artifact : Artifact;
    }
    part kr0ki {
        part route : AxumRoute;
        part service : RenderService;
        part cache : FsCache;
        part backend : HttpKrokiBackend;
        connect route to service;
        connect service to cache;
        connect service to backend;
    }
}
";

/// The structural SVG of the render flow, used when no live renderer is given.
pub const RUST_FLOW_SVG: &'static str = r##"<svg viewBox="0 0 900 190" role="img" aria-label="kr0ki Rust render flow" xmlns="http://www.w3.org/2000/svg"><defs><marker id="a" viewBox="0 0 10 10" refX="9" refY="5" markerWidth="7" markerHeight="7" orient="auto"><path d="M0 0L10 5L0 10z" fill="currentColor"/></marker></defs><g fill="none" stroke="currentColor" stroke-width="2" marker-end="url(#a)"><path d="M125 70H180"/><path d="M305 70H360"/><path d="M485 70H540"/><path d="M665 70H720"/><path d="M422 105V150H600"/></g><g font-family="system-ui,sans-serif" text-anchor="middle" fill="currentColor"><rect x="20" y="35" width="105" height="70" rx="9" fill="#d8eaff" stroke="currentColor"/><text x="72" y="65">HTTP</text><text x="72" y="86">caller</text><rect x="180" y="35" width="125" height="70" rx="9" fill="#d8eaff" stroke="currentColor"/><text x="242" y="65">Axum</text><text x="242" y="86">route</text><rect x="360" y="35" width="125" height="70" rx="9" fill="#d8eaff" stroke="currentColor"/><text x="422" y="65">Render</text><text x="422" y="86">Service</text><rect x="540" y="35" width="125" height="70" rx="9" fill="#e9f7df" stroke="currentColor"/><text x="602" y="77">FsCache</text><rect x="720" y="35" width="155" height="70" rx="9" fill="#fff0cc" stroke="currentColor"/><text x="797" y="65">HttpKroki</text><text x="797" y="86">Backend</text><text x="510" y="158" font-size="13">cache hit returns artifact; miss calls backend</text></g></svg>"##;

/// HTML escaping of `&`, `<`, `>` and `"`.
pub open spec fn html_esc(s: Seq<char>) -> Seq<char> {
    map_chars(s, |c: char| html_escape_char(c))
}

/// Escapes `&`, `<`, `>` and `"` for HTML text and attribute values.
pub fn html_escape(s: &str) -> (r: String)
    ensures
        r@ == html_esc(s@),
{
    let v = str_chars(s);
    let mut out = String::new();
    push_html_escaped(&mut out, v.as_slice());
    out
}

/// The structural render-flow SVG.
pub fn rendered_rust_flow_svg() -> (r: &'static str)
    ensures
        r@ == RUST_FLOW_SVG@,
{
    RUST_FLOW_SVG
}

// ---------------------------------------------------------------------
// tomllm
// ---------------------------------------------------------------------

#[verifier::opaque]
pub open spec fn opt_field(key: Seq<char>, v: Option<u64>) -> Seq<char> {
    match v {
        Some(n) => key + " = "@ + decimal(n as nat) + "\n"@,
        None => Seq::empty(),
    }
}

/// `key = "value"` on a line of its own.
pub open spec fn kv(key: Seq<char>, value: Seq<char>) -> Seq<char> {
    key + " = \""@ + value + "\"\n"@
}

/// The table header and the always-present keys of one entry.
#[verifier::opaque]
pub open spec fn tomllm_head(s: Symbol) -> Seq<char> {
    "[["@ + s.qualified_name@ + "]]\n"@ + kv("name"@, s.name@) + kv("kind"@, kind_name(s.kind))
        + kv("file_path"@, s.file_path@)
        + kv("signature"@, map_chars(s.signature@, |c: char| escape_default_char(c)))
}

#[verifier::opaque]
pub open spec fn tomllm_return(s: Symbol) -> Seq<char> {
    if s.return_type@.len() > 0 {
        kv("return_type"@, s.return_type@)
    } else {
        Seq::empty()
    }
}

#[verifier::opaque]
pub open spec fn tomllm_doc(s: Symbol) -> Seq<char> {
    if s.docstring@.len() > 0 {
        "# @tribal: "@ + map_chars(s.docstring@, |c: char| flatten_newline_char(c)) + "\n"@
    } else {
        Seq::empty()
    }
}

/// One `[[qualified_name]]` table of the tomllm export.
pub open spec fn tomllm_entry(s: Symbol) -> Seq<char> {
    tomllm_head(s) + tomllm_return(s) + opt_field("start_line"@, s.start_line)
        + opt_field("complexity"@, s.complexity) + tomllm_doc(s) + "\n"@
}

pub const TOMLLM_HEADER: &'static str = "# kr0ki docgen export — .tomllm format\n# schema: docgen-v1 | Auto-generated from kr0ki source\n\n";

pub const TOMLLM_TRAILER: &'static str = "# b00t:map v1\n# summary: kr0ki symbol documentation export\n# tags: docgen, auto-export, kr0ki\n# tier: sm0l\n# cmds: kr0ki-server /docs/api.tomllm\n# complexity: 3\n";

/// The whole tomllm export of `symbols`.
pub open spec fn tomllm_spec(symbols: Seq<Symbol>) -> Seq<char> {
    TOMLLM_HEADER@ + concat_map(symbols, |s: Symbol| tomllm_entry(s)) + TOMLLM_TRAILER@
}

fn push_opt_field(out: &mut String, key: &str, v: Option<u64>)
    ensures
        final(out)@ == old(out)@ + opt_field(key@, v),
{
    reveal(opt_field);
    match v {
        Some(n) => {
            let ghost before = out@;
            push_str(out, key);
            push_str(out, " = ");
            push_decimal(out, n);
            push_str(out, "\n");
            assert(out@ =~= before + opt_field(key@, v));
        },
        None => {
            assert(out@ =~= old(out)@ + opt_field(key@, v));
        },
    }
}

fn push_kv(out: &mut String, key: &str, value: &str)
    ensures
        final(out)@ == old(out)@ + kv(key@, value@),
{
    let ghost o = out@;
    push_str(out, key);
    push_str(out, " = \"");
    push_str(out, value);
    push_str(out, "\"\n");
    assert(out@ =~= o + kv(key@, value@));
}

fn push_tomllm_head(out: &mut String, s: &Symbol)
    ensures
        final(out)@ == old(out)@ + tomllm_head(*s),
{
    reveal(tomllm_head);
    let ghost o = out@;
    push_str(out, "[[");
    push_str(out, s.qualified_name.as_str());
    push_str(out, "]]\n");
    let ghost p1 = out@;
    push_kv(out, "name", s.name.as_str());
    push_kv(out, "kind", s.kind.as_str());
    push_kv(out, "file_path", s.file_path.as_str());
    let ghost p2 = out@;
    let ghost o2 = out@;
    push_str(out, "signature");
    push_str(out, " = \"");
    let sig = str_chars(s.signature.as_str());
    push_escape_default(out, sig.as_slice());
    push_str(out, "\"\n");
    assert(out@ =~= p2 + kv("signature"@, map_chars(s.signature@, |c: char| escape_default_char(c))));
    assert(p1 =~= o + "[["@ + s.qualified_name@ + "]]\n"@);
    assert(out@ =~= o + tomllm_head(*s));
}

fn push_tomllm_return(out: &mut String, s: &Symbol)
    ensures
        final(out)@ == old(out)@ + tomllm_return(*s),
{
    reveal(tomllm_return);
    if !s.return_type.as_str().is_empty() {
        push_kv(out, "return_type", s.return_type.as_str());
    } else {
        assert(out@ =~= old(out)@ + tomllm_return(*s));
    }
}

fn push_tomllm_doc(out: &mut String, s: &Symbol)
    ensures
        final(out)@ == old(out)@ + tomllm_doc(*s),
{
    reveal(tomllm_doc);
    let ghost o = out@;
    if !s.docstring.as_str().is_empty() {
        push_str(out, "# @tribal: ");
        let doc = str_chars(s.docstring.as_str());
        crate::text::push_flattened(out, doc.as_slice());
        push_str(out, "\n");
    }
    assert(out@ =~= o + tomllm_doc(*s));
}

fn push_tomllm_entry(out: &mut String, s: &Symbol)
    ensures
        final(out)@ == old(out)@ + tomllm_entry(*s),
{
    let ghost o = out@;
    push_tomllm_head(out, s);
    push_tomllm_return(out, s);
    push_opt_field(out, "start_line", s.start_line);
    push_opt_field(out, "complexity", s.complexity);
    push_tomllm_doc(out, s);
    push_str(out, "\n");
    assert(out@ =~= o + tomllm_entry(*s));
}

/// Tomllm (b00t docgen convention): one `[[qualified_name]]` table per
/// symbol, then a `b00t:map v1` trailer.
pub fn format_tomllm(symbols: &[Symbol]) -> (out: String)
    ensures
        out@ == tomllm_spec(symbols@),
{
    let ghost f = |s: Symbol| tomllm_entry(s);
    let mut out = String::new();
    push_str(&mut out, TOMLLM_HEADER);
    let mut i: usize = 0;
    while i < symbols.len()
        invariant
            i <= symbols@.len(),
            f == (|s: Symbol| tomllm_entry(s)),
            out@ == TOMLLM_HEADER@ + concat_map(symbols@.take(i as int), f),
        decreases symbols@.len() - i,
    {
        proof { lemma_concat_map_step(symbols@, i as int, f); }
        push_tomllm_entry(&mut out, &symbols[i]);
        i = i + 1;
    }
    assert(symbols@.take(symbols@.len() as int) =~= symbols@);
    push_str(&mut out, TOMLLM_TRAILER);
    out
}

// ---------------------------------------------------------------------
// rustdoc
// ---------------------------------------------------------------------

/// The signature shown for a symbol: its own, or `kind name` when empty.
pub open spec fn sig_display(s: Symbol) -> Seq<char> {
    if s.signature@.len() == 0 {
        kind_name(s.kind) + " "@ + s.name@
    } else {
        s.signature@
    }
}

pub open spec fn doc_comment_line(l: Seq<char>) -> Seq<char> {
    "/// "@ + l + "\n"@
}

#[verifier::opaque]
pub open spec fn source_line(s: Symbol) -> Seq<char> {
    match s.start_line {
        Some(n) => "/// Review source at "@ + s.file_path@ + ":"@ + decimal(n as nat) + "\n"@,
        None => "/// Review source at "@ + s.file_path@ + "\n"@,
    }
}

/// One rustdoc comment block.
pub open spec fn rustdoc_entry(s: Symbol) -> Seq<char> {
    "/// `"@ + sig_display(s) + "`\n"@
        + concat_map(lines(s.docstring@), |l: Seq<char>| doc_comment_line(l))
        + "///\n/// # Source\n"@ + source_line(s) + "/// # Kind\n/// "@ + kind_name(s.kind) + "\n"@
        + "\n"@
}

pub const RUSTDOC_HEADER: &'static str = "// kr0ki docgen export — rustdoc style\n\n";

/// The whole rustdoc export of `symbols`.
pub open spec fn rustdoc_spec(symbols: Seq<Symbol>) -> Seq<char> {
    RUSTDOC_HEADER@ + concat_map(symbols, |s: Symbol| rustdoc_entry(s))
}

fn push_sig_display(out: &mut String, s: &Symbol)
    ensures
        final(out)@ == old(out)@ + sig_display(*s),
{
    let ghost o = out@;
    if s.signature.as_str().is_empty() {
        push_str(out, s.kind.as_str());
        push_str(out, " ");
        push_str(out, s.name.as_str());
    } else {
        push_str(out, s.signature.as_str());
    }
    assert(out@ =~= o + sig_display(*s));
}

fn push_doc_comment_lines(out: &mut String, doc: &str)
    ensures
        final(out)@ == old(out)@ + concat_map(lines(doc@), |l: Seq<char>| doc_comment_line(l)),
{
    let ghost f = |l: Seq<char>| doc_comment_line(l);
    let v = str_chars(doc);
    let ls = split_lines(v.as_slice());
    let ghost lv = ls@.map_values(|l: Vec<char>| l@);
    let mut j: usize = 0;
    while j < ls.len()
        invariant
            j <= ls@.len(),
            lv == ls@.map_values(|l: Vec<char>| l@),
            f == (|l: Seq<char>| doc_comment_line(l)),
            out@ == old(out)@ + concat_map(lv.take(j as int), f),
        decreases ls@.len() - j,
    {
        proof { lemma_concat_map_step(lv, j as int, f); }
        let ghost o = out@;
        push_str(out, "/// ");
        crate::text::push_chars(out, ls[j].as_slice(), 0, ls[j].len());
        push_str(out, "\n");
        assert(ls[j as int]@.subrange(0, ls[j as int]@.len() as int) =~= lv[j as int]);
        assert(out@ =~= o + doc_comment_line(lv[j as int]));
        j = j + 1;
    }
    assert(lv.take(ls@.len() as int) =~= lv);
}

fn push_source_line(out: &mut String, s: &Symbol)
    ensures
        final(out)@ == old(out)@ + source_line(*s),
{
    reveal(source_line);
    let ghost o = out@;
    push_str(out, "/// Review source at ");
    push_str(out, s.file_path.as_str());
    match s.start_line {
        Some(n) => {
            push_str(out, ":");
            push_decimal(out, n);
            push_str(out, "\n");
        },
        None => {
            push_str(out, "\n");
        },
    }
    assert(out@ =~= o + source_line(*s));
}

fn push_rustdoc_entry(out: &mut String, s: &Symbol)
    ensures
        final(out)@ == old(out)@ + rustdoc_entry(*s),
{
    let ghost o = out@;
    push_str(out, "/// `");
    push_sig_display(out, s);
    push_str(out, "`\n");
    push_doc_comment_lines(out, s.docstring.as_str());
    push_str(out, "///\n/// # Source\n");
    push_source_line(out, s);
    push_str(out, "/// # Kind\n/// ");
    push_str(out, s.kind.as_str());
    push_str(out, "\n");
    push_str(out, "\n");
    assert(out@ =~= o + rustdoc_entry(*s));
}

/// Rustdoc-style comment blocks, one per symbol.
pub fn format_rustdoc(symbols: &[Symbol]) -> (out: String)
    ensures
        out@ == rustdoc_spec(symbols@),
{
    let ghost f = |s: Symbol| rustdoc_entry(s);
    let mut out = String::new();
    push_str(&mut out, RUSTDOC_HEADER);
    let mut i: usize = 0;
    while i < symbols.len()
        invariant
            i <= symbols@.len(),
            f == (|s: Symbol| rustdoc_entry(s)),
            out@ == RUSTDOC_HEADER@ + concat_map(symbols@.take(i as int), f),
        decreases symbols@.len() - i,
    {
        proof { lemma_concat_map_step(symbols@, i as int, f); }
        push_rustdoc_entry(&mut out, &symbols[i]);
        i = i + 1;
    }
    assert(symbols@.take(symbols@.len() as int) =~= symbols@);
    out
}

// ---------------------------------------------------------------------
// HTML
// ---------------------------------------------------------------------

/// The kinds present in `symbols`, in order of first appearance.
pub open spec fn kinds_of(symbols: Seq<Symbol>) -> Seq<SymbolKind> {
    add_distinct(Seq::empty(), symbols.map_values(|s: Symbol| s.kind))
}

/// How many of `symbols` have kind `k`.
pub open spec fn kind_count(symbols: Seq<Symbol>, k: SymbolKind) -> nat
    decreases symbols.len(),
{
    if symbols.len() == 0 {
        0
    } else {
        kind_count(symbols.drop_last(), k) + if symbols.last().kind == k { 1nat } else { 0nat }
    }
}

pub open spec fn html_paragraph(l: Seq<char>) -> Seq<char> {
    "    <p>"@ + html_esc(l) + "</p>\n"@
}

#[verifier::opaque]
pub open spec fn html_docs(s: Symbol) -> Seq<char> {
    if s.docstring@.len() > 0 {
        "  <div class=\"docs\">\n"@ + concat_map(lines(s.docstring@), |l: Seq<char>| html_paragraph(l))
            + "  </div>\n"@
    } else {
        Seq::empty()
    }
}

pub open spec fn line_or_zero(v: Option<u64>) -> nat {
    match v {
        Some(n) => n as nat,
        None => 0,
    }
}

/// The list item describing one symbol.
#[verifier::opaque]
pub open spec fn html_item(s: Symbol) -> Seq<char> {
    "<li>\n"@ + "  <code class=\"sig\">"@ + html_esc(s.signature@) + "</code>\n"@ + html_docs(s)
        + "  <span class=\"meta\">"@ + html_esc(s.file_path@) + ":"@ + decimal(line_or_zero(s.start_line))
        + "</span>\n"@ + "</li>\n"@
}

pub open spec fn item_if_kind(s: Symbol, k: SymbolKind) -> Seq<char> {
    if s.kind == k {
        html_item(s)
    } else {
        Seq::empty()
    }
}

/// The section listing the symbols of kind `k`, in input order.
#[verifier::opaque]
pub open spec fn html_group(symbols: Seq<Symbol>, k: SymbolKind) -> Seq<char> {
    "<h2 id=\"kind-"@ + kind_name(k) + "\">"@ + kind_name(k) + " ("@ + decimal(kind_count(symbols, k))
        + ")</h2>\n"@ + "<ul class=\"symbol-list\">\n"@
        + concat_map(symbols, |s: Symbol| item_if_kind(s, k)) + "</ul>\n"@
}

/// One section per kind, kinds in order of first appearance.
pub open spec fn html_body(symbols: Seq<Symbol>) -> Seq<char> {
    concat_map(kinds_of(symbols), |k: SymbolKind| html_group(symbols, k))
}

fn push_html_docs(out: &mut String, s: &Symbol)
    ensures
        final(out)@ == old(out)@ + html_docs(*s),
{
    reveal(html_docs);
    let ghost o = out@;
    if !s.docstring.as_str().is_empty() {
        push_str(out, "  <div class=\"docs\">\n");
        let ghost f = |l: Seq<char>| html_paragraph(l);
        let ghost mid = out@;
        let v = str_chars(s.docstring.as_str());
        let ls = split_lines(v.as_slice());
        let ghost lv = ls@.map_values(|l: Vec<char>| l@);
        let mut j: usize = 0;
        while j < ls.len()
            invariant
                j <= ls@.len(),
                lv == ls@.map_values(|l: Vec<char>| l@),
                f == (|l: Seq<char>| html_paragraph(l)),
                out@ == mid + concat_map(lv.take(j as int), f),
            decreases ls@.len() - j,
        {
            proof { lemma_concat_map_step(lv, j as int, f); }
            let ghost before = out@;
            push_str(out, "    <p>");
            push_html_escaped(out, ls[j].as_slice());
            push_str(out, "</p>\n");
            assert(out@ =~= before + html_paragraph(lv[j as int]));
            j = j + 1;
        }
        assert(lv.take(ls@.len() as int) =~= lv);
        push_str(out, "  </div>\n");
    }
    assert(out@ =~= o + html_docs(*s));
}

fn push_html_item(out: &mut String, s: &Symbol)
    ensures
        final(out)@ == old(out)@ + html_item(*s),
{
    reveal(html_item);
    let ghost o = out@;
    push_str(out, "<li>\n");
    push_str(out, "  <code class=\"sig\">");
    let sig = str_chars(s.signature.as_str());
    push_html_escaped(out, sig.as_slice());
    push_str(out, "</code>\n");
    let ghost a = out@;
    push_html_docs(out, s);
    let ghost b = out@;
    push_str(out, "  <span class=\"meta\">");
    let fp = str_chars(s.file_path.as_str());
    push_html_escaped(out, fp.as_slice());
    push_str(out, ":");
    let line: u64 = match s.start_line {
        Some(n) => n,
        None => 0,
    };
    push_decimal(out, line);
    push_str(out, "</span>\n");
    push_str(out, "</li>\n");
    assert(out@ =~= o + html_item(*s));
}

fn count_kind(symbols: &[Symbol], k: SymbolKind) -> (n: u64)
    ensures
        n == kind_count(symbols@, k),
{
    let mut n: u64 = 0;
    let mut i: usize = 0;
    while i < symbols.len()
        invariant
            i <= symbols@.len(),
            n == kind_count(symbols@.take(i as int), k),
            n <= i,
        decreases symbols@.len() - i,
    {
        assert(symbols@.take(i + 1).drop_last() =~= symbols@.take(i as int));
        if symbols[i].kind == k {
            n = n + 1;
        }
        i = i + 1;
    }
    assert(symbols@.take(symbols@.len() as int) =~= symbols@);
    n
}

fn push_html_group(out: &mut String, symbols: &[Symbol], k: SymbolKind)
    ensures
        final(out)@ == old(out)@ + html_group(symbols@, k),
{
    reveal(html_group);
    let ghost o = out@;
    let name = k.as_str();
    push_str(out, "<h2 id=\"kind-");
    push_str(out, name);
    push_str(out, "\">");
    push_str(out, name);
    push_str(out, " (");
    let n = count_kind(symbols, k);
    push_decimal(out, n);
    push_str(out, ")</h2>\n");
    push_str(out, "<ul class=\"symbol-list\">\n");
    let ghost mid = out@;
    let ghost f = |s: Symbol| item_if_kind(s, k);
    let mut i: usize = 0;
    while i < symbols.len()
        invariant
            i <= symbols@.len(),
            f == (|s: Symbol| item_if_kind(s, k)),
            out@ == mid + concat_map(symbols@.take(i as int), f),
        decreases symbols@.len() - i,
    {
        proof { lemma_concat_map_step(symbols@, i as int, f); }
        if symbols[i].kind == k {
            push_html_item(out, &symbols[i]);
        } else {
            assert(out@ =~= out@ + item_if_kind(symbols@[i as int], k));
        }
        i = i + 1;
    }
    assert(symbols@.take(symbols@.len() as int) =~= symbols@);
    push_str(out, "</ul>\n");
    assert(out@ =~= o + html_group(symbols@, k));
}

/// The distinct kinds of `symbols`, first appearance first.
fn distinct_kinds(symbols: &[Symbol]) -> (r: Vec<SymbolKind>)
    ensures
        r@ == kinds_of(symbols@),
{
    let ghost ks = symbols@.map_values(|s: Symbol| s.kind);
    let mut r: Vec<SymbolKind> = Vec::new();
    let mut i: usize = 0;
    while i < symbols.len()
        invariant
            i <= symbols@.len(),
            ks == symbols@.map_values(|s: Symbol| s.kind),
            r@ == add_distinct(Seq::<SymbolKind>::empty(), ks.take(i as int)),
        decreases symbols@.len() - i,
    {
        let k = symbols[i].kind;
        proof { lemma_add_distinct_step(Seq::<SymbolKind>::empty(), ks, i as int); }
        let mut found = false;
        let mut j: usize = 0;
        while j < r.len()
            invariant
                j <= r@.len(),
                found <==> exists|t: int| 0 <= t < j && r@[t] == k,
            decreases r@.len() - j,
        {
            if r[j] == k {
                found = true;
            }
            j = j + 1;
        }
        if !found {
            r.push(k);
        } else {
            assert(r@.contains(k));
        }
        i = i + 1;
    }
    assert(ks.take(symbols@.len() as int) =~= ks);
    r
}

fn push_html_body(out: &mut String, symbols: &[Symbol])
    ensures
        final(out)@ == old(out)@ + html_body(symbols@),
{
    let kinds = distinct_kinds(symbols);
    let ghost f = |k: SymbolKind| html_group(symbols@, k);
    let mut i: usize = 0;
    while i < kinds.len()
        invariant
            i <= kinds@.len(),
            kinds@ == kinds_of(symbols@),
            f == (|k: SymbolKind| html_group(symbols@, k)),
            out@ == old(out)@ + concat_map(kinds@.take(i as int), f),
        decreases kinds@.len() - i,
    {
        proof { lemma_concat_map_step(kinds@, i as int, f); }
        push_html_group(out, symbols, kinds[i]);
        i = i + 1;
    }
    assert(kinds@.take(kinds@.len() as int) =~= kinds@);
}

/// Start of the page, up to the `<title>` text.
pub const PAGE_OPEN: &'static str = "<!DOCTYPE html>\n<html lang=\"en\">\n<head>\n<meta charset=\"utf-8\">\n<meta name=\"viewport\" content=\"width=device-width, initial-scale=1\">\n<title>";

/// From the end of the title to the `<h1>` text: the inline stylesheet.
pub const PAGE_STYLE: &'static str = "</title>\n<style>\n:root { color-scheme: light dark; }\nbody { font-family: system-ui, -apple-system, sans-serif; max-width: 80ch; margin: 2rem auto; padding: 0 1rem; line-height: 1.6; }\nh1, h2 { border-bottom: 1px solid #ccc; padding-bottom: 0.3rem; }\ncode { background: #f4f4f4; padding: 0.15em 0.4em; border-radius: 4px; font-size: 0.9em; }\npre { background: #f4f4f4; padding: 1rem; overflow-x: auto; border-radius: 6px; }\npre code { background: none; padding: 0; }\nul.symbol-list { list-style: none; padding: 0; }\nul.symbol-list li { margin: 1.5rem 0; padding: 1rem; border: 1px solid #ddd; border-radius: 8px; }\n.sig { font-weight: bold; display: block; margin-bottom: 0.5rem; }\n.docs p { margin: 0.25rem 0; color: #333; }\n.meta { font-size: 0.8em; color: #666; }\nimg { max-width: 100%; height: auto; border: 1px solid #ddd; border-radius: 6px; }\n@media (prefers-color-scheme: dark) {\n  body { background: #111; color: #eee; }\n  code { background: #222; }\n  pre { background: #222; }\n  ul.symbol-list li { border-color: #444; }\n  .docs p { color: #ccc; }\n}\n</style>\n</head>\n<body>\n<h1>";

/// From the end of the `<h1>` to the symbol sections: intro and navigation.
pub const PAGE_INTRO: &'static str = "</h1>\n<p>Generated by kr0ki docgen. Pattern derived from <code>b00t-cli/src/commands/docgen.rs</code>.</p>\n<nav>\n  <a href=\"/docs\">HTML</a> |\n  <a href=\"/docs/api.json\">JSON</a> |\n  <a href=\"/docs/api.tomllm\">tomllm</a> |\n  <a href=\"/docs/api.rustdoc\">rustdoc</a>\n</nav>\n<hr>\n";

/// The rule between sections.
pub const SECTION_RULE: &'static str = "\n<hr>\n";

/// The footer, up to the version.
pub const FOOTER_OPEN: &'static str = "\n<footer><p>kr0ki v";

/// The rest of the footer and the end of the page.
pub const FOOTER_CLOSE: &'static str = " — <a href=\"https://github.com/PromptExecution/kr0ki\">source</a></p></footer>\n</body>\n</html>\n";

/// The diagram example section, up to the escaped D2 source.
pub const DIAGRAM_OPEN: &'static str = "<h2 id=\"diagram-example\">Diagram Example</h2>\n<p>The following D2 diagram is part of kr0ki's template suite and can be rendered via <code>POST /render/d2</code>:</p>\n<pre class=\"d2-source\"><code>";

/// The rest of the diagram example section.
pub const DIAGRAM_CLOSE: &'static str = "</code></pre>\n<p>Render it live:</p>\n<pre><code>curl -X POST http://localhost:8787/render/d2 \\\n  -H \"Content-Type: text/plain\" \\\n  --data-binary @templates/b00t-stack-orchestration.d2 \\\n  --output diagram.svg</code></pre>\n";

/// The render-flow section, up to its visual.
pub const FLOW_OPEN: &'static str = "<h2 id=\"rust-flow\">Rendered Rust flow → KerML / SysML v2</h2>\n<p>This playb00k fixture models the implemented <strong>Box-5</strong> path: Axum route → <code>RenderService</code> → cache/backend → artifact. It is not a substitute for the deferred upstream <code>ModelSnapshot → UFO → recognizer → ViewDefinition</code> pipeline.</p>\n<figure class=\"flow-view\">";

/// After the visual, up to the escaped D2 source.
pub const FLOW_D2_OPEN: &'static str = "<figcaption>Cache hits bypass <code>HttpKrokiBackend</code>; misses render and atomically write the artifact.</figcaption></figure>\n<details><summary>D2 source</summary><pre><code>";

/// After the D2 source, up to the escaped KerML text.
pub const FLOW_KERML_OPEN: &'static str = "</code></pre></details>\n<details><summary>KerML representation</summary><pre><code>";

/// After the KerML text, up to the escaped SysML v2 text.
pub const FLOW_SYSML_OPEN: &'static str = "</code></pre></details>\n<details><summary>SysML v2 representation</summary><pre><code>";

/// The end of the render-flow section.
pub const FLOW_CLOSE: &'static str = "</code></pre></details>";

/// A live render-flow image, up to its URL.
pub const IMG_OPEN: &'static str = "<img src=\"";

/// The rest of the live render-flow image tag.
pub const IMG_CLOSE: &'static str = "\" alt=\"Rendered kr0ki Rust code flow\" loading=\"lazy\">";

/// The capability examples section.
pub const CAPABILITIES: &'static str = "<h2 id=\"capabilities\">Capability examples and test evidence</h2>\n<p>LAN documentation: <code id=\"live-origin\"></code>. Start with <code>just run</code> or <code>just dev</code>; both bind <code>0.0.0.0:8787</code> by default.</p>\n<pre><code>export KR0KI_URL=http://&lt;LAN-host&gt;:8787\ncurl \"$KR0KI_URL/health\"\ncurl \"$KR0KI_URL/formats\"\ncurl -X POST \"$KR0KI_URL/render/graphviz?output=svg\" --data-binary 'digraph {{ kr0ki -&gt; cache }}' --output flow.svg\ncurl \"$KR0KI_URL/docs/api.tomllm\"\n\njust test       # unit + in-process HTTP\njust check      # formatting + clippy\njust test-live  # opt-in live render</code></pre>\n<script>document.getElementById(\"live-origin\").textContent = window.location.origin + \"/docs\";</script>";

/// The render-flow visual: the live image when a URL is given, else the
/// structural SVG.
pub open spec fn flow_visual(live_flow_url: Option<&str>) -> Seq<char> {
    match live_flow_url {
        Some(url) => IMG_OPEN@ + html_esc(url@) + IMG_CLOSE@,
        None => RUST_FLOW_SVG@,
    }
}

#[verifier::opaque]
pub open spec fn diagram_section(d2: Seq<char>) -> Seq<char> {
    DIAGRAM_OPEN@ + html_esc(d2) + DIAGRAM_CLOSE@
}

#[verifier::opaque]
pub open spec fn flow_section(live_flow_url: Option<&str>) -> Seq<char> {
    FLOW_OPEN@ + flow_visual(live_flow_url) + FLOW_D2_OPEN@ + html_esc(RUST_FLOW_D2@)
        + FLOW_KERML_OPEN@ + html_esc(RUST_FLOW_KERML@) + FLOW_SYSML_OPEN@
        + html_esc(RUST_FLOW_SYSML@) + FLOW_CLOSE@
}

/// The whole HTML page.
pub open spec fn html_page(
    symbols: Seq<Symbol>,
    title: Seq<char>,
    d2: Seq<char>,
    live_flow_url: Option<&str>,
) -> Seq<char> {
    PAGE_OPEN@ + html_esc(title) + PAGE_STYLE@ + html_esc(title) + PAGE_INTRO@ + html_body(symbols)
        + SECTION_RULE@ + diagram_section(d2) + SECTION_RULE@ + flow_section(live_flow_url)
        + SECTION_RULE@ + CAPABILITIES@ + FOOTER_OPEN@ + VERSION@ + FOOTER_CLOSE@
}

fn push_escaped_str(out: &mut String, s: &str)
    ensures
        final(out)@ == old(out)@ + html_esc(s@),
{
    let v = str_chars(s);
    push_html_escaped(out, v.as_slice());
}

fn push_diagram_section(out: &mut String, d2: &str)
    ensures
        final(out)@ == old(out)@ + diagram_section(d2@),
{
    reveal(diagram_section);
    let ghost o = out@;
    push_str(out, DIAGRAM_OPEN);
    push_escaped_str(out, d2);
    push_str(out, DIAGRAM_CLOSE);
    assert(out@ =~= o + diagram_section(d2@));
}

fn push_flow_section(out: &mut String, live_flow_url: Option<&str>)
    ensures
        final(out)@ == old(out)@ + flow_section(live_flow_url),
{
    reveal(flow_section);
    let ghost o = out@;
    push_str(out, FLOW_OPEN);
    match live_flow_url {
        Some(url) => {
            push_str(out, IMG_OPEN);
            push_escaped_str(out, url);
            push_str(out, IMG_CLOSE);
        },
        None => {
            push_str(out, rendered_rust_flow_svg());
        },
    }
    let ghost a = out@;
    assert(a =~= o + FLOW_OPEN@ + flow_visual(live_flow_url));
    push_str(out, FLOW_D2_OPEN);
    push_escaped_str(out, RUST_FLOW_D2);
    push_str(out, FLOW_KERML_OPEN);
    push_escaped_str(out, RUST_FLOW_KERML);
    push_str(out, FLOW_SYSML_OPEN);
    push_escaped_str(out, RUST_FLOW_SYSML);
    push_str(out, FLOW_CLOSE);
    assert(out@ =~= o + flow_section(live_flow_url));
}

/// HTML documentation page with an optional service-rendered flow image:
/// one section per symbol kind (kinds in order of first appearance, symbols
/// in input order), the D2 example, the render-flow section and the
/// capability examples. `None` keeps the portable structural SVG.
pub fn format_html_with_live_flow(
    symbols: &[Symbol],
    title: &str,
    diagram_example_d2: &str,
    live_flow_url: Option<&str>,
) -> (out: String)
    ensures
        out@ == html_page(symbols@, title@, diagram_example_d2@, live_flow_url),
{
    let mut out = String::new();
    push_str(&mut out, PAGE_OPEN);
    push_escaped_str(&mut out, title);
    push_str(&mut out, PAGE_STYLE);
    push_escaped_str(&mut out, title);
    push_str(&mut out, PAGE_INTRO);
    push_html_body(&mut out, symbols);
    push_str(&mut out, SECTION_RULE);
    push_diagram_section(&mut out, diagram_example_d2);
    push_str(&mut out, SECTION_RULE);
    push_flow_section(&mut out, live_flow_url);
    push_str(&mut out, SECTION_RULE);
    push_str(&mut out, CAPABILITIES);
    push_str(&mut out, FOOTER_OPEN);
    push_str(&mut out, VERSION);
    push_str(&mut out, FOOTER_CLOSE);
    assert(out@ =~= html_page(symbols@, title@, diagram_example_d2@, live_flow_url));
    out
}

/// HTML documentation page with the structural flow SVG (no live renderer).
pub fn format_html(symbols: &[Symbol], title: &str, diagram_example_d2: &str) -> (out: String)
    ensures
        out@ == html_page(symbols@, title@, diagram_example_d2@, None),
{
    format_html_with_live_flow(symbols, title, diagram_example_d2, None)
}

/// `needle` occurs in `hay`.
pub open spec fn has_infix(hay: Seq<char>, needle: Seq<char>) -> bool {
    exists|i: int| 0 <= i && i + needle.len() <= hay.len() && #[trigger] hay.subrange(i, i + needle.len()) == needle
}

proof fn lemma_infix_self(n: Seq<char>)
    ensures
        has_infix(n, n),
{
    let i: int = 0;
    assert(n.subrange(i, i + n.len()) =~= n);
}

proof fn lemma_infix_right(a: Seq<char>, b: Seq<char>, n: Seq<char>)
    requires
        has_infix(a, n),
    ensures
        has_infix(a + b, n),
{
    let i = choose|i: int| 0 <= i && i + n.len() <= a.len() && #[trigger] a.subrange(i, i + n.len()) == n;
    assert((a + b).subrange(i, i + n.len()) =~= a.subrange(i, i + n.len()));
}

proof fn lemma_infix_left(a: Seq<char>, b: Seq<char>, n: Seq<char>)
    requires
        has_infix(b, n),
    ensures
        has_infix(a + b, n),
{
    let i = choose|i: int| 0 <= i && i + n.len() <= b.len() && #[trigger] b.subrange(i, i + n.len()) == n;
    assert((a + b).subrange(a.len() + i, a.len() + i + n.len()) =~= b.subrange(i, i + n.len()));
}

proof fn lemma_html_esc_inert(s: Seq<char>)
    ensures
        forall|i: int| 0 <= i < html_esc(s).len() ==> {
            &&& #[trigger] html_esc(s)[i] != '<'
            &&& html_esc(s)[i] != '>'
            &&& html_esc(s)[i] != '"'
        },
    decreases s.len(),
{
    if s.len() > 0 {
        lemma_html_esc_inert(s.drop_last());
        let prev = html_esc(s.drop_last());
        let tail = html_escape_char(s.last());
        assert(html_esc(s) == prev + tail);
        assert forall|i: int| 0 <= i < html_esc(s).len() implies {
            &&& #[trigger] html_esc(s)[i] != '<'
            &&& html_esc(s)[i] != '>'
            &&& html_esc(s)[i] != '"'
        } by {
            if i >= prev.len() {
                assert(html_esc(s)[i] == tail[i - prev.len()]);
            } else {
                assert(html_esc(s)[i] == prev[i]);
            }
        }
    }
}

/// Law of the HTML page: every caller-supplied text is escaped, so none of
/// it can open or close a tag or an attribute (no `<`, `>` or `"` survives
/// escaping); the title and the D2 example appear in the page escaped; and
/// the render-flow section shows the live image `<img src="…">` of the
/// escaped URL when one is given, the portable structural SVG otherwise.
pub proof fn law_html_page(symbols: Seq<Symbol>, title: Seq<char>, d2: Seq<char>, live_flow_url: Option<&str>, text: Seq<char>)
    ensures
        forall|i: int| 0 <= i < html_esc(text).len() ==> {
            &&& #[trigger] html_esc(text)[i] != '<'
            &&& html_esc(text)[i] != '>'
            &&& html_esc(text)[i] != '"'
        },
        has_infix(html_page(symbols, title, d2, live_flow_url), html_esc(title)),
        has_infix(html_page(symbols, title, d2, live_flow_url), html_esc(d2)),
        has_infix(html_page(symbols, title, d2, live_flow_url), flow_visual(live_flow_url)),
        live_flow_url matches Some(u) ==> has_infix(html_page(symbols, title, d2, live_flow_url), IMG_OPEN@ + html_esc(u@) + IMG_CLOSE@),
        live_flow_url is None ==> has_infix(html_page(symbols, title, d2, live_flow_url), RUST_FLOW_SVG@),
{
    lemma_html_esc_inert(text);
    lemma_page_holds(symbols, title, d2, live_flow_url, html_esc(title), 0);
    lemma_page_holds(symbols, title, d2, live_flow_url, html_esc(d2), 1);
    lemma_page_holds(symbols, title, d2, live_flow_url, flow_visual(live_flow_url), 2);
}

/// The page holds a piece it is built from: the escaped title (`which` 0),
/// the escaped D2 example (1) or the flow visual (2).
proof fn lemma_page_holds(symbols: Seq<Symbol>, title: Seq<char>, d2: Seq<char>, live_flow_url: Option<&str>, n: Seq<char>, which: int)
    requires
        which == 0 ==> n == html_esc(title),
        which == 1 ==> n == html_esc(d2),
        which == 2 ==> n == flow_visual(live_flow_url),
        0 <= which <= 2,
    ensures
        has_infix(html_page(symbols, title, d2, live_flow_url), n),
{
    reveal(diagram_section);
    reveal(flow_section);
    lemma_infix_self(n);
    let p1 = PAGE_OPEN@ + html_esc(title);
    let p2 = p1 + PAGE_STYLE@;
    let p3 = p2 + html_esc(title);
    let p4 = p3 + PAGE_INTRO@;
    let p5 = p4 + html_body(symbols);
    let p6 = p5 + SECTION_RULE@;
    let p7 = p6 + diagram_section(d2);
    let p8 = p7 + SECTION_RULE@;
    let p9 = p8 + flow_section(live_flow_url);
    let p10 = p9 + SECTION_RULE@;
    let p11 = p10 + CAPABILITIES@;
    let p12 = p11 + FOOTER_OPEN@;
    let p13 = p12 + VERSION@;
    let p14 = p13 + FOOTER_CLOSE@;
    assert(p14 == html_page(symbols, title, d2, live_flow_url));
    if which == 0 {
        lemma_infix_left(PAGE_OPEN@, html_esc(title), n);
        lemma_infix_right(p1, PAGE_STYLE@, n);
        lemma_infix_right(p2, html_esc(title), n);
        lemma_infix_right(p3, PAGE_INTRO@, n);
        lemma_infix_right(p4, html_body(symbols), n);
        lemma_infix_right(p5, SECTION_RULE@, n);
        lemma_infix_right(p6, diagram_section(d2), n);
    } else if which == 1 {
        let d1 = DIAGRAM_OPEN@ + html_esc(d2);
        lemma_infix_left(DIAGRAM_OPEN@, html_esc(d2), n);
        lemma_infix_right(d1, DIAGRAM_CLOSE@, n);
        assert(diagram_section(d2) == d1 + DIAGRAM_CLOSE@);
        lemma_infix_left(p6, diagram_section(d2), n);
    } else {
        let f1 = FLOW_OPEN@ + flow_visual(live_flow_url);
        let f2 = f1 + FLOW_D2_OPEN@;
        let f3 = f2 + html_esc(RUST_FLOW_D2@);
        let f4 = f3 + FLOW_KERML_OPEN@;
        let f5 = f4 + html_esc(RUST_FLOW_KERML@);
        let f6 = f5 + FLOW_SYSML_OPEN@;
        let f7 = f6 + html_esc(RUST_FLOW_SYSML@);
        let f8 = f7 + FLOW_CLOSE@;
        assert(f8 == flow_section(live_flow_url));
        lemma_infix_left(FLOW_OPEN@, flow_visual(live_flow_url), n);
        lemma_infix_right(f1, FLOW_D2_OPEN@, n);
        lemma_infix_right(f2, html_esc(RUST_FLOW_D2@), n);
        lemma_infix_right(f3, FLOW_KERML_OPEN@, n);
        lemma_infix_right(f4, html_esc(RUST_FLOW_KERML@), n);
        lemma_infix_right(f5, FLOW_SYSML_OPEN@, n);
        lemma_infix_right(f6, html_esc(RUST_FLOW_SYSML@), n);
        lemma_infix_right(f7, FLOW_CLOSE@, n);
        lemma_infix_left(p8, flow_section(live_flow_url), n);
    }
    if which <= 1 {
        lemma_infix_right(p7, SECTION_RULE@, n);
        lemma_infix_right(p8, flow_section(live_flow_url), n);
    }
    lemma_infix_right(p9, SECTION_RULE@, n);
    lemma_infix_right(p10, CAPABILITIES@, n);
    lemma_infix_right(p11, FOOTER_OPEN@, n);
    lemma_infix_right(p12, VERSION@, n);
    lemma_infix_right(p13, FOOTER_CLOSE@, n);
}

} // verus!
