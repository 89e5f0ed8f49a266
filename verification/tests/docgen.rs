use kr0ki_core::docgen::format::{format_html, format_html_with_live_flow, format_rustdoc, format_tomllm, html_escape};
use kr0ki_core::docgen::harvest::{
    collapse_whitespace, complexity, harvest_file, make_symbol, qualified_name, signature_text, strip_outer_attrs, AttrSyntax,
    ItemSyntax,
};
use kr0ki_core::rust_syntax::parse_rust_source;
use kr0ki_core::docgen::{Symbol, SymbolKind};

fn sample_symbol() -> Symbol {
    Symbol {
        name: "render".into(),
        qualified_name: "kr0ki_core::render::render".into(),
        file_path: "src/render.rs".into(),
        kind: SymbolKind::Function,
        signature: "pub async fn render()".into(),
        return_type: "Result<RenderOutput>".into(),
        start_line: Some(10),
        complexity: Some(2),
        docstring: "Render a diagram.".into(),
    }
}

#[test]
fn tomllm_contains_boilerplate() {
    let s = sample_symbol();
    let out = format_tomllm(&[s]);
    assert!(out.contains("b00t:map v1"));
    assert!(out.contains("[[kr0ki_core::render::render]]"));
    assert!(out.contains("# @tribal:"));
}

#[test]
fn rustdoc_contains_sections() {
    let s = sample_symbol();
    let out = format_rustdoc(&[s]);
    assert!(out.contains("/// `pub async fn render()`"));
    assert!(out.contains("/// # Source"));
    assert!(out.contains("/// Review source at src/render.rs:10"));
}

#[test]
fn html_is_well_formed() {
    let s = sample_symbol();
    let out = format_html(&[s], "Test", "a -> b");
    assert!(out.contains("<!DOCTYPE html>"));
    assert!(out.contains("</html>"));
    assert!(out.contains("pub async fn render()"));
    assert!(out.contains("Diagram Example"));
    assert!(out.contains("Rendered Rust flow"));
    assert!(out.contains("SysML v2 representation"));
    assert!(out.contains("id=\"live-origin\""));
    assert!(!out.contains("192.168.1.137"));
}

#[test]
fn html_escapes_special_chars() {
    let out = format_html(&[], "A < B", "x -> y");
    assert!(!out.contains("<title>A < B</title>"));
    assert!(out.contains("<title>A &lt; B</title>"));
}

#[test]
fn tomllm_entry_is_exact() {
    let out = format_tomllm(&[sample_symbol()]);
    let expected_entry = "[[kr0ki_core::render::render]]\nname = \"render\"\nkind = \"fn\"\nfile_path = \"src/render.rs\"\nsignature = \"pub async fn render()\"\nreturn_type = \"Result<RenderOutput>\"\nstart_line = 10\ncomplexity = 2\n# @tribal: Render a diagram.\n\n";
    assert!(out.contains(expected_entry), "{out}");
    assert!(out.starts_with("# kr0ki docgen export"));
    assert!(out.ends_with("# complexity: 3\n"));
}

#[test]
fn tomllm_escapes_the_signature_and_flattens_the_docstring() {
    let mut s = sample_symbol();
    s.signature = "fn f(x: &str) -> \"q\"\n\tnext".into();
    s.docstring = "line one\nline two".into();
    s.return_type = String::new();
    s.start_line = None;
    s.complexity = None;
    let out = format_tomllm(&[s]);
    assert!(out.contains("signature = \"fn f(x: &str) -> \\\"q\\\"\\n\\tnext\"\n"), "{out}");
    assert!(out.contains("# @tribal: line one line two\n"));
    assert!(!out.contains("return_type"));
    assert!(!out.contains("start_line ="));
}

#[test]
fn rustdoc_uses_kind_and_name_when_the_signature_is_empty() {
    let mut s = sample_symbol();
    s.signature = String::new();
    s.start_line = None;
    s.docstring = "first\nsecond\n".into();
    let out = format_rustdoc(&[s]);
    assert!(out.contains("/// `fn render`\n/// first\n/// second\n///\n"), "{out}");
    assert!(out.contains("/// Review source at src/render.rs\n"));
    assert!(out.contains("/// # Kind\n/// fn\n"));
}

#[test]
fn html_groups_symbols_by_kind_in_order_of_first_appearance() {
    let mut st = sample_symbol();
    st.kind = SymbolKind::Struct;
    st.signature = "pub struct A<T>".into();
    let out = format_html(&[sample_symbol(), st, sample_symbol()], "Doc", "a -> b");
    let fn_at = out.find("<h2 id=\"kind-fn\">fn (2)</h2>").unwrap();
    let struct_at = out.find("<h2 id=\"kind-struct\">struct (1)</h2>").unwrap();
    assert!(fn_at < struct_at);
    assert!(out.contains("pub struct A&lt;T&gt;"));
    assert!(out.contains("<span class=\"meta\">src/render.rs:10</span>"));
}

#[test]
fn html_with_a_live_flow_url_embeds_an_image_instead_of_the_svg() {
    let out = format_html_with_live_flow(&[], "T", "a", Some("/render/d2?x=\"1\""));
    assert!(out.contains("<img src=\"/render/d2?x=&quot;1&quot;\""));
    assert!(!out.contains("<svg viewBox"));
    let portable = format_html(&[], "T", "a");
    assert!(portable.contains("<svg viewBox"));
}

#[test]
fn html_escape_covers_the_four_markup_characters() {
    assert_eq!(html_escape("a&b<c>d\"e'f"), "a&amp;b&lt;c&gt;d&quot;e'f");
}

#[test]
fn attribute_noise_is_stripped_and_whitespace_collapsed() {
    assert_eq!(strip_outer_attrs("# [derive (Debug)] pub struct A ;"), " pub struct A ;");
    assert_eq!(strip_outer_attrs("#[inline] fn f() {}"), " fn f() {}");
    assert_eq!(strip_outer_attrs("# [unterminated"), "# [unterminated");
    assert_eq!(collapse_whitespace("  pub   fn\n f ( )  "), "pub fn f ( )");
    assert_eq!(signature_text("# [doc = \"x\"]\npub fn start () -> bool"), "pub fn start () -> bool");
}

#[test]
fn symbols_are_qualified_and_scored() {
    let modules = vec!["outer".to_string(), "inner".to_string()];
    assert_eq!(qualified_name(&modules, "item"), "outer::inner::item");
    assert_eq!(qualified_name(&[], "item"), "item");
    assert_eq!(complexity("one\ntwo", "pub fn f()"), 3);
    let docs = vec![" Start the engine.".to_string(), " Second line.".to_string()];
    let sym = make_symbol(&modules, "test.rs", "start", SymbolKind::Function, "pub fn start() -> bool".into(), "-> bool".into(), &docs);
    assert_eq!(sym.qualified_name, "outer::inner::start");
    assert_eq!(sym.docstring, " Start the engine.\n Second line.");
    assert_eq!(sym.complexity, Some(3));
    assert_eq!(sym.start_line, None);
    assert_eq!(sym.file_path, "test.rs");
}

/// The items nested inside a syntax node (not looking inside those items).
/// The walk is `syn`'s `Visit` trait, an outside trait whose impls the
/// library cannot hold; it copies what it meets field for field, and which
/// of it becomes a symbol, and how, is the library's `harvest_file`.
struct Nested {
    items: Vec<ItemSyntax>,
}

impl<'ast> syn::visit::Visit<'ast> for Nested {
    fn visit_item(&mut self, item: &'ast syn::Item) {
        self.items.push(item_syntax(item));
    }
}

fn nested_items(walk: impl FnOnce(&mut Nested)) -> Vec<ItemSyntax> {
    let mut nested = Nested { items: Vec::new() };
    walk(&mut nested);
    nested.items
}

fn attr_syntax(attr: &syn::Attribute) -> AttrSyntax {
    let string_value = match &attr.meta {
        syn::Meta::NameValue(nv) => match &nv.value {
            syn::Expr::Lit(syn::ExprLit { lit: syn::Lit::Str(lit), .. }) => Some(lit.value()),
            _ => None,
        },
        _ => None,
    };
    AttrSyntax { path: attr.path().segments.iter().map(|s| s.ident.to_string()).collect(), string_value }
}

fn tokens<T: quote::ToTokens>(node: &T) -> String {
    node.to_token_stream().to_string()
}

fn declared(
    kind: SymbolKind,
    name: &syn::Ident,
    vis: &syn::Visibility,
    tokens: String,
    attrs: &[syn::Attribute],
    nested: Vec<ItemSyntax>,
) -> ItemSyntax {
    ItemSyntax {
        kind: Some(kind),
        name: name.to_string(),
        public: matches!(vis, syn::Visibility::Public(_)),
        tokens,
        output_tokens: String::new(),
        attrs: attrs.iter().map(attr_syntax).collect(),
        nested,
    }
}

/// One parsed item as written.
fn item_syntax(item: &syn::Item) -> ItemSyntax {
    match item {
        syn::Item::Mod(m) => declared(
            SymbolKind::Mod,
            &m.ident,
            &m.vis,
            String::new(),
            &m.attrs,
            nested_items(|n| syn::visit::visit_item_mod(n, m)),
        ),
        syn::Item::Fn(f) => ItemSyntax {
            output_tokens: tokens(&f.sig.output),
            ..declared(
                SymbolKind::Function,
                &f.sig.ident,
                &f.vis,
                tokens(&f.sig),
                &f.attrs,
                nested_items(|n| syn::visit::visit_item_fn(n, f)),
            )
        },
        syn::Item::Struct(x) => {
            declared(SymbolKind::Struct, &x.ident, &x.vis, tokens(x), &x.attrs, nested_items(|n| syn::visit::visit_item_struct(n, x)))
        }
        syn::Item::Enum(x) => {
            declared(SymbolKind::Enum, &x.ident, &x.vis, tokens(x), &x.attrs, nested_items(|n| syn::visit::visit_item_enum(n, x)))
        }
        syn::Item::Trait(x) => {
            declared(SymbolKind::Trait, &x.ident, &x.vis, tokens(x), &x.attrs, nested_items(|n| syn::visit::visit_item_trait(n, x)))
        }
        syn::Item::Type(x) => {
            declared(SymbolKind::Type, &x.ident, &x.vis, tokens(x), &x.attrs, nested_items(|n| syn::visit::visit_item_type(n, x)))
        }
        syn::Item::Const(x) => {
            declared(SymbolKind::Const, &x.ident, &x.vis, tokens(x), &x.attrs, nested_items(|n| syn::visit::visit_item_const(n, x)))
        }
        syn::Item::Static(x) => {
            declared(SymbolKind::Static, &x.ident, &x.vis, tokens(x), &x.attrs, nested_items(|n| syn::visit::visit_item_static(n, x)))
        }
        other => ItemSyntax {
            kind: None,
            name: String::new(),
            public: false,
            tokens: String::new(),
            output_tokens: String::new(),
            attrs: Vec::new(),
            nested: nested_items(|n| syn::visit::visit_item(n, other)),
        },
    }
}


fn harvest_source(source: &str, relative_path: &str) -> Vec<Symbol> {
    let file = parse_rust_source(source).unwrap();
    let items: Vec<ItemSyntax> = file.items.iter().map(item_syntax).collect();
    let mut syms = Vec::new();
    harvest_file(&items, relative_path, &mut syms);
    syms
}

#[test]
fn harvests_simple_function() {
    let source = r#"
/// Start the engine.
pub fn start() -> bool { true }
"#;
    let syms = harvest_source(source, "test.rs");
    assert_eq!(syms.len(), 1);
    let s = &syms[0];
    assert_eq!(s.name, "start");
    assert_eq!(s.kind, SymbolKind::Function);
    assert!(s.docstring.contains("Start the engine"));
    assert!(s.signature.contains("pub fn start"), "signature was: {}", s.signature);
    assert_eq!(s.start_line, None);
}

#[test]
fn skips_private_items() {
    let source = r#"
fn hidden() {}
pub fn visible() {}
"#;
    let syms = harvest_source(source, "test.rs");
    assert_eq!(syms.len(), 1);
    assert_eq!(syms[0].name, "visible");
}

#[test]
fn harvests_struct_with_fields() {
    let source = r#"
/// A point in 2D space.
pub struct Point { x: f64, y: f64 }
"#;
    let syms = harvest_source(source, "test.rs");
    assert_eq!(syms.len(), 1);
    assert_eq!(syms[0].kind, SymbolKind::Struct);
    assert!(syms[0].docstring.contains("point in 2D"));
}

#[test]
fn items_are_qualified_by_the_modules_around_them_in_walk_order() {
    let source = r#"
/// Outer docs.
/// Second line.
pub mod outer {
    mod hidden {
        pub fn inner_fn(x: u8) -> u8 { x }
    }
    pub const LIMIT: u32 = 3;
}
pub fn after() { pub struct Local; }
"#;
    let syms = harvest_source(source, "src/lib.rs");
    let names: Vec<&str> = syms.iter().map(|s| s.qualified_name.as_str()).collect();
    assert_eq!(names, vec!["outer", "outer::hidden::inner_fn", "outer::LIMIT", "after", "Local"]);
    assert_eq!(syms[0].kind, SymbolKind::Mod);
    assert_eq!(syms[0].signature, "pub mod outer");
    assert_eq!(syms[0].docstring, " Outer docs.\n Second line.");
    assert_eq!(syms[0].complexity, Some(3));
    assert_eq!(syms[1].return_type, "-> u8");
    assert_eq!(syms[1].signature, "pub fn inner_fn (x : u8) -> u8");
    assert_eq!(syms[2].return_type, "");
    assert!(syms.iter().all(|s| s.file_path == "src/lib.rs"));
}

#[test]
fn only_doc_attributes_make_the_docstring() {
    let items = vec![ItemSyntax {
        kind: Some(SymbolKind::Type),
        name: "Alias".to_string(),
        public: true,
        tokens: "# [allow (dead_code)] pub type Alias = u8 ;".to_string(),
        output_tokens: String::new(),
        attrs: vec![
            AttrSyntax { path: vec!["doc".to_string()], string_value: Some("kept".to_string()) },
            AttrSyntax { path: vec!["allow".to_string()], string_value: None },
            AttrSyntax { path: vec!["other".to_string(), "doc".to_string()], string_value: Some("dropped".to_string()) },
        ],
        nested: Vec::new(),
    }];
    let mut syms = Vec::new();
    harvest_file(&items, "a.rs", &mut syms);
    assert_eq!(syms.len(), 1);
    assert_eq!(syms[0].docstring, "kept");
    assert_eq!(syms[0].signature, "pub type Alias = u8 ;");
}
