use kr0ki_core::ontology::{ElementId, UfoRelation};
use kr0ki_core::rust_recognizer::{
    crate_ident, cross_crate_requires, recognize_files, to_sysgraph, Edge, Node, RustFile, RustItem, RustType,
};
use kr0ki_core::rust_syntax::{
    convert_file, parse_rust_source, recognize_syntax, SynCall, SynFile, SynItem, SynSegment, SynType, SynUse,
};
use kr0ki_core::sysgraph::UfoStereotype;

/// The items nested inside a syntax node (not looking inside those items).
struct Nested {
    items: Vec<SynItem>,
}

impl<'ast> syn::visit::Visit<'ast> for Nested {
    fn visit_item(&mut self, item: &'ast syn::Item) {
        self.items.push(syn_item(item));
    }
}

fn nested_items(walk: impl FnOnce(&mut Nested)) -> Vec<SynItem> {
    let mut nested = Nested { items: Vec::new() };
    walk(&mut nested);
    nested.items
}

/// Every call expression in `block` whose callee is a path, in source
/// order, calls inside a nested `fn` item excluded.
fn path_calls(block: &syn::Block) -> Vec<SynCall> {
    struct CallCollector {
        out: Vec<SynCall>,
    }

    impl syn::visit::Visit<'_> for CallCollector {
        fn visit_expr_call(&mut self, node: &syn::ExprCall) {
            if let syn::Expr::Path(p) = node.func.as_ref() {
                self.out.push(SynCall {
                    qualified_self: p.qself.is_some(),
                    segments: p.path.segments.iter().map(|s| s.ident.to_string()).collect(),
                });
            }
            syn::visit::visit_expr_call(self, node);
        }

        fn visit_item_fn(&mut self, _node: &syn::ItemFn) {}
    }

    let mut collector = CallCollector { out: Vec::new() };
    syn::visit::visit_block(&mut collector, block);
    collector.out
}

fn syn_segment(segment: &syn::PathSegment) -> SynSegment {
    let mut type_args = Vec::new();
    if let syn::PathArguments::AngleBracketed(bracketed) = &segment.arguments {
        for arg in &bracketed.args {
            if let syn::GenericArgument::Type(inner) = arg {
                type_args.push(syn_type(inner));
            }
        }
    }
    SynSegment { ident: segment.ident.to_string(), type_args }
}

fn syn_type(ty: &syn::Type) -> SynType {
    match ty {
        syn::Type::Path(type_path) => SynType::Path(type_path.path.segments.iter().map(syn_segment).collect()),
        syn::Type::Reference(r) => SynType::Reference(Box::new(syn_type(&r.elem))),
        syn::Type::Array(a) => SynType::Array(Box::new(syn_type(&a.elem))),
        syn::Type::Paren(p) => SynType::Paren(Box::new(syn_type(&p.elem))),
        syn::Type::Group(g) => SynType::Group(Box::new(syn_type(&g.elem))),
        _ => SynType::Other,
    }
}

fn syn_use(tree: &syn::UseTree) -> SynUse {
    match tree {
        syn::UseTree::Path(p) => SynUse::Path { ident: p.ident.to_string(), rest: Box::new(syn_use(&p.tree)) },
        syn::UseTree::Group(g) => SynUse::Group(g.items.iter().map(syn_use).collect()),
        syn::UseTree::Name(_) => SynUse::Name,
        syn::UseTree::Rename(_) => SynUse::Rename,
        syn::UseTree::Glob(_) => SynUse::Glob,
    }
}

/// One parsed item as written.
fn syn_item(item: &syn::Item) -> SynItem {
    match item {
        syn::Item::Mod(m) => SynItem::Mod {
            name: m.ident.to_string(),
            items: m.content.as_ref().map(|(_, items)| items.iter().map(syn_item).collect()).unwrap_or_default(),
        },
        syn::Item::Struct(s) => SynItem::Struct {
            name: s.ident.to_string(),
            field_types: s.fields.iter().map(|f| syn_type(&f.ty)).collect(),
            nested: nested_items(|n| syn::visit::visit_item_struct(n, s)),
        },
        syn::Item::Enum(e) => SynItem::Enum {
            name: e.ident.to_string(),
            variants: e.variants.iter().map(|v| v.fields.iter().map(|f| syn_type(&f.ty)).collect()).collect(),
            nested: nested_items(|n| syn::visit::visit_item_enum(n, e)),
        },
        syn::Item::Trait(t) => SynItem::Trait {
            name: t.ident.to_string(),
            nested: nested_items(|n| syn::visit::visit_item_trait(n, t)),
        },
        syn::Item::Fn(f) => SynItem::Fn {
            name: f.sig.ident.to_string(),
            calls: path_calls(&f.block),
            nested: nested_items(|n| syn::visit::visit_item_fn(n, f)),
        },
        syn::Item::Impl(i) => SynItem::Impl {
            generic: !i.generics.params.is_empty(),
            trait_path: i
                .trait_
                .as_ref()
                .map(|(_, path, _)| path.segments.iter().map(|s| s.ident.to_string()).collect()),
            self_type: syn_type(&i.self_ty),
            nested: nested_items(|n| syn::visit::visit_item_impl(n, i)),
        },
        syn::Item::Use(u) => SynItem::Use(syn_use(&u.tree)),
        other => SynItem::Other { nested: nested_items(|n| syn::visit::visit_item(n, other)) },
    }
}

/// One parsed file as written.
fn syn_file(file: &syn::File) -> SynFile {
    SynFile { items: file.items.iter().map(syn_item).collect() }
}

fn recognize_source(source: &str) -> Result<(Vec<Node>, Vec<Edge>), String> {
    let file = parse_rust_source(source)?;
    Ok(recognize_syntax(&[syn_file(&file)]))
}

fn has_edge(edges: &[Edge], from: &str, to: &str, edge_type: &str) -> bool {
    edges.iter().any(|e| e.from == from && e.to == to && e.edge_type == edge_type)
}

fn parse_all(sources: &[&str]) -> Vec<RustFile> {
    sources.iter().map(|s| convert_file(&syn_file(&parse_rust_source(s).unwrap()))).collect()
}

fn crates(names: &[&str]) -> Vec<String> {
    names.iter().map(|s| s.to_string()).collect()
}

#[test]
fn module_declares_has_part_edges_to_its_direct_items() {
    let src = r#"
        mod pkg {
            struct A;
            fn f() {}
        }
    "#;
    let (nodes, edges) = recognize_source(src).unwrap();
    assert!(nodes.iter().any(|n| n.id == "pkg" && n.part_type == "module"));
    assert!(nodes.iter().any(|n| n.id == "pkg::A" && n.part_type == "struct"));
    assert!(nodes.iter().any(|n| n.id == "pkg::f" && n.part_type == "function"));
    assert!(has_edge(&edges, "pkg", "pkg::A", "has_part"));
    assert!(has_edge(&edges, "pkg", "pkg::f", "has_part"));
}

#[test]
fn nested_modules_chain_has_part_from_outer_to_inner() {
    let src = r#"
        mod outer {
            mod inner {
                struct Leaf;
            }
        }
    "#;
    let (_, edges) = recognize_source(src).unwrap();
    assert!(has_edge(&edges, "outer", "outer::inner", "has_part"));
    assert!(has_edge(&edges, "outer::inner", "outer::inner::Leaf", "has_part"));
}

#[test]
fn top_level_items_outside_any_module_get_no_containment_edge() {
    let src = "struct A;";
    let (nodes, edges) = recognize_source(src).unwrap();
    assert!(nodes.iter().any(|n| n.id == "A"));
    assert!(edges.is_empty());
}

#[test]
fn struct_field_of_a_local_struct_type_becomes_has_part() {
    let src = r#"
        struct Engine;
        struct Car { engine: Engine }
    "#;
    let (_, edges) = recognize_source(src).unwrap();
    assert!(has_edge(&edges, "Car", "Engine", "has_part"));
}

#[test]
fn field_type_wrapped_in_option_or_vec_still_resolves_to_the_inner_local_type() {
    let src = r#"
        struct Wheel;
        struct Car {
            spare: Option<Wheel>,
            wheels: Vec<Wheel>,
        }
    "#;
    let (_, edges) = recognize_source(src).unwrap();
    let count = edges
        .iter()
        .filter(|e| e.from == "Car" && e.to == "Wheel" && e.edge_type == "has_part")
        .count();
    assert_eq!(count, 2);
}

#[test]
fn field_of_a_std_or_external_type_produces_no_edge() {
    let src = r#"
        struct Car {
            name: String,
            weight: u32,
        }
    "#;
    let (_, edges) = recognize_source(src).unwrap();
    assert!(edges.is_empty());
}

#[test]
fn enum_variant_fields_are_also_recognized() {
    let src = r#"
        struct Payload;
        enum Message {
            Data(Payload),
            Ping,
        }
    "#;
    let (nodes, edges) = recognize_source(src).unwrap();
    assert!(nodes.iter().any(|n| n.id == "Message" && n.part_type == "enum"));
    assert!(has_edge(&edges, "Message", "Payload", "has_part"));
}

#[test]
fn trait_and_function_items_are_registered_as_nodes() {
    let src = r#"
        trait Drive {}
        fn go() {}
    "#;
    let (nodes, _) = recognize_source(src).unwrap();
    assert!(nodes.iter().any(|n| n.id == "Drive" && n.part_type == "trait"));
    assert!(nodes.iter().any(|n| n.id == "go" && n.part_type == "function"));
}

#[test]
fn nodes_are_deduplicated_by_id() {
    let src = r#"
        mod pkg {
            struct A;
        }
    "#;
    let (nodes, _) = recognize_source(src).unwrap();
    let count = nodes.iter().filter(|n| n.id == "pkg::A").count();
    assert_eq!(count, 1);
}

#[test]
fn trait_impl_for_a_local_type_becomes_satisfies() {
    let src = r#"
        trait Drive {}
        struct Car;
        impl Drive for Car {}
    "#;
    let (_, edges) = recognize_source(src).unwrap();
    assert!(has_edge(&edges, "Car", "Drive", "satisfies"));
}

#[test]
fn trait_impl_nodes_reuse_the_already_declared_node_not_a_duplicate() {
    let src = r#"
        trait Drive {}
        struct Car;
        impl Drive for Car {}
    "#;
    let (nodes, _) = recognize_source(src).unwrap();
    let car_nodes: Vec<_> = nodes.iter().filter(|n| n.id == "Car").collect();
    assert_eq!(car_nodes.len(), 1);
    assert_eq!(car_nodes[0].part_type, "struct");
    let drive_nodes: Vec<_> = nodes.iter().filter(|n| n.id == "Drive").collect();
    assert_eq!(drive_nodes.len(), 1);
    assert_eq!(drive_nodes[0].part_type, "trait");
}

#[test]
fn inherent_impl_with_no_trait_produces_no_satisfies_edge() {
    let src = r#"
        struct Car;
        impl Car {
            fn honk(&self) {}
        }
    "#;
    let (_, edges) = recognize_source(src).unwrap();
    assert!(!edges.iter().any(|e| e.edge_type == "satisfies"));
}

#[test]
fn generic_impl_is_skipped_pending_a_decided_edge_shape() {
    let src = r#"
        trait Wrap {}
        struct Box2<T> { inner: T }
        impl<T> Wrap for Box2<T> {}
    "#;
    let (_, edges) = recognize_source(src).unwrap();
    assert!(!edges.iter().any(|e| e.edge_type == "satisfies"));
}

#[test]
fn blanket_impl_over_an_external_generic_type_is_skipped() {
    let src = r#"
        trait Describe {}
        impl<T: std::fmt::Debug> Describe for Vec<T> {}
    "#;
    let (_, edges) = recognize_source(src).unwrap();
    assert!(!edges.iter().any(|e| e.edge_type == "satisfies"));
}

#[test]
fn trait_impl_for_an_external_type_falls_back_to_its_bare_simple_name() {
    let src = "impl std::fmt::Debug for String {}";
    let (nodes, edges) = recognize_source(src).unwrap();
    assert!(has_edge(&edges, "String", "Debug", "satisfies"));
    assert!(nodes.iter().any(|n| n.id == "String" && n.part_type == "type"));
    assert!(nodes.iter().any(|n| n.id == "Debug" && n.part_type == "trait"));
}

#[test]
fn trait_impl_inside_a_module_resolves_to_qualified_names() {
    let src = r#"
        mod shapes {
            trait Area {}
            struct Circle;
            impl Area for Circle {}
        }
    "#;
    let (_, edges) = recognize_source(src).unwrap();
    assert!(has_edge(&edges, "shapes::Circle", "shapes::Area", "satisfies"));
}

#[test]
fn direct_same_module_call_becomes_flows_to() {
    let src = r#"
        fn helper() {}
        fn run() {
            helper();
        }
    "#;
    let (_, edges) = recognize_source(src).unwrap();
    assert!(has_edge(&edges, "run", "helper", "flows_to"));
}

#[test]
fn method_calls_and_qualified_calls_are_not_recognized() {
    let src = r#"
        struct Car;
        impl Car {
            fn honk(&self) {}
            fn start(&self) {
                self.honk();
                Car::honk(self);
            }
        }
        fn run() {
            other::helper();
        }
        mod other {
            pub fn helper() {}
        }
    "#;
    let (_, edges) = recognize_source(src).unwrap();
    assert!(!edges.iter().any(|e| e.edge_type == "flows_to"));
}

#[test]
fn calls_across_modules_are_not_recognized_even_with_the_same_simple_name() {
    let src = r#"
        mod a {
            pub fn parse() {}
            pub fn run() {
                parse();
            }
        }
        mod b {
            pub fn parse() {}
        }
    "#;
    let (_, edges) = recognize_source(src).unwrap();
    assert!(has_edge(&edges, "a::run", "a::parse", "flows_to"));
    assert!(!has_edge(&edges, "a::run", "b::parse", "flows_to"));
    assert_eq!(edges.iter().filter(|e| e.edge_type == "flows_to").count(), 1);
}

#[test]
fn calls_inside_a_nested_fn_item_are_not_attributed_to_the_outer_function() {
    let src = r#"
        fn helper() {}
        fn outer() {
            fn inner() {
                helper();
            }
        }
    "#;
    let (_, edges) = recognize_source(src).unwrap();
    assert!(!has_edge(&edges, "outer", "helper", "flows_to"));
    assert!(has_edge(&edges, "inner", "helper", "flows_to"));
}

#[test]
fn calls_inside_a_closure_are_attributed_to_the_enclosing_function() {
    let src = r#"
        fn helper() {}
        fn run() {
            let f = || helper();
            f();
        }
    "#;
    let (_, edges) = recognize_source(src).unwrap();
    assert!(has_edge(&edges, "run", "helper", "flows_to"));
}

#[test]
fn a_call_to_an_unrecognized_name_is_silently_skipped() {
    let src = r#"
        fn run() {
            std::process::exit(0);
            println!("hi");
        }
    "#;
    let (_, edges) = recognize_source(src).unwrap();
    assert!(!edges.iter().any(|e| e.edge_type == "flows_to"));
}

#[test]
fn use_of_a_workspace_sibling_crate_becomes_requires() {
    let files = parse_all(&["use other_crate::Thing;"]);
    let edges = cross_crate_requires(&files, "this_crate", &crates(&["other_crate"]));
    assert_eq!(edges.len(), 1);
    assert_eq!(edges[0].from, "this_crate");
    assert_eq!(edges[0].to, "other_crate");
    assert_eq!(edges[0].edge_type, "requires");
}

#[test]
fn use_of_a_genuine_external_dependency_is_not_recognized() {
    let files = parse_all(&["use serde::Serialize;", "use tokio::spawn;"]);
    let edges = cross_crate_requires(&files, "this_crate", &crates(&["other_crate"]));
    assert!(edges.is_empty());
}

#[test]
fn use_of_self_super_crate_and_the_current_crate_itself_are_excluded() {
    let files = parse_all(&[
        "use self::inner::Thing;",
        "use super::Other;",
        "use crate::local::Item;",
        "use this_crate::AlsoLocal;",
    ]);
    let edges = cross_crate_requires(&files, "this_crate", &crates(&["this_crate"]));
    assert!(edges.is_empty());
}

#[test]
fn grouped_use_statements_are_all_recognized() {
    let files = parse_all(&["use {other_crate::A, another_crate::B};"]);
    let mut edges = cross_crate_requires(&files, "this_crate", &crates(&["other_crate", "another_crate"]));
    edges.sort_by(|a, b| a.to.cmp(&b.to));
    assert_eq!(edges.len(), 2);
    assert_eq!(edges[0].to, "another_crate");
    assert_eq!(edges[1].to, "other_crate");
}

#[test]
fn multiple_use_sites_of_the_same_crate_produce_one_edge() {
    let files = parse_all(&["use other_crate::A;", "use other_crate::B;", "use other_crate::c::D;"]);
    let edges = cross_crate_requires(&files, "this_crate", &crates(&["other_crate"]));
    assert_eq!(edges.len(), 1);
}

#[test]
fn to_sysgraph_round_trips_nodes_and_edges_with_no_dangling_endpoints() {
    let src = r#"
        trait Drive {}
        struct Engine;
        struct Car { engine: Engine }
        impl Drive for Car {}
        fn start() {}
        fn run() {
            start();
        }
    "#;
    let (nodes, edges) = recognize_source(src).unwrap();
    let graph = to_sysgraph(&nodes, &edges);
    assert_eq!(graph.nodes.len(), nodes.len());
    assert_eq!(graph.edges.len(), edges.len());
    assert!(graph.dangling_edges().is_empty());
}

#[test]
fn to_sysgraph_relation_kinds_match_the_recognized_edge_types() {
    let src = r#"
        trait Drive {}
        struct Engine;
        struct Car { engine: Engine }
        impl Drive for Car {}
    "#;
    let (nodes, edges) = recognize_source(src).unwrap();
    let graph = to_sysgraph(&nodes, &edges);
    let has_part_count = graph.edges.iter().filter(|e| e.relation == UfoRelation::HasPart).count();
    let satisfies_count = graph.edges.iter().filter(|e| e.relation == UfoRelation::Satisfies).count();
    assert!(has_part_count >= 1, "expected at least one has_part edge");
    assert_eq!(satisfies_count, 1, "expected exactly one satisfies edge");
}

#[test]
fn to_sysgraph_gives_every_node_a_stereotype_matching_patterns_rust_source_md() {
    let src = r#"
        mod pkg {
            trait Drive {}
            struct Car;
            fn go() {}
        }
    "#;
    let (nodes, edges) = recognize_source(src).unwrap();
    let graph = to_sysgraph(&nodes, &edges);
    let stereotype_of = |id: &str| {
        graph
            .node(&ElementId::new(id))
            .map(|n| n.stereotype.clone())
            .unwrap_or_else(|| panic!("no node for {id}"))
    };
    assert!(matches!(stereotype_of("pkg"), UfoStereotype::Kind(_)));
    assert!(matches!(stereotype_of("pkg::Car"), UfoStereotype::Kind(_)));
    assert!(matches!(stereotype_of("pkg::go"), UfoStereotype::Kind(_)));
    assert!(matches!(stereotype_of("pkg::Drive"), UfoStereotype::Role(_)));
}

#[test]
fn edge_ids_join_endpoints_and_type_and_nodes_are_labelled_by_id() {
    let src = r#"
        mod pkg {
            struct A;
        }
    "#;
    let (nodes, edges) = recognize_source(src).unwrap();
    assert_eq!(edges[0].id, "pkg_has_part_pkg::A");
    assert!(edges[0].kind.is_none());
    assert!(nodes.iter().all(|n| n.label == n.id));
}

#[test]
fn a_type_declared_in_another_file_resolves_across_the_tree() {
    let files = parse_all(&["mod engines { pub struct Engine; }", "struct Car { engine: Box<Engine> }"]);
    let (_, edges) = recognize_files(&files);
    assert!(has_edge(&edges, "Car", "engines::Engine", "has_part"));
}

#[test]
fn a_field_of_the_owner_s_own_type_makes_no_self_edge() {
    let (_, edges) = recognize_source("struct Node { next: Option<Box<Node>> }").unwrap();
    assert!(edges.is_empty());
}

#[test]
fn requires_edges_come_out_in_crate_name_order() {
    let files = parse_all(&["use zeta::A;", "use alpha::B;"]);
    let edges = cross_crate_requires(&files, "me", &crates(&["zeta", "alpha"]));
    let targets: Vec<&str> = edges.iter().map(|e| e.to.as_str()).collect();
    assert_eq!(targets, vec!["alpha", "zeta"]);
    assert_eq!(edges[0].id, "me_requires_alpha");
}

#[test]
fn package_names_become_use_path_identifiers() {
    assert_eq!(crate_ident("kr0ki-core"), "kr0ki_core");
    assert_eq!(crate_ident("plain"), "plain");
}

#[test]
fn summaries_can_be_built_directly() {
    let file = RustFile {
        items: vec![RustItem::Struct {
            name: "S".to_string(),
            field_types: vec![RustType::Other],
            nested: Vec::new(),
        }],
    };
    let (nodes, edges) = recognize_files(&[file]);
    assert_eq!(nodes.len(), 1);
    assert!(edges.is_empty());
}

fn seg(ident: &str, type_args: Vec<SynType>) -> SynSegment {
    SynSegment { ident: ident.to_string(), type_args }
}

#[test]
fn a_type_is_read_by_its_last_segment_through_references() {
    let foo = SynType::Path(vec![seg("crate", Vec::new()), seg("Foo", Vec::new())]);
    let ty = SynType::Reference(Box::new(SynType::Path(vec![
        seg("std", Vec::new()),
        seg("option", Vec::new()),
        seg("Option", vec![SynType::Path(vec![seg("Vec", vec![foo])])]),
    ])));
    match kr0ki_core::rust_syntax::convert_type(&ty) {
        RustType::Path { name, args } => {
            assert_eq!(name, "Option");
            assert_eq!(args.len(), 1);
            match &args[0] {
                RustType::Path { name, args } => {
                    assert_eq!(name, "Vec");
                    assert!(matches!(&args[0], RustType::Path { name, args } if name == "Foo" && args.is_empty()));
                }
                RustType::Other => panic!("expected a path"),
            }
        }
        RustType::Other => panic!("expected a path"),
    }
    assert!(matches!(kr0ki_core::rust_syntax::convert_type(&SynType::Path(Vec::new())), RustType::Other));
    assert!(matches!(kr0ki_core::rust_syntax::convert_type(&SynType::Other), RustType::Other));
}

#[test]
fn only_single_segment_calls_without_a_qualified_self_count() {
    let call = |q: bool, segs: &[&str]| SynCall { qualified_self: q, segments: segs.iter().map(|s| s.to_string()).collect() };
    let item = SynItem::Fn {
        name: "main".to_string(),
        calls: vec![call(false, &["helper"]), call(false, &["a", "b"]), call(true, &["x"]), call(false, &["other"])],
        nested: Vec::new(),
    };
    match kr0ki_core::rust_syntax::convert_item(&item) {
        RustItem::Fn { name, calls, .. } => {
            assert_eq!(name, "main");
            assert_eq!(calls, vec!["helper".to_string(), "other".to_string()]);
        }
        _ => panic!("expected a fn"),
    }
}

#[test]
fn use_roots_are_the_leading_segments_through_groups() {
    let path = |ident: &str, rest: SynUse| SynUse::Path { ident: ident.to_string(), rest: Box::new(rest) };
    let tree = SynUse::Group(vec![path("serde", SynUse::Name), path("tokio", path("sync", SynUse::Glob)), SynUse::Rename]);
    let file = SynFile { items: vec![SynItem::Use(tree)] };
    let converted = convert_file(&file);
    match &converted.items[0] {
        RustItem::Use { roots } => assert_eq!(roots, &vec!["serde".to_string(), "tokio".to_string()]),
        _ => panic!("expected a use"),
    }
}

#[test]
fn an_impl_is_read_by_its_trait_and_self_type_last_segments() {
    let item = SynItem::Impl {
        generic: true,
        trait_path: Some(vec!["std".to_string(), "fmt".to_string(), "Display".to_string()]),
        self_type: SynType::Path(vec![seg("crate", Vec::new()), seg("Engine", Vec::new())]),
        nested: Vec::new(),
    };
    match kr0ki_core::rust_syntax::convert_item(&item) {
        RustItem::Impl { generic, trait_name, self_type, .. } => {
            assert!(generic);
            assert_eq!(trait_name.as_deref(), Some("Display"));
            assert_eq!(self_type.as_deref(), Some("Engine"));
        }
        _ => panic!("expected an impl"),
    }
}

#[test]
fn an_unparseable_source_is_refused() {
    assert!(parse_rust_source("fn (").is_err());
    assert!(recognize_source("struct S { a: u8 }").is_ok());
}

#[test]
fn rust_topology_example_actually_exercises_the_recognizer_pipeline() {
    let all = kr0ki_core::examples::all();
    let example = all
        .iter()
        .find(|e| e.id == "rust-topology-render-backend")
        .expect("rust-topology-render-backend example exists");
    let (nodes, edges) = recognize_source(example.source).expect("example source is valid Rust");
    let graph = to_sysgraph(&nodes, &edges);
    assert!(graph.dangling_edges().is_empty(), "every edge endpoint should resolve to a node");
    let relation_kinds: Vec<UfoRelation> = graph.edges.iter().map(|e| e.relation).collect();
    assert!(relation_kinds.contains(&UfoRelation::HasPart), "expected at least one has_part edge");
    assert!(relation_kinds.contains(&UfoRelation::Satisfies), "expected the KrokiBackend -> Backend trait-impl edge");
    assert!(relation_kinds.contains(&UfoRelation::FlowsTo), "expected the render_service -> fetch call edge");
    let relations: Vec<_> =
        kr0ki_core::sysml_lift::lift_edges(&graph.edges).into_iter().map(|lifted| lifted.relation).collect();
    let d2 = kr0ki_core::sysml_render::to_d2(&relations);
    assert!(d2.contains("->"), "expected at least one D2 edge line:\n{d2}");
}
