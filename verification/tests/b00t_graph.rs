use kr0ki_core::b00t_graph::{
    d2_escape_label, d2_quote, parse_turtle_to_type_graph, triples_to_type_graph, D2Emitter, RdfTerm,
    TurtleGraphError, TypeNode, TypeRelationshipGraph, TypeRelationshipKind,
};

const SAMPLE_TTL: &str = r#"
    @prefix b00t: <http://b00t.promptexecution.com/ontology#> .
    @prefix rdfs: <http://www.w3.org/2000/01/rdf-schema#> .

    <http://b00t.promptexecution.com/ontology#datum/rust.cli>
        b00t:dependsOn <http://b00t.promptexecution.com/ontology#datum/cargo.cli> ;
        b00t:hasPart <http://b00t.promptexecution.com/ontology#datum/rustfmt.cli> ;
        b00t:hasType <http://b00t.promptexecution.com/ontology#type/cli> ;
        b00t:hasKeyword "rust" ;
        b00t:hasSkill "compiled" ;
        rdfs:label "Rust toolchain" .

    <http://b00t.promptexecution.com/ontology#tenant/_base>
        b00t:hasR0le <http://b00t.promptexecution.com/ontology#r0le/_base/worker> .

    <http://b00t.promptexecution.com/ontology#r0le/_base/worker>
        b00t:allowsTool "cargo.*" ;
        b00t:grantsShard <http://b00t.promptexecution.com/ontology#shard/datum/*> ;
        b00t:budgetCeiling "1000" .
"#;

fn has(graph: &TypeRelationshipGraph, source: &str, target: &str, kind: TypeRelationshipKind) -> bool {
    graph
        .relationships
        .iter()
        .any(|r| r.source.ends_with(source) && r.target.ends_with(target) && r.kind == kind)
}

fn node(id: &str, label: &str, kind: &str) -> TypeNode {
    TypeNode { id: id.to_string(), label: label.to_string(), kind: kind.to_string() }
}

#[test]
fn depends_on_and_has_part_and_has_type_become_edges() {
    let graph = parse_turtle_to_type_graph(SAMPLE_TTL.as_bytes()).unwrap();
    assert!(has(&graph, "datum/rust.cli", "datum/cargo.cli", TypeRelationshipKind::References));
    assert!(has(&graph, "datum/rust.cli", "datum/rustfmt.cli", TypeRelationshipKind::Contains));
    assert!(has(&graph, "datum/rust.cli", "type/cli", TypeRelationshipKind::ClassifiedAs));
}

#[test]
fn has_r0le_and_grants_shard_become_edges() {
    let graph = parse_turtle_to_type_graph(SAMPLE_TTL.as_bytes()).unwrap();
    assert!(has(&graph, "tenant/_base", "r0le/_base/worker", TypeRelationshipKind::BelongsTo));
    assert!(has(&graph, "r0le/_base/worker", "shard/datum/*", TypeRelationshipKind::Attests));
}

#[test]
fn literal_valued_predicates_never_become_edges() {
    let graph = parse_turtle_to_type_graph(SAMPLE_TTL.as_bytes()).unwrap();
    assert!(!graph
        .relationships
        .iter()
        .any(|r| r.kind == TypeRelationshipKind::Attests
            && r.source.ends_with("r0le/_base/worker")
            && r.target == "cargo.*"));
    assert_eq!(graph.relationships.len(), 5);
}

#[test]
fn rdfs_label_overrides_the_derived_label() {
    let graph = parse_turtle_to_type_graph(SAMPLE_TTL.as_bytes()).unwrap();
    let rust = graph
        .nodes
        .iter()
        .find(|n| n.id.ends_with("datum/rust.cli"))
        .expect("rust.cli node");
    assert_eq!(rust.label, "Rust toolchain");
}

#[test]
fn node_kind_is_derived_from_the_subject_local_name() {
    let graph = parse_turtle_to_type_graph(SAMPLE_TTL.as_bytes()).unwrap();
    let kind_of = |suffix: &str| graph.nodes.iter().find(|n| n.id.ends_with(suffix)).map(|n| n.kind.clone());
    assert_eq!(kind_of("datum/rust.cli"), Some("datum".to_string()));
    assert_eq!(kind_of("r0le/_base/worker"), Some("r0le".to_string()));
    assert_eq!(kind_of("tenant/_base"), Some("tenant".to_string()));
}

#[test]
fn malformed_turtle_is_a_syntax_error_not_a_panic() {
    let err = parse_turtle_to_type_graph(b"this is not turtle {{{").unwrap_err();
    assert!(matches!(err, TurtleGraphError::Syntax(_)));
}

#[test]
fn d2_emitter_produces_node_and_edge_lines() {
    let graph = parse_turtle_to_type_graph(SAMPLE_TTL.as_bytes()).unwrap();
    let d2 = D2Emitter::emit(&graph.to_cytoscape());
    assert!(d2.contains("-> "));
    assert!(d2.contains(": "));
    for line in d2.lines() {
        assert!(!line.trim().is_empty());
    }
}

#[test]
fn d2_emitter_quotes_ids_with_special_characters() {
    let mut graph = TypeRelationshipGraph::default();
    graph.nodes.push(node("b00t:shard/datum/*", "shard \"star\"", "shard"));
    let d2 = D2Emitter::emit(&graph.to_cytoscape());
    assert!(d2.contains("\"b00t:shard/datum/*\":"));
    assert!(d2.contains(r#": "shard \"star\"""#));
    assert_eq!(d2.lines().count(), 1, "one node -> exactly one D2 statement line");
}

#[test]
fn d2_emitter_quotes_labels_containing_d2_structural_characters() {
    let mut graph = TypeRelationshipGraph::default();
    graph.nodes.push(node("n1", "normal requirement { {shape: circle}", "shard"));
    let d2 = D2Emitter::emit(&graph.to_cytoscape());
    assert_eq!(d2, "\"n1\": \"normal requirement { {shape: circle}\"\n");
    assert_eq!(d2.lines().count(), 1, "malicious braces must not open a nested D2 block across lines");
}

#[test]
fn empty_turtle_yields_an_empty_graph() {
    let graph = parse_turtle_to_type_graph(b"").unwrap();
    assert!(graph.nodes.is_empty());
    assert!(graph.relationships.is_empty());
}

const B: &str = "http://b00t.promptexecution.com/ontology#";
const RDFS_LABEL: &str = "http://www.w3.org/2000/01/rdf-schema#label";

fn iri(local: &str) -> String {
    format!("{B}{local}")
}

#[test]
fn nodes_come_out_in_id_order_with_derived_and_explicit_labels() {
    let triples = vec![
        (iri("svc/zeta"), iri("dependsOn"), RdfTerm::NamedNode(iri("datum/alpha"))),
        (iri("svc/zeta"), RDFS_LABEL.to_string(), RdfTerm::Literal("First".to_string())),
        (iri("svc/zeta"), RDFS_LABEL.to_string(), RdfTerm::Literal("Zeta service".to_string())),
        (iri("type/cli"), iri("hasKeyword"), RdfTerm::Literal("x".to_string())),
    ];
    let graph = triples_to_type_graph(&triples);
    assert_eq!(
        graph.nodes,
        vec![
            node(&iri("datum/alpha"), "alpha", "datum"),
            node(&iri("svc/zeta"), "Zeta service", "svc"),
            node(&iri("type/cli"), "cli", "type"),
        ]
    );
    assert_eq!(graph.relationships.len(), 1);
    assert_eq!(graph.relationships[0].source, iri("svc/zeta"));
    assert_eq!(graph.relationships[0].target, iri("datum/alpha"));
    assert_eq!(graph.relationships[0].kind, TypeRelationshipKind::References);
}

#[test]
fn blank_node_objects_and_foreign_namespaces_make_no_edges() {
    let triples = vec![
        (iri("datum/a"), iri("hasPart"), RdfTerm::BlankNode("b0".to_string())),
        (iri("datum/a"), "http://example.org/ns#hasPart".to_string(), RdfTerm::NamedNode(iri("datum/b"))),
        (iri("datum/a"), iri("unknownPredicate"), RdfTerm::NamedNode(iri("datum/c"))),
    ];
    let graph = triples_to_type_graph(&triples);
    assert!(graph.relationships.is_empty());
    assert_eq!(graph.nodes, vec![node(&iri("datum/a"), "a", "datum")]);
}

#[test]
fn blank_node_subjects_get_an_underscore_colon_id() {
    let graph = parse_turtle_to_type_graph(
        b"@prefix b00t: <http://b00t.promptexecution.com/ontology#> . _:x b00t:hasPart <http://b00t.promptexecution.com/ontology#datum/y> .",
    );
    let graph = graph.unwrap();
    assert!(graph.nodes.iter().any(|n| n.id.starts_with("_:")));
    assert_eq!(graph.relationships.len(), 1);
    assert!(graph.relationships[0].source.starts_with("_:"));
}

#[test]
fn cytoscape_edges_are_labelled_with_their_kind_and_emitted_as_d2_edges() {
    let triples = vec![(iri("tenant/t"), iri("hasR0le"), RdfTerm::NamedNode(iri("r0le/w")))];
    let graph = triples_to_type_graph(&triples);
    let cy = graph.to_cytoscape();
    assert_eq!(cy.edges.len(), 1);
    assert_eq!(cy.edges[0].label, "belongs_to");
    let d2 = D2Emitter::emit(&cy);
    let expected = format!(
        "\"{}\": \"w\"\n\"{}\": \"t\"\n\"{}\" -> \"{}\": \"belongs_to\"\n",
        iri("r0le/w"),
        iri("tenant/t"),
        iri("tenant/t"),
        iri("r0le/w")
    );
    assert_eq!(d2, expected);
}

#[test]
fn d2_quote_and_label_escape_backslashes_quotes_and_newlines() {
    assert_eq!(d2_quote(r#"a"b\c"#), r#""a\"b\\c""#);
    assert_eq!(d2_escape_label("two\nlines"), "\"two lines\"");
}
