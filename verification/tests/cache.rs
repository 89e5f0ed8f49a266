use kr0ki_core::cache::{cache_key, model_cache_key, model_cache_key_with_rules, sha256_hex, FsCache, OutputKind};
use kr0ki_core::format::DiagramFormat;

#[test]
fn key_is_deterministic() {
    let a = cache_key(DiagramFormat::D2, OutputKind::Svg, "a -> b");
    let b = cache_key(DiagramFormat::D2, OutputKind::Svg, "a -> b");
    assert_eq!(a, b);
    assert_eq!(a.len(), 64);
    assert!(a.bytes().all(|c| c.is_ascii_hexdigit()));
}

#[test]
fn key_varies_on_every_input_field() {
    let base = cache_key(DiagramFormat::D2, OutputKind::Svg, "a -> b");
    assert_ne!(
        base,
        cache_key(DiagramFormat::GraphViz, OutputKind::Svg, "a -> b")
    );
    assert_ne!(
        base,
        cache_key(DiagramFormat::D2, OutputKind::Svg, "a -> c")
    );
}

#[test]
fn key_has_no_field_boundary_collision() {
    let k1 = cache_key(DiagramFormat::D2, OutputKind::Svg, "svgFOO");
    let k2 = cache_key(DiagramFormat::D2, OutputKind::Svg, "FOO");
    assert_ne!(k1, k2);
}

#[test]
fn model_key_is_deterministic_and_hex() {
    let a = model_cache_key("overview", "d2", "ab12");
    let b = model_cache_key("overview", "d2", "ab12");
    assert_eq!(a, b);
    assert_eq!(a.len(), 64);
    assert!(a.bytes().all(|c| c.is_ascii_hexdigit()));
}

#[test]
fn model_key_varies_on_every_field() {
    let base = model_cache_key("overview", "d2", "ab12");
    assert_ne!(base, model_cache_key("sequence", "d2", "ab12"));
    assert_ne!(base, model_cache_key("overview", "mermaid", "ab12"));
    assert_ne!(base, model_cache_key("overview", "d2", "cd34"));
}

#[test]
fn model_key_differs_from_text_key_for_same_source() {
    let text = cache_key(DiagramFormat::D2, OutputKind::Svg, "a -> b");
    let model = model_cache_key("overview", "d2", "ab12");
    assert_ne!(text, model);
}

#[test]
fn output_kind_from_param() {
    assert_eq!(OutputKind::from_param("svg"), Some(OutputKind::Svg));
    assert_eq!(OutputKind::from_param("SVG"), Some(OutputKind::Svg));
    assert_eq!(OutputKind::from_param("png"), Some(OutputKind::Png));
    assert_eq!(OutputKind::from_param("pdf"), None);
}

#[test]
fn png_key_differs_from_svg_key() {
    let svg = cache_key(
        DiagramFormat::GraphViz,
        OutputKind::Svg,
        "digraph { a -> b }",
    );
    let png = cache_key(
        DiagramFormat::GraphViz,
        OutputKind::Png,
        "digraph { a -> b }",
    );
    assert_ne!(
        svg, png,
        "same source with different output kind must have different cache keys"
    );
}

#[test]
fn empty_rule_set_version_gives_the_three_field_key() {
    assert_eq!(
        model_cache_key_with_rules("overview", "d2", "ab12", ""),
        model_cache_key("overview", "d2", "ab12")
    );
    assert_ne!(
        model_cache_key_with_rules("overview", "d2", "ab12", "rules-v1"),
        model_cache_key_with_rules("overview", "d2", "ab12", "rules-v2")
    );
}

#[test]
fn sha256_hex_of_abc_is_the_standard_digest() {
    assert_eq!(
        sha256_hex(b"abc"),
        "ba7816bf8f01cfea414140de5dae2223b00361a396177a9cb410ff61f20015ad"
    );
}

#[test]
fn path_for_shards_by_the_first_two_key_characters() {
    let cache = FsCache::new("/tmp/kr0ki-cache".to_string());
    let key = cache_key(DiagramFormat::PlantUml, OutputKind::Png, "a -> b");
    let path = cache.path_for(&key, OutputKind::Png);
    assert_eq!(path, format!("/tmp/kr0ki-cache/{}/{}.png", &key[..2], key));
    let trailing = FsCache::new("/tmp/kr0ki-cache/".to_string());
    assert_eq!(trailing.path_for(&key, OutputKind::Svg), format!("/tmp/kr0ki-cache/{}/{}.svg", &key[..2], key));
    assert_eq!(cache.root(), "/tmp/kr0ki-cache");
}

#[test]
fn content_types_and_extensions() {
    assert_eq!(OutputKind::Svg.ext(), "svg");
    assert_eq!(OutputKind::Png.ext(), "png");
    assert_eq!(OutputKind::Svg.content_type(), "image/svg+xml");
    assert_eq!(OutputKind::Png.content_type(), "image/png");
}
