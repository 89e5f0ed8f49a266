use kr0ki_core::cache::OutputKind;
use kr0ki_core::flatten::{svg_to_png, FlattenError};
use kr0ki_core::format::DiagramFormat;
use kr0ki_core::render::{classify_failure, normalize_base_url, render_url, status_line, RenderError};

#[test]
fn base_url_trailing_slash_is_normalised() {
    assert_eq!(normalize_base_url("https://kroki.io/"), "https://kroki.io");
    assert_eq!(normalize_base_url("https://kroki.io//"), "https://kroki.io");
    assert_eq!(normalize_base_url("https://kroki.io"), "https://kroki.io");
}

#[test]
fn render_url_is_base_slug_and_extension() {
    assert_eq!(
        render_url("http://localhost:8000", DiagramFormat::GraphViz, OutputKind::Png),
        "http://localhost:8000/graphviz/png"
    );
}

#[test]
fn a_400_is_a_bad_source_with_the_body_cut_to_2000_characters() {
    let body = "e".repeat(2500);
    match classify_failure(400, &body) {
        RenderError::BadSource { status, body } => {
            assert_eq!(status, 400);
            assert_eq!(body.chars().count(), 2000);
        }
        other => panic!("unexpected {other:?}"),
    }
}

#[test]
fn other_statuses_are_unavailable_with_the_status_line() {
    assert_eq!(
        classify_failure(503, "down"),
        RenderError::Unavailable("503 Service Unavailable: down".to_string())
    );
    assert_eq!(status_line(404), "404 Not Found");
    assert_eq!(status_line(599), "599 <unknown status code>");
    let body = "b".repeat(600);
    match classify_failure(500, &body) {
        RenderError::Unavailable(m) => assert_eq!(m.len(), "500 Internal Server Error: ".len() + 500),
        other => panic!("unexpected {other:?}"),
    }
}

#[test]
fn render_error_messages() {
    assert_eq!(
        RenderError::BadSource { status: 400, body: "bad".into() }.message(),
        "backend rejected the diagram source (400): bad"
    );
    assert_eq!(RenderError::Unavailable("x".into()).message(), "backend unavailable: x");
    assert_eq!(RenderError::Flatten("y".into()).message(), "SVG-to-PNG flatten failed: y");
}

const SAMPLE_SVG: &str = r#"<svg xmlns="http://www.w3.org/2000/svg" width="40" height="20"><rect width="40" height="20" fill="red"/></svg>"#;

#[test]
fn flattens_a_simple_svg_to_a_valid_png() {
    let png = svg_to_png(SAMPLE_SVG.as_bytes()).unwrap();
    assert!(png.starts_with(b"\x89PNG\r\n\x1a\n"), "not a PNG signature");
}

#[test]
fn invalid_svg_is_rejected() {
    let err = svg_to_png(b"not an svg").unwrap_err();
    assert!(matches!(err, FlattenError::InvalidSvg(_)));
    assert!(err.message().starts_with("invalid SVG: "));
}

#[test]
fn zero_sized_svg_is_rejected() {
    let svg = r#"<svg xmlns="http://www.w3.org/2000/svg" width="0" height="0"></svg>"#;
    assert!(svg_to_png(svg.as_bytes()).is_err());
}
