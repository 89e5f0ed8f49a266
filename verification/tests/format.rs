use kr0ki_core::format::{all_formats, DiagramFormat};

#[test]
fn all_slug_round_trips_through_from_str() {
    for f in all_formats() {
        assert_eq!(f.kroki_slug().parse::<DiagramFormat>().unwrap(), f);
    }
}

#[test]
fn from_str_is_case_and_whitespace_insensitive() {
    assert_eq!(
        "  PlantUML ".parse::<DiagramFormat>().unwrap(),
        DiagramFormat::PlantUml
    );
}

#[test]
fn companion_only_and_unknown_formats_are_rejected() {
    for bad in [
        "mermaid",
        "excalidraw",
        "bpmn",
        "diagramsnet",
        "totally-made-up",
    ] {
        let err = bad.parse::<DiagramFormat>().unwrap_err();
        assert!(err.message().contains(bad));
    }
}

#[test]
fn all_has_one_entry_per_declared_const_and_no_duplicate_slugs() {
    let all = all_formats();
    let mut slugs: Vec<&str> = all.iter().map(|f| f.kroki_slug()).collect();
    let before = slugs.len();
    slugs.sort_unstable();
    slugs.dedup();
    assert_eq!(
        slugs.len(),
        before,
        "duplicate kroki_slug in DiagramFormat::ALL"
    );
    assert_eq!(all.len(), 26);
}

#[test]
fn unsupported_format_message_quotes_the_name() {
    let err = "nope".parse::<DiagramFormat>().unwrap_err();
    assert!(err.message().contains("\"nope\""));
}
