use std::collections::BTreeMap;

use kr0ki_core::json::JsonValue;
use kr0ki_core::probe::{candidates, classify_probe, health_url, probe_url, registered_converters, request_failed, ProbeOutcome};

fn entries(map: BTreeMap<String, String>) -> Vec<(String, String)> {
    map.into_iter().collect()
}

#[test]
fn candidates_excludes_already_wired_formats() {
    let mut registered = BTreeMap::new();
    registered.insert("d2".to_string(), "0.7.1".to_string());
    registered.insert("mermaid".to_string(), "11.0".to_string());
    registered.insert("dot".to_string(), "14.1.3".to_string());

    let found = candidates(&entries(registered));
    assert!(!found.contains(&"d2".to_string()));
    assert!(found.contains(&"mermaid".to_string()));
    assert!(found.contains(&"dot".to_string()));
}

#[test]
fn candidates_keep_key_order() {
    let mut registered = BTreeMap::new();
    registered.insert("zeta".to_string(), "1".to_string());
    registered.insert("alpha".to_string(), "1".to_string());
    registered.insert("graphviz".to_string(), "1".to_string());
    assert_eq!(candidates(&entries(registered)), vec!["alpha".to_string(), "zeta".to_string()]);
}

#[test]
fn probe_with_source_reports_companion_free_on_real_svg() {
    let body = b"<?xml version=\"1.0\"?><svg></svg>";
    assert_eq!(classify_probe(200, "", body), ProbeOutcome::CompanionFree);
    assert_eq!(classify_probe(200, "", b"<svg/>"), ProbeOutcome::CompanionFree);
}

#[test]
fn probe_with_source_reports_companion_required_on_503() {
    assert_eq!(classify_probe(503, "", b""), ProbeOutcome::CompanionRequired);
}

#[test]
fn probe_with_source_flags_a_200_with_empty_body_as_needs_investigation() {
    let outcome = classify_probe(200, "", b"");
    assert!(matches!(
        outcome,
        ProbeOutcome::NeedsInvestigation { status: 200, .. }
    ));
    assert_eq!(
        outcome,
        ProbeOutcome::NeedsInvestigation {
            status: 200,
            detail: "200 OK but body doesn't look like SVG (0 bytes)".to_string()
        }
    );
}

#[test]
fn an_unexpected_status_reports_the_first_two_hundred_characters() {
    let long = "x".repeat(300);
    match classify_probe(500, &long, long.as_bytes()) {
        ProbeOutcome::NeedsInvestigation { status, detail } => {
            assert_eq!(status, 500);
            assert_eq!(detail.len(), 200);
        }
        other => panic!("unexpected {other:?}"),
    }
    assert_eq!(
        request_failed("connection refused"),
        ProbeOutcome::NeedsInvestigation { status: 0, detail: "request failed: connection refused".to_string() }
    );
}

#[test]
fn fetch_registered_converters_drops_the_kroki_entry() {
    let version = JsonValue::Object(vec![
        ("d2".to_string(), JsonValue::Str("0.7.1".to_string())),
        ("kroki".to_string(), JsonValue::Object(vec![("number".to_string(), JsonValue::Str("1.0".to_string()))])),
        ("mermaid".to_string(), JsonValue::Str("11.0".to_string())),
    ]);
    let health = JsonValue::Object(vec![
        ("status".to_string(), JsonValue::Str("pass".to_string())),
        ("version".to_string(), version),
    ]);
    let registered = registered_converters(&health, "http://kroki/health").unwrap();
    assert_eq!(registered.len(), 2);
    assert_eq!(registered[0], ("d2".to_string(), "0.7.1".to_string()));
    assert!(!registered.iter().any(|(k, _)| k == "kroki"));
    let err = registered_converters(&JsonValue::Null, "http://kroki/health").unwrap_err();
    assert_eq!(err, "http://kroki/health response has no \"version\" object");
}

#[test]
fn probe_urls_drop_trailing_slashes() {
    assert_eq!(probe_url("http://kroki:8000//", "d2"), "http://kroki:8000/d2/svg");
    assert_eq!(health_url("http://kroki:8000/"), "http://kroki:8000/health");
}

#[test]
fn registered_converters_are_read_in_slug_order_with_the_last_version_kept() {
    let version = JsonValue::Object(vec![
        ("zeta".to_string(), JsonValue::Str("1".to_string())),
        ("alpha".to_string(), JsonValue::Str("2".to_string())),
        ("mid".to_string(), JsonValue::Null),
        ("alpha".to_string(), JsonValue::Str("3".to_string())),
        ("kroki".to_string(), JsonValue::Str("0.1".to_string())),
    ]);
    let health = JsonValue::Object(vec![("version".to_string(), version)]);
    let registered = registered_converters(&health, "u").unwrap();
    assert_eq!(
        registered,
        vec![("alpha".to_string(), "3".to_string()), ("zeta".to_string(), "1".to_string())]
    );
    assert_eq!(candidates(&registered), vec!["alpha".to_string(), "zeta".to_string()]);
}
