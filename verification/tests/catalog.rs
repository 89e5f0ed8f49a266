use kr0ki_core::catalog::{by_id, by_use_case, discovery_guide, types, use_cases, used_use_cases};
use kr0ki_core::examples;

#[test]
fn ids_are_unique_and_addressible() {
    let mut ids: Vec<&str> = types().iter().map(|t| t.id).collect();
    ids.sort_unstable();
    let len = ids.len();
    ids.dedup();
    assert_eq!(ids.len(), len, "duplicate typeId in catalog");
    for id in &ids {
        assert!(
            id.chars()
                .all(|c| c.is_ascii_lowercase() || c == '-' || c.is_ascii_digit()),
            "typeId {id} must be deep-link-safe (lowercase/digits/dashes)"
        );
    }
}

#[test]
fn every_use_case_is_in_the_vocabulary() {
    let vocabulary = use_cases();
    for t in types() {
        for tag in t.use_cases {
            assert!(
                vocabulary.contains(tag),
                "{} uses tag '{tag}' outside the controlled vocabulary",
                t.id
            );
        }
        assert!(!t.use_cases.is_empty(), "{} has no use cases", t.id);
    }
}

#[test]
fn every_type_resolves_to_a_known_format_and_names_itself_in_the_prompt() {
    let known = [
        "d2",
        "plantuml",
        "c4plantuml",
        "dbml",
        "vegalite",
        "nwdiag",
        "k8s-topology",
        "rackdiag",
        "packetdiag",
        "wireviz",
        "bytefield",
        "blockdiag",
        "ditaa",
        "svgbob",
        "wavedrom",
    ];
    for t in types() {
        assert!(
            known.contains(&t.syntax),
            "{} renders through unknown format {}",
            t.id,
            t.syntax
        );
        let lower = t.sample_prompt.to_lowercase();
        assert!(
            lower.contains(
                t.name
                    .to_lowercase()
                    .split('(')
                    .next()
                    .unwrap()
                    .trim()
                    .split(' ')
                    .next()
                    .unwrap()
            ),
            "{} sample_prompt must name the type explicitly",
            t.id
        );
    }
}

#[test]
fn used_use_cases_exclude_empty_tags() {
    let used = used_use_cases();
    assert!(used.contains(&"process flow"));
    assert!(used.contains(&"interaction"));
    for tag in used {
        assert!(!by_use_case(tag).is_empty());
    }
}

#[test]
fn by_id_round_trip_and_deep_link_shape() {
    assert_eq!(by_id("sequence").unwrap().syntax, "plantuml");
    assert!(by_id("no-such-type").is_none());
}

#[test]
fn discovery_guide_lists_every_vocabulary_family() {
    let guide = discovery_guide();
    for tag in use_cases() {
        assert!(guide.contains(tag), "guide missing family {tag}");
    }
    assert!(guide.contains("sequence"));
}

#[test]
fn by_use_case_returns_only_types_carrying_the_tag() {
    for tag in used_use_cases() {
        for t in by_use_case(tag) {
            assert!(t.use_cases.contains(&tag));
        }
    }
    assert!(by_use_case("no such family").is_empty());
}
