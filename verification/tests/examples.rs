use kr0ki_core::cache::OutputKind;
use kr0ki_core::examples::all;
use kr0ki_core::format::{all_formats, DiagramFormat};

#[test]
fn covers_every_diagram_format_exactly_once() {
    let examples = all();
    for format in all_formats() {
        let matches: Vec<_> = examples
            .iter()
            .filter(|example| example.format == format.kroki_slug())
            .collect();
        assert_eq!(
            matches.len(),
            1,
            "expected exactly one example for {}, found {}",
            format.kroki_slug(),
            matches.len()
        );
    }
    let format_routed = examples.iter().filter(|e| e.route.is_none()).count();
    assert_eq!(format_routed, all_formats().len());
}

#[test]
fn every_example_format_and_output_are_recognised() {
    for example in all() {
        if example.route.is_none() {
            example
                .format
                .parse::<DiagramFormat>()
                .unwrap_or_else(|error| panic!("{}: {}", example.id, error.message()));
        }
        assert!(
            !example.outputs.is_empty(),
            "{}: no outputs listed",
            example.id
        );
        for output in example.outputs {
            assert!(
                OutputKind::from_param(output).is_some(),
                "{}: unrecognised output {output}",
                example.id
            );
        }
    }
}

#[test]
fn every_custom_route_example_has_a_non_empty_render_path() {
    for example in all().iter().filter(|e| e.route.is_some()) {
        let route = example.route.unwrap();
        assert!(
            route.starts_with("/render/"),
            "{}: custom route {route:?} doesn't look like a render endpoint",
            example.id
        );
    }
}

#[test]
fn ids_are_unique() {
    let examples = all();
    let mut ids: Vec<_> = examples.iter().map(|example| example.id).collect();
    ids.sort_unstable();
    ids.dedup();
    assert_eq!(ids.len(), examples.len(), "duplicate example id");
}
