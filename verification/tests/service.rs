use kr0ki_core::cache::{cache_key, model_cache_key, CacheStatus, FsCache, OutputKind};
use kr0ki_core::format::DiagramFormat;
use kr0ki_core::render::RenderError;
use kr0ki_core::{Attempt, RenderBackend, RenderJob, RenderService, RenderStep, ServiceError};

struct LocalBackend;

impl RenderBackend for LocalBackend {
    fn describe_endpoint(&self) -> Option<&str> {
        Some("http://localhost:8000")
    }
}

struct InProcess;

impl RenderBackend for InProcess {}

#[test]
fn service_reports_backend_endpoint_and_cache_root() {
    let svc = RenderService::new(LocalBackend, FsCache::new("/tmp/kr0ki-svc".to_string()));
    assert_eq!(svc.backend_url(), Some("http://localhost:8000"));
    assert_eq!(svc.cache_root(), "/tmp/kr0ki-svc");
    assert_eq!(svc.cache().root(), "/tmp/kr0ki-svc");
    let local = RenderService::new(InProcess, FsCache::new("/tmp/x".to_string()));
    assert_eq!(local.backend_url(), None);
}

#[test]
fn a_cache_hit_is_served_unchanged_without_the_backend() {
    let job = RenderJob::for_source(DiagramFormat::D2, OutputKind::Svg, "a -> b");
    assert_eq!(job.key, cache_key(DiagramFormat::D2, OutputKind::Svg, "a -> b"));
    match job.after_lookup(Ok(Some(b"<svg>ok</svg>".to_vec()))) {
        RenderStep::Done(Ok(r)) => {
            assert_eq!(r.status, CacheStatus::Hit);
            assert_eq!(r.bytes, b"<svg>ok</svg>");
            assert_eq!(r.key, job.key);
        }
        other => panic!("unexpected {other:?}"),
    }
}

#[test]
fn a_miss_renders_natively_then_stores_then_reports_a_miss() {
    let job = RenderJob::for_source(DiagramFormat::D2, OutputKind::Svg, "a -> b");
    match job.after_lookup(Ok(None)) {
        RenderStep::CallBackend { format, output, attempt } => {
            assert_eq!(format, DiagramFormat::D2);
            assert_eq!(output, OutputKind::Svg);
            assert_eq!(attempt, Attempt::Native);
        }
        other => panic!("unexpected {other:?}"),
    }
    let bytes = match job.after_backend(Attempt::Native, Ok(b"<svg/>".to_vec())) {
        RenderStep::Store { bytes } => bytes,
        other => panic!("unexpected {other:?}"),
    };
    let r = job.after_store(bytes, Ok(())).unwrap();
    assert_eq!(r.status, CacheStatus::Miss);
    assert_eq!(r.bytes, b"<svg/>");
}

#[test]
fn backend_failure_is_not_cached() {
    let job = RenderJob::for_source(DiagramFormat::D2, OutputKind::Svg, "x");
    match job.after_backend(Attempt::Native, Err(RenderError::Unavailable("down".into()))) {
        RenderStep::Done(Err(ServiceError::Render(RenderError::Unavailable(m)))) => assert_eq!(m, "down"),
        other => panic!("unexpected {other:?}"),
    }
}

#[test]
fn png_falls_back_to_flattened_svg_when_backend_rejects_native_png() {
    let job = RenderJob::for_source(DiagramFormat::Nomnoml, OutputKind::Png, "[a]->[b]");
    let rejected = RenderError::BadSource { status: 400, body: "Unsupported output format: png".into() };
    match job.after_backend(Attempt::Native, Err(rejected)) {
        RenderStep::CallBackend { output, attempt, .. } => {
            assert_eq!(output, OutputKind::Svg);
            assert_eq!(attempt, Attempt::SvgForFlatten);
        }
        other => panic!("unexpected {other:?}"),
    }
    let svg = br#"<svg xmlns="http://www.w3.org/2000/svg" width="10" height="10"><rect width="10" height="10"/></svg>"#.to_vec();
    match job.after_backend(Attempt::SvgForFlatten, Ok(svg)) {
        RenderStep::Store { bytes } => assert!(bytes.starts_with(b"\x89PNG\r\n\x1a\n")),
        other => panic!("unexpected {other:?}"),
    }
}

#[test]
fn genuinely_bad_source_still_fails_through_the_png_fallback() {
    let job = RenderJob::for_source(DiagramFormat::Nomnoml, OutputKind::Png, "not valid");
    let bad = RenderError::BadSource { status: 400, body: "actually broken syntax".into() };
    match job.after_backend(Attempt::SvgForFlatten, Err(bad.clone())) {
        RenderStep::Done(Err(ServiceError::Render(e))) => assert_eq!(e, bad),
        other => panic!("unexpected {other:?}"),
    }
    let svg_job = RenderJob::for_source(DiagramFormat::D2, OutputKind::Svg, "x");
    match svg_job.after_backend(Attempt::Native, Err(bad.clone())) {
        RenderStep::Done(Err(ServiceError::Render(e))) => assert_eq!(e, bad),
        other => panic!("unexpected {other:?}"),
    }
}

#[test]
fn model_render_caches_on_content_hash_and_rule_set_version() {
    let a = RenderJob::for_model("overview", DiagramFormat::D2, OutputKind::Svg, "hash-a", "");
    let b = RenderJob::for_model("overview", DiagramFormat::D2, OutputKind::Svg, "hash-b", "");
    assert_eq!(a.key, model_cache_key("overview", "d2", "hash-a"));
    assert_ne!(a.key, b.key);
    let v1 = RenderJob::for_model("overview", DiagramFormat::D2, OutputKind::Svg, "hash-a", "rules-v1");
    let v2 = RenderJob::for_model("overview", DiagramFormat::D2, OutputKind::Svg, "hash-a", "rules-v2");
    assert_ne!(v1.key, v2.key);
}

#[test]
fn cache_io_failures_surface_as_cache_errors() {
    let job = RenderJob::for_source(DiagramFormat::D2, OutputKind::Svg, "x");
    match job.after_lookup(Err("permission denied".into())) {
        RenderStep::Done(Err(ServiceError::CacheIo(m))) => assert_eq!(m, "permission denied"),
        other => panic!("unexpected {other:?}"),
    }
    assert_eq!(
        job.after_store(vec![1], Err("disk full".into())).unwrap_err(),
        ServiceError::CacheIo("disk full".into())
    );
}

#[test]
fn an_svg_the_flattener_refuses_ends_the_render_with_its_message() {
    let job = RenderJob::for_source(DiagramFormat::Nomnoml, OutputKind::Png, "[a]->[b]");
    match job.after_backend(Attempt::SvgForFlatten, Ok(b"not an svg".to_vec())) {
        RenderStep::Done(Err(ServiceError::Render(RenderError::Flatten(m)))) => {
            assert!(m.starts_with("invalid SVG: "), "{m}")
        }
        other => panic!("unexpected {other:?}"),
    }
    match job.after_flatten(Err(kr0ki_core::flatten::FlattenError::ZeroSized)) {
        RenderStep::Done(Err(ServiceError::Render(RenderError::Flatten(m)))) => {
            assert_eq!(m, "SVG has zero-sized viewport")
        }
        other => panic!("unexpected {other:?}"),
    }
    match job.after_flatten(Ok(vec![1, 2, 3])) {
        RenderStep::Store { bytes } => assert_eq!(bytes, vec![1, 2, 3]),
        other => panic!("unexpected {other:?}"),
    }
}
