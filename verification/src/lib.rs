//! kr0ki core: diagram formats, content-addressed render caching, and the
//! model-to-diagram lowering pipeline, with machine-checked contracts.
use vstd::prelude::*;

use crate::cache::{
    model_cache_key_with_rules, model_key_preimage, sha256_hex_spec, text_key_preimage, CacheStatus,
    FsCache, OutputKind,
};
use crate::flatten::{flatten_message, flatten_outcome, svg_to_png, FlattenError};
use crate::format::{slug_of, DiagramFormat};
use crate::render::RenderError;

pub mod b00t_graph;
pub mod cache;
pub mod catalog;
pub mod digital_thread_sync;
pub mod docgen;
pub mod examples;
pub mod flatten;
pub mod format;
pub mod graph_store;
pub mod json;
pub mod k8s_recognizer;
pub mod mcp_tool;
pub mod model;
pub mod ontology;
pub mod probe;
pub mod render;
pub mod recompute;
pub mod reqif_adapter;
pub mod reqif_bundle;
pub mod reqif_export;
pub mod reqif_fetch;
pub mod reqif_import;
pub mod requirements;
pub mod requirements_render;
pub mod requirements_sync;
pub mod rule_docs;
pub mod rule_eval;
pub mod rust_recognizer;
pub mod rust_syntax;
pub mod sysml_lift;
pub mod sysml_render;
pub mod sysgraph;
pub mod text;
pub mod ufo_graph;

verus! {

/// Something that turns diagram text into rendered bytes. The render call
/// itself is asynchronous I/O and is made by the caller; this trait carries
/// what the service reports about the backend.
pub trait RenderBackend {
    /// Endpoint description for health reporting; `None` for backends
    /// without a single HTTP endpoint (e.g. in-process doubles), which is
    /// what a backend says unless it says otherwise.
    fn describe_endpoint(&self) -> Option<&str> {
        None
    }
}

/// One completed render.
#[derive(Debug, Clone)]
pub struct Rendered {
    pub key: String,
    pub bytes: Vec<u8>,
    pub output: OutputKind,
    pub status: CacheStatus,
}

/// Why a service render failed.
#[derive(Debug, Clone, PartialEq, Eq)]
pub enum ServiceError {
    Render(RenderError),
    /// A cache read or write failed; the I/O error's text.
    CacheIo(String),
}

/// Which backend call a render is waiting on.
#[derive(Debug, Clone, Copy, PartialEq, Eq, Structural)]
pub enum Attempt {
    /// The requested output, natively.
    Native,
    /// SVG, to be flattened locally because the backend refused native PNG.
    SvgForFlatten,
}

/// What the caller does next for a render in progress.
#[derive(Debug)]
pub enum RenderStep {
    /// Ask the backend to render the job's source as `output`.
    CallBackend { format: DiagramFormat, output: OutputKind, attempt: Attempt },
    /// Write `bytes` to the cache under the job's key, then report back.
    Store { bytes: Vec<u8> },
    /// The render is finished.
    Done(Result<Rendered, ServiceError>),
}

/// The step taken on a flatten result: store the PNG as it is, or end with
/// the flatten error's message.
pub open spec fn flattened_step(f: Result<Vec<u8>, FlattenError>, step: RenderStep) -> bool {
    match f {
        Ok(png) => step matches RenderStep::Store { bytes: b } && b@ == png@,
        Err(fe) => step matches RenderStep::Done(Err(ServiceError::Render(RenderError::Flatten(m))))
            && m@ == flatten_message(fe),
    }
}

/// The step after the cache lookup for `job`: a hit is served as it was
/// stored; a miss asks the backend for the requested output natively; a
/// failed read fails.
pub open spec fn lookup_step(job: RenderJob, cached: Result<Option<Vec<u8>>, String>, step: RenderStep) -> bool {
    match cached {
        Ok(Some(bytes)) => step matches RenderStep::Done(Ok(r))
            && r.key@ == job.key@ && r.bytes@ == bytes@ && r.output == job.output
            && r.status == CacheStatus::Hit,
        Ok(None) => step == (RenderStep::CallBackend {
            format: job.format,
            output: job.output,
            attempt: Attempt::Native,
        }),
        Err(m) => step matches RenderStep::Done(Err(ServiceError::CacheIo(e))) && e@ == m@,
    }
}

/// The step after a backend call for `job`: a native success is stored; a
/// `BadSource` answer to a native PNG request is retried as SVG to be
/// flattened; the flattened SVG is stored or its failure reported; every
/// other failure ends the render uncached.
pub open spec fn backend_step(job: RenderJob, attempt: Attempt, result: Result<Vec<u8>, RenderError>, step: RenderStep) -> bool {
    match (attempt, result) {
        (Attempt::Native, Ok(bytes)) => step matches RenderStep::Store { bytes: b } && b@ == bytes@,
        (Attempt::Native, Err(e)) => if (e is BadSource && job.output == OutputKind::Png) {
            step == (RenderStep::CallBackend {
                format: job.format,
                output: OutputKind::Svg,
                attempt: Attempt::SvgForFlatten,
            })
        } else {
            step == RenderStep::Done(Err(ServiceError::Render(e)))
        },
        (Attempt::SvgForFlatten, Ok(svg)) => exists|f: Result<Vec<u8>, FlattenError>|
            #[trigger] flatten_outcome(svg@, f) && flattened_step(f, step),
        (Attempt::SvgForFlatten, Err(e)) => step == RenderStep::Done(Err(ServiceError::Render(e))),
    }
}

/// The outcome after writing `bytes` to the cache for `job`.
pub open spec fn store_result(job: RenderJob, bytes: Vec<u8>, stored: Result<(), String>, r: Result<Rendered, ServiceError>) -> bool {
    match stored {
        Ok(()) => r matches Ok(rendered) && rendered.key@ == job.key@ && rendered.bytes@ == bytes@
            && rendered.output == job.output && rendered.status == CacheStatus::Miss,
        Err(m) => r matches Err(ServiceError::CacheIo(e)) && e@ == m@,
    }
}

/// A miss, a store, then a hit: a render that missed the cache, whose
/// backend bytes were stored, returns them as a miss; a later lookup that
/// finds those bytes under the job's key serves the same bytes, under the
/// same key and output, as a hit.
pub proof fn law_miss_store_hit(
    job: RenderJob,
    miss: RenderStep,
    backend_bytes: Vec<u8>,
    store: RenderStep,
    stored: Result<Rendered, ServiceError>,
    found: Vec<u8>,
    hit: RenderStep,
)
    requires
        lookup_step(job, Ok(None), miss),
        backend_step(job, Attempt::Native, Ok(backend_bytes), store),
        store matches RenderStep::Store { bytes } && store_result(job, bytes, Ok(()), stored),
        found@ == backend_bytes@,
        lookup_step(job, Ok(Some(found)), hit),
    ensures
        miss == (RenderStep::CallBackend { format: job.format, output: job.output, attempt: Attempt::Native }),
        stored matches Ok(m) && m.bytes@ == backend_bytes@ && m.status == CacheStatus::Miss,
        hit matches RenderStep::Done(Ok(h)) && h.bytes@ == backend_bytes@ && h.status == CacheStatus::Hit,
        stored matches Ok(m) && hit matches RenderStep::Done(Ok(h)) && h.key@ == m.key@ && h.output == m.output
            && h.bytes@ == m.bytes@,
{
}

/// One render request: its cache key and what is asked for.
#[derive(Debug, Clone)]
pub struct RenderJob {
    pub key: String,
    pub format: DiagramFormat,
    pub output: OutputKind,
}

impl RenderJob {
    /// The job for raw diagram text: keyed by (format, output, source).
    pub fn for_source(format: DiagramFormat, output: OutputKind, source: &str) -> (job: RenderJob)
        ensures
            job.key@ == sha256_hex_spec(text_key_preimage(format, output, source@)),
            job.format == format,
            job.output == output,
    {
        RenderJob { key: crate::cache::cache_key(format, output, source), format, output }
    }

    /// The job for a lowered model view: keyed by the view kind, the
    /// notation, the model's content hash and the recognizer rule-set
    /// version (empty for a source arm without a recognizer).
    pub fn for_model(
        view_kind: &str,
        format: DiagramFormat,
        output: OutputKind,
        content_hash: &str,
        rule_set_version: &str,
    ) -> (job: RenderJob)
        ensures
            job.key@ == sha256_hex_spec(
                model_key_preimage(view_kind@, slug_of(format), content_hash@, rule_set_version@),
            ),
            job.format == format,
            job.output == output,
    {
        RenderJob {
            key: model_cache_key_with_rules(view_kind, format.kroki_slug(), content_hash, rule_set_version),
            format,
            output,
        }
    }

    fn rendered(&self, bytes: Vec<u8>, status: CacheStatus) -> (r: Rendered)
        ensures
            r.key@ == self.key@,
            r.bytes@ == bytes@,
            r.output == self.output,
            r.status == status,
    {
        Rendered { key: self.key.clone(), bytes, output: self.output, status }
    }

    /// After the cache lookup: a hit is served as it was stored; a miss
    /// asks the backend for the requested output; a failed read fails.
    pub fn after_lookup(&self, cached: Result<Option<Vec<u8>>, String>) -> (step: RenderStep)
        ensures
            lookup_step(*self, cached, step),
    {
        match cached {
            Ok(Some(bytes)) => RenderStep::Done(Ok(self.rendered(bytes, CacheStatus::Hit))),
            Ok(None) => RenderStep::CallBackend { format: self.format, output: self.output, attempt: Attempt::Native },
            Err(m) => RenderStep::Done(Err(ServiceError::CacheIo(m))),
        }
    }

    /// After a backend call. A native success is stored. A `BadSource`
    /// answer to a native PNG request is retried as SVG and flattened
    /// locally (a genuinely bad source fails the SVG attempt too); every
    /// other failure ends the render uncached.
    pub fn after_backend(&self, attempt: Attempt, result: Result<Vec<u8>, RenderError>) -> (step: RenderStep)
        ensures
            backend_step(*self, attempt, result, step),
    {
        match (attempt, result) {
            (Attempt::Native, Ok(bytes)) => RenderStep::Store { bytes },
            (Attempt::Native, Err(e)) => {
                let fallback = match e {
                    RenderError::BadSource { .. } => self.output == OutputKind::Png,
                    _ => false,
                };
                if fallback {
                    RenderStep::CallBackend { format: self.format, output: OutputKind::Svg, attempt: Attempt::SvgForFlatten }
                } else {
                    RenderStep::Done(Err(ServiceError::Render(e)))
                }
            },
            (Attempt::SvgForFlatten, Ok(svg)) => {
                let f = svg_to_png(svg.as_slice());
                let ghost fv = f;
                let step = self.after_flatten(f);
                assert(flatten_outcome(svg@, fv) && flattened_step(fv, step));
                step
            },
            (Attempt::SvgForFlatten, Err(e)) => RenderStep::Done(Err(ServiceError::Render(e))),
        }
    }

    /// After flattening the backend's SVG: a PNG is stored; a failure ends
    /// the render uncached with the flatten error's message.
    pub fn after_flatten(&self, flattened: Result<Vec<u8>, FlattenError>) -> (step: RenderStep)
        ensures
            flattened_step(flattened, step),
    {
        match flattened {
            Ok(png) => RenderStep::Store { bytes: png },
            Err(fe) => RenderStep::Done(Err(ServiceError::Render(RenderError::Flatten(fe.message())))),
        }
    }

    /// After the cache write: the freshly rendered bytes, or the write's
    /// failure.
    pub fn after_store(&self, bytes: Vec<u8>, stored: Result<(), String>) -> (r: Result<Rendered, ServiceError>)
        ensures
            store_result(*self, bytes, stored, r),
    {
        match stored {
            Ok(()) => Ok(self.rendered(bytes, CacheStatus::Miss)),
            Err(m) => Err(ServiceError::CacheIo(m)),
        }
    }
}

/// The render service: a content-addressed cache in front of a render
/// backend.
#[derive(Debug, Clone)]
pub struct RenderService<B> {
    backend: B,
    cache: FsCache,
}

impl<B: RenderBackend> RenderService<B> {
    pub closed spec fn backend_view(&self) -> B {
        self.backend
    }

    pub closed spec fn cache_view(&self) -> FsCache {
        self.cache
    }

    pub fn new(backend: B, cache: FsCache) -> (r: RenderService<B>)
        ensures
            r.backend_view() == backend,
            r.cache_view() == cache,
    {
        RenderService { backend, cache }
    }

    /// The backend's endpoint, when it is HTTP-backed: what the backend's
    /// `describe_endpoint` gives.
    pub fn backend_url(&self) -> (r: Option<&str>)
        ensures
            call_ensures(B::describe_endpoint, (&self.backend_view(),), r),
    {
        self.backend.describe_endpoint()
    }

    /// The backend the caller renders with.
    pub fn backend(&self) -> (r: &B)
        ensures
            *r == self.backend_view(),
    {
        &self.backend
    }

    /// Filesystem root of the content-addressed cache.
    pub fn cache_root(&self) -> (r: &str)
        ensures
            r@ == self.cache_view().root_view(),
    {
        self.cache.root()
    }

    pub fn cache(&self) -> (r: &FsCache)
        ensures
            *r == self.cache_view(),
    {
        &self.cache
    }
}

} // verus!
