//! The render backend's plain-value side: the request URL for a render, the
//! base-URL normalization, and the classification of a failed response
//! into a [`RenderError`].
//!
//! The HTTP exchange itself is performed by the caller, which hands back
//! the status code and body of each response.
use vstd::prelude::*;

use crate::cache::{ext_of, OutputKind};
use crate::format::{slug_of, DiagramFormat};
use crate::text::{decimal, push_chars, push_decimal, push_str, str_chars};

verus! {

/// Why a render failed.
#[derive(Debug, Clone, PartialEq, Eq)]
pub enum RenderError {
    /// The backend rejected the diagram source (HTTP 400: bad syntax).
    BadSource { status: u16, body: String },
    /// The backend was unreachable or answered 5xx / an unexpected status.
    Unavailable(String),
    /// The backend's own SVG could not be rasterized to PNG locally.
    Flatten(String),
}

/// The human-readable message of a [`RenderError`].
pub open spec fn render_error_message(e: RenderError) -> Seq<char> {
    match e {
        RenderError::BadSource { status, body } => "backend rejected the diagram source ("@
            + decimal(status as nat) + "): "@ + body@,
        RenderError::Unavailable(m) => "backend unavailable: "@ + m@,
        RenderError::Flatten(m) => "SVG-to-PNG flatten failed: "@ + m@,
    }
}

impl RenderError {
    /// The error's message.
    pub fn message(&self) -> (r: String)
        ensures
            r@ == render_error_message(*self),
    {
        let mut s = String::new();
        match self {
            RenderError::BadSource { status, body } => {
                push_str(&mut s, "backend rejected the diagram source (");
                push_decimal(&mut s, *status as u64);
                push_str(&mut s, "): ");
                push_str(&mut s, body.as_str());
            },
            RenderError::Unavailable(m) => {
                push_str(&mut s, "backend unavailable: ");
                push_str(&mut s, m.as_str());
            },
            RenderError::Flatten(m) => {
                push_str(&mut s, "SVG-to-PNG flatten failed: ");
                push_str(&mut s, m.as_str());
            },
        }
        s
    }
}

/// `s` with every trailing `/` removed (`trim_end_matches('/')`).
pub open spec fn trim_trailing_slashes(s: Seq<char>) -> Seq<char>
    decreases s.len(),
{
    if s.len() > 0 && s.last() == '/' {
        trim_trailing_slashes(s.drop_last())
    } else {
        s
    }
}

/// A backend base URL with trailing slashes removed.
pub fn normalize_base_url(base_url: &str) -> (r: String)
    ensures
        r@ == trim_trailing_slashes(base_url@),
{
    let v = str_chars(base_url);
    let mut end = v.len();
    assert(v@.take(end as int) =~= v@);
    while end > 0 && v[end - 1] == '/'
        invariant
            end <= v@.len(),
            trim_trailing_slashes(v@.take(end as int)) == trim_trailing_slashes(v@),
        decreases end,
    {
        assert(v@.take(end as int).drop_last() =~= v@.take(end - 1));
        end = end - 1;
    }
    let mut out = String::new();
    push_chars(&mut out, v.as_slice(), 0, end);
    assert(v@.subrange(0, end as int) =~= v@.take(end as int));
    out
}

/// `{base}/{slug}/{ext}`.
pub open spec fn render_url_spec(base: Seq<char>, format: DiagramFormat, output: OutputKind) -> Seq<char> {
    base + "/"@ + slug_of(format) + "/"@ + ext_of(output)
}

/// The URL a render is posted to.
pub fn render_url(base: &str, format: DiagramFormat, output: OutputKind) -> (r: String)
    ensures
        r@ == render_url_spec(base@, format, output),
{
    let mut s = String::new();
    push_str(&mut s, base);
    push_str(&mut s, "/");
    push_str(&mut s, format.kroki_slug());
    push_str(&mut s, "/");
    push_str(&mut s, output.ext());
    s
}

/// The canonical reason phrase of an HTTP status code, when it has one
/// (`StatusCode::canonical_reason`).
pub uninterp spec fn canonical_reason_of(code: u16) -> Option<Seq<char>>;

/// `reqwest::StatusCode::from_u16(code)` then `canonical_reason()`: the
/// standard reason phrase, `None` for a code outside `100..=999` or without
/// a registered phrase.
#[verifier::external_body]
fn status_reason(code: u16) -> (r: Option<&'static str>)
    ensures
        match r {
            Some(s) => canonical_reason_of(code) == Some(s@),
            None => canonical_reason_of(code) is None,
        },
{
    match reqwest::StatusCode::from_u16(code) {
        Ok(status) => status.canonical_reason(),
        Err(_) => None,
    }
}

/// An HTTP status as `StatusCode` displays it: `"404 Not Found"`.
pub open spec fn status_line_spec(code: u16) -> Seq<char> {
    decimal(code as nat) + " "@ + match canonical_reason_of(code) {
        Some(r) => r,
        None => "<unknown status code>"@,
    }
}

/// The display form of an HTTP status.
pub fn status_line(code: u16) -> (r: String)
    ensures
        r@ == status_line_spec(code),
{
    let mut s = String::new();
    push_decimal(&mut s, code as u64);
    push_str(&mut s, " ");
    match status_reason(code) {
        Some(reason) => push_str(&mut s, reason),
        None => push_str(&mut s, "<unknown status code>"),
    }
    s
}

/// At most the first `n` characters (`chars().take(n)`).
pub open spec fn take_chars(s: Seq<char>, n: nat) -> Seq<char> {
    if s.len() <= n {
        s
    } else {
        s.take(n as int)
    }
}

fn push_prefix(out: &mut String, s: &str, n: usize)
    ensures
        final(out)@ == old(out)@ + take_chars(s@, n as nat),
{
    let v = str_chars(s);
    let end = if v.len() <= n {
        v.len()
    } else {
        n
    };
    push_chars(out, v.as_slice(), 0, end);
    assert(v@.subrange(0, end as int) =~= take_chars(s@, n as nat));
}

/// Classifies a failed render response: a `400` is a rejected source
/// (body cut to 2000 characters); anything else is an unavailable backend,
/// reported as `"{status}: "` and the first 500 characters of the body.
pub fn classify_failure(status: u16, body: &str) -> (r: RenderError)
    ensures
        status == 400 ==> (r matches RenderError::BadSource { status: s, body: b } && s == 400 && b@ == take_chars(body@, 2000)),
        status != 400 ==> (r matches RenderError::Unavailable(m) && m@ == status_line_spec(status) + ": "@ + take_chars(body@, 500)),
{
    if status == 400 {
        let mut b = String::new();
        push_prefix(&mut b, body, 2000);
        RenderError::BadSource { status: 400, body: b }
    } else {
        let mut m = status_line(status);
        push_str(&mut m, ": ");
        push_prefix(&mut m, body, 500);
        RenderError::Unavailable(m)
    }
}

} // verus!
