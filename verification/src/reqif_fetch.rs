//! SSRF-hardened, HTTPS-only acquisition of ReqIF documents: the decisions
//! of a fetch's redirect chain.
//!
//! The caller runs the loop and does the I/O (DNS resolution, the pinned
//! request, streaming the body, the deadline); every decision it acts on
//! comes from [`fetch_step`] and [`accept_chunk`]: which URL and host a hop
//! may contact, whether the resolved addresses may be connected to, how a
//! redirect is followed, and when the body has grown too large.
use vstd::prelude::*;

use crate::reqif_import::DEFAULT_MAX_REQIF_IMPORT_BYTES;
use crate::text::{push_str, str_eq};

verus! {

/// An IP address, as octets (v4) or 16-bit segments (v6).
#[derive(Debug, Clone, Copy, PartialEq, Eq, Structural)]
pub enum IpAddress {
    V4(u8, u8, u8, u8),
    V6(u16, u16, u16, u16, u16, u16, u16, u16),
}

/// `to_canonical`: an IPv4-mapped IPv6 address (`::ffff:a.b.c.d`) becomes
/// plain IPv4; every other address is unchanged.
pub open spec fn canonical(a: IpAddress) -> IpAddress {
    match a {
        IpAddress::V6(s0, s1, s2, s3, s4, s5, s6, s7) => if s0 == 0 && s1 == 0 && s2 == 0 && s3 == 0
            && s4 == 0 && s5 == 0xffff {
            IpAddress::V4((s6 / 256) as u8, (s6 % 256) as u8, (s7 / 256) as u8, (s7 % 256) as u8)
        } else {
            a
        },
        _ => a,
    }
}

/// Loopback: `127.0.0.0/8` or `::1`.
pub open spec fn is_loopback(a: IpAddress) -> bool {
    match a {
        IpAddress::V4(o0, _, _, _) => o0 == 127,
        IpAddress::V6(s0, s1, s2, s3, s4, s5, s6, s7) => s0 == 0 && s1 == 0 && s2 == 0 && s3 == 0
            && s4 == 0 && s5 == 0 && s6 == 0 && s7 == 1,
    }
}

/// Unspecified: `0.0.0.0` or `::`.
pub open spec fn is_unspecified(a: IpAddress) -> bool {
    match a {
        IpAddress::V4(o0, o1, o2, o3) => o0 == 0 && o1 == 0 && o2 == 0 && o3 == 0,
        IpAddress::V6(s0, s1, s2, s3, s4, s5, s6, s7) => s0 == 0 && s1 == 0 && s2 == 0 && s3 == 0
            && s4 == 0 && s5 == 0 && s6 == 0 && s7 == 0,
    }
}

/// Multicast: `224.0.0.0/4` or `ff00::/8`.
pub open spec fn is_multicast(a: IpAddress) -> bool {
    match a {
        IpAddress::V4(o0, _, _, _) => 224 <= o0 <= 239,
        IpAddress::V6(s0, _, _, _, _, _, _, _) => s0 >= 0xff00,
    }
}

/// IPv4 private (`10/8`, `172.16/12`, `192.168/16`), link-local
/// (`169.254/16`), broadcast (`255.255.255.255`) or documentation
/// (`192.0.2/24`, `198.51.100/24`, `203.0.113/24`).
pub open spec fn is_restricted_v4(o0: u8, o1: u8, o2: u8, o3: u8) -> bool {
    ||| o0 == 10
    ||| (o0 == 172 && 16 <= o1 <= 31)
    ||| (o0 == 192 && o1 == 168)
    ||| (o0 == 169 && o1 == 254)
    ||| (o0 == 255 && o1 == 255 && o2 == 255 && o3 == 255)
    ||| (o0 == 192 && o1 == 0 && o2 == 2)
    ||| (o0 == 198 && o1 == 51 && o2 == 100)
    ||| (o0 == 203 && o1 == 0 && o2 == 113)
}

/// IPv6 unique-local (`fc00::/7`) or unicast link-local (`fe80::/10`).
pub open spec fn is_restricted_v6(s0: u16) -> bool {
    (0xfc00 <= s0 <= 0xfdff) || (0xfe80 <= s0 <= 0xfebf)
}

/// An address that must never be connected to: after canonicalization,
/// loopback, unspecified, multicast, or a restricted v4 / v6 range.
pub open spec fn disallowed(a: IpAddress) -> bool {
    let c = canonical(a);
    ||| is_loopback(c)
    ||| is_unspecified(c)
    ||| is_multicast(c)
    ||| match c {
        IpAddress::V4(o0, o1, o2, o3) => is_restricted_v4(o0, o1, o2, o3),
        IpAddress::V6(s0, _, _, _, _, _, _, _) => is_restricted_v6(s0),
    }
}

fn to_canonical(a: IpAddress) -> (r: IpAddress)
    ensures
        r == canonical(a),
{
    match a {
        IpAddress::V6(s0, s1, s2, s3, s4, s5, s6, s7) => {
            if s0 == 0 && s1 == 0 && s2 == 0 && s3 == 0 && s4 == 0 && s5 == 0xffff {
                IpAddress::V4((s6 / 256) as u8, (s6 % 256) as u8, (s7 / 256) as u8, (s7 % 256) as u8)
            } else {
                a
            }
        },
        _ => a,
    }
}

/// True if `addr` must never be connected to: loopback, unspecified,
/// multicast, or (once an IPv4-mapped IPv6 address is unwrapped to IPv4)
/// IPv4 private / link-local / broadcast / documentation or IPv6
/// unique-local / unicast link-local.
pub fn is_disallowed_address(addr: IpAddress) -> (r: bool)
    ensures
        r == disallowed(addr),
{
    let c = to_canonical(addr);
    match c {
        IpAddress::V4(o0, o1, o2, o3) => {
            o0 == 127 || (o0 == 0 && o1 == 0 && o2 == 0 && o3 == 0) || (224 <= o0 && o0 <= 239) || o0
                == 10 || (o0 == 172 && 16 <= o1 && o1 <= 31) || (o0 == 192 && o1 == 168) || (o0 == 169
                && o1 == 254) || (o0 == 255 && o1 == 255 && o2 == 255 && o3 == 255) || (o0 == 192 && o1
                == 0 && o2 == 2) || (o0 == 198 && o1 == 51 && o2 == 100) || (o0 == 203 && o1 == 0 && o2
                == 113)
        },
        IpAddress::V6(s0, s1, s2, s3, s4, s5, s6, s7) => {
            let zero6 = s0 == 0 && s1 == 0 && s2 == 0 && s3 == 0 && s4 == 0 && s5 == 0;
            (zero6 && s6 == 0 && s7 == 1) || (zero6 && s6 == 0 && s7 == 0) || s0 >= 0xff00 || (0xfc00
                <= s0 && s0 <= 0xfdff) || (0xfe80 <= s0 && s0 <= 0xfebf)
        },
    }
}

/// `Duration::from_secs`.
#[verifier::external_body]
fn duration_from_secs(secs: u64) -> std::time::Duration {
    std::time::Duration::from_secs(secs)
}

/// `Duration` is `Copy`: its clone is the same duration.
pub assume_specification[ <std::time::Duration as Clone>::clone ](d: &std::time::Duration) -> (r: std::time::Duration)
    ensures
        r == *d,
;

/// Acquisition policy for one fetch.
#[derive(Debug, Clone)]
pub struct FetchConfig {
    pub max_bytes: usize,
    /// One deadline for the whole redirect chain.
    pub timeout: std::time::Duration,
    pub max_redirects: u8,
}

impl Default for FetchConfig {
    /// The intake's byte cap, a 15-second deadline, at most 3 redirects.
    fn default() -> (r: FetchConfig)
        ensures
            r.max_bytes == DEFAULT_MAX_REQIF_IMPORT_BYTES,
            r.max_redirects == 3,
    {
        FetchConfig {
            max_bytes: DEFAULT_MAX_REQIF_IMPORT_BYTES,
            timeout: duration_from_secs(15),
            max_redirects: 3,
        }
    }
}

/// The bytes a successful fetch produced, with provenance headers.
#[derive(Debug, Clone)]
pub struct FetchedArtifact {
    pub bytes: Vec<u8>,
    pub final_url: String,
    pub etag: Option<String>,
    pub last_modified: Option<String>,
}

/// Why a fetch was refused or failed.
#[derive(Debug, Clone, PartialEq, Eq)]
pub enum FetchError {
    UnsupportedScheme { scheme: String },
    InvalidUrl(String),
    DisallowedAddress(IpAddress),
    Resolution(String),
    TooManyRedirects { max: u8 },
    DisallowedRedirect(String),
    TooLarge { maximum: usize },
    Timeout,
    /// The HTTP exchange failed; the client error's text.
    Http(String),
}

// ---------------------------------------------------------------------
// URL handling (the `url` crate, through reqwest)
// ---------------------------------------------------------------------

/// What `Url::parse` makes of `s`: its scheme, its host (`host_str`) and
/// its port or the scheme's known default (`port_or_known_default`), or
/// `None` when it does not parse.
pub uninterp spec fn url_parts(s: Seq<char>) -> Option<(Seq<char>, Option<Seq<char>>, Option<u16>)>;

/// The parsed parts of a URL.
pub struct UrlParts {
    pub scheme: String,
    pub host: Option<String>,
    pub port: Option<u16>,
}

/// `reqwest::Url::parse` with `scheme()`, `host_str()` and
/// `port_or_known_default()` read off the result; the parse error as text.
#[verifier::external_body]
fn parse_url(s: &str) -> (r: Result<UrlParts, String>)
    ensures
        match r {
            Ok(p) => url_parts(s@) == Some((p.scheme@, crate::ontology::opt_string_view(p.host), p.port)),
            Err(_) => url_parts(s@) is None,
        },
{
    match reqwest::Url::parse(s) {
        Ok(u) => Ok(UrlParts {
            scheme: u.scheme().to_string(),
            host: u.host_str().map(|h| h.to_string()),
            port: u.port_or_known_default(),
        }),
        Err(e) => Err(e.to_string()),
    }
}

/// `Url::parse(base)?.join(reference)`, serialized; `None` on failure.
pub uninterp spec fn url_join(base: Seq<char>, reference: Seq<char>) -> Option<Seq<char>>;

/// `reqwest::Url::parse(base)` then `Url::join(reference)`, serialized;
/// either error as text.
#[verifier::external_body]
fn join_url(base: &str, reference: &str) -> (r: Result<String, String>)
    ensures
        match r {
            Ok(u) => url_join(base@, reference@) == Some(u@),
            Err(_) => url_join(base@, reference@) is None,
        },
{
    match reqwest::Url::parse(base).and_then(|u| u.join(reference)) {
        Ok(u) => Ok(u.to_string()),
        Err(e) => Err(e.to_string()),
    }
}

// ---------------------------------------------------------------------
// One hop
// ---------------------------------------------------------------------

/// What one hop contacts: the URL, its host and its port.
#[derive(Debug, Clone)]
pub struct FetchHop {
    pub url: String,
    pub host: String,
    pub port: u16,
}

/// The decision before a hop: contact a host, or stop.
#[derive(Debug)]
pub enum HopPlan {
    Resolve(FetchHop),
    Fail(FetchError),
}

/// What planning the hop to `current` gives: a passed deadline is a
/// timeout; the URL must parse, be `https` and have a host; the port
/// defaults to 443.
pub open spec fn plan_outcome(current: Seq<char>, deadline_passed: bool, r: HopPlan) -> bool {
    &&& deadline_passed ==> r == HopPlan::Fail(FetchError::Timeout)
    &&& !deadline_passed ==> match url_parts(current) {
        None => r matches HopPlan::Fail(FetchError::InvalidUrl(_)),
        Some((scheme, host, port)) => if scheme != "https"@ {
            r matches HopPlan::Fail(FetchError::UnsupportedScheme { scheme: s }) && s@ == scheme
        } else {
            match host {
                None => r matches HopPlan::Fail(FetchError::InvalidUrl(m)) && m@ == "URL has no host"@,
                Some(h) => r matches HopPlan::Resolve(hop) && hop.url@ == current && hop.host@ == h
                    && hop.port == match port {
                    Some(p) => p,
                    None => 443u16,
                },
            }
        },
    }
}

/// Plans the hop to `current` (see [`plan_outcome`]).
pub fn plan_hop(current: &str, deadline_passed: bool) -> (r: HopPlan)
    ensures
        plan_outcome(current@, deadline_passed, r),
{
    if deadline_passed {
        return HopPlan::Fail(FetchError::Timeout);
    }
    let parts = match parse_url(current) {
        Ok(p) => p,
        Err(m) => {
            return HopPlan::Fail(FetchError::InvalidUrl(m));
        },
    };
    if !str_eq(parts.scheme.as_str(), "https") {
        return HopPlan::Fail(FetchError::UnsupportedScheme { scheme: parts.scheme });
    }
    let host = match parts.host {
        Some(h) => h,
        None => {
            let mut m = String::new();
            push_str(&mut m, "URL has no host");
            return HopPlan::Fail(FetchError::InvalidUrl(m));
        },
    };
    let port = match parts.port {
        Some(p) => p,
        None => 443,
    };
    let mut url = String::new();
    push_str(&mut url, current);
    HopPlan::Resolve(FetchHop { url, host, port })
}

/// What checking the resolved addresses gives: none at all is a
/// resolution failure, the first disallowed address fails the fetch, and
/// otherwise the connection is pinned to the first address.
pub open spec fn resolution_outcome(host: Seq<char>, addrs: Seq<IpAddress>, r: Result<IpAddress, FetchError>) -> bool {
    &&& addrs.len() == 0 ==> (r matches Err(FetchError::Resolution(m)) && m@ == "no addresses for "@ + host)
    &&& addrs.len() > 0 ==> match r {
        Ok(a) => a == addrs[0] && forall|k: int| 0 <= k < addrs.len() ==> !disallowed(#[trigger] addrs[k]),
        Err(e) => exists|k: int| 0 <= k < addrs.len() && e == FetchError::DisallowedAddress(addrs[k])
            && disallowed(addrs[k]) && forall|j: int| 0 <= j < k ==> !disallowed(#[trigger] addrs[j]),
    }
    &&& r matches Ok(a) ==> !disallowed(a)
}

/// Checks every resolved address (see [`resolution_outcome`]).
pub fn check_resolved(host: &str, addrs: &[IpAddress]) -> (r: Result<IpAddress, FetchError>)
    ensures
        resolution_outcome(host@, addrs@, r),
{
    if addrs.len() == 0 {
        let mut m = String::new();
        push_str(&mut m, "no addresses for ");
        push_str(&mut m, host);
        return Err(FetchError::Resolution(m));
    }
    let mut i: usize = 0;
    while i < addrs.len()
        invariant
            i <= addrs@.len(),
            forall|j: int| 0 <= j < i ==> !disallowed(#[trigger] addrs@[j]),
        decreases addrs@.len() - i,
    {
        if is_disallowed_address(addrs[i]) {
            return Err(FetchError::DisallowedAddress(addrs[i]));
        }
        i = i + 1;
    }
    Ok(addrs[0])
}

/// What following a redirect answer from `current` gives: the count grows
/// by one and may not pass `max_redirects`; the `Location` must be present
/// and join onto `current`. `Ok` holds the next URL and the new count.
pub open spec fn redirect_outcome(current: Seq<char>, redirects: u8, max_redirects: u8, location: Option<Seq<char>>, r: Result<(String, u8), FetchError>) -> bool {
    &&& redirects as int + 1 > max_redirects ==> r == Err::<(String, u8), FetchError>(FetchError::TooManyRedirects { max: max_redirects })
    &&& redirects as int + 1 <= max_redirects ==> match location {
        None => r matches Err(FetchError::DisallowedRedirect(m)) && m@ == "redirect with no Location header"@,
        Some(loc) => match url_join(current, loc) {
            Some(next) => r matches Ok((u, n)) && u@ == next && n == redirects + 1,
            None => r matches Err(FetchError::DisallowedRedirect(_)),
        },
    }
}

pub open spec fn opt_str_view(o: Option<&str>) -> Option<Seq<char>> {
    match o {
        Some(s) => Some(s@),
        None => None,
    }
}

/// Follows a redirect answer from `current` (see [`redirect_outcome`]).
pub fn follow_redirect(current: &str, redirects: u8, max_redirects: u8, location: Option<&str>) -> (r: Result<(String, u8), FetchError>)
    ensures
        redirect_outcome(current@, redirects, max_redirects, opt_str_view(location), r),
{
    if redirects >= max_redirects {
        return Err(FetchError::TooManyRedirects { max: max_redirects });
    }
    let count = redirects + 1;
    let loc = match location {
        Some(l) => l,
        None => {
            let mut m = String::new();
            push_str(&mut m, "redirect with no Location header");
            return Err(FetchError::DisallowedRedirect(m));
        },
    };
    match join_url(current, loc) {
        Ok(next) => Ok((next, count)),
        Err(m) => Err(FetchError::DisallowedRedirect(m)),
    }
}

// ---------------------------------------------------------------------
// The redirect chain
// ---------------------------------------------------------------------

/// Where a fetch stands between two pieces of outside work.
pub enum FetchPhase {
    /// About to plan the hop to the current URL.
    Planning,
    /// Waiting for the addresses of this hop's host.
    Resolving(FetchHop),
    /// Waiting for this hop's response, connected to the checked address.
    Requesting(FetchHop, IpAddress),
    /// The final response's body is to be streamed.
    Streaming,
    /// Stopped (the error is in the action that stopped it).
    Failed,
}

/// A fetch in progress: the URL of the current hop, the redirects followed
/// so far and the limit on them, and the phase.
pub struct FetchState {
    pub current: String,
    pub redirects: u8,
    pub max_redirects: u8,
    pub phase: FetchPhase,
}

/// What the outside work reports back.
pub enum FetchEvent {
    /// Whether the chain's deadline has passed (to a `Planning` fetch).
    Clock { deadline_passed: bool },
    /// The host's addresses (to a `Resolving` fetch).
    Resolved(Vec<IpAddress>),
    /// The lookup of the host failed, with this message.
    ResolveFailed(String),
    /// A redirect answer and its `Location` header (to a `Requesting` fetch).
    Redirect(Option<String>),
    /// A final answer (to a `Requesting` fetch).
    Final,
    /// The exchange failed: a timeout, or the client's error text.
    TransportFailed { is_timeout: bool, message: String },
}

/// What the caller does next.
pub enum FetchAction {
    /// Report the clock: a new hop begins.
    CheckClock,
    /// Look up `host` (an address literal is its own answer).
    Resolve { host: String, port: u16 },
    /// Send the request for `url` over a connection pinned to `address`.
    Request { url: String, host: String, port: u16, address: IpAddress },
    /// Stream the final response's body through [`accept_chunk`].
    StreamBody,
    /// Give up with this error.
    Stop(FetchError),
}

/// A URL the fetch may contact: `https`, with a host.
pub open spec fn contactable(url: Seq<char>) -> bool {
    url_parts(url) matches Some((scheme, Some(_), _)) && scheme == "https"@
}

/// The chain's invariant: no more redirects than the limit, and a hop in
/// progress is to the current URL, which is contactable; a connection is
/// only ever pinned to an allowed address.
pub open spec fn chain_ok(s: FetchState) -> bool {
    &&& s.redirects <= s.max_redirects
    &&& match s.phase {
        FetchPhase::Resolving(hop) => hop.url@ == s.current@ && contactable(s.current@),
        FetchPhase::Requesting(hop, a) => hop.url@ == s.current@ && contactable(s.current@) && !disallowed(a),
        _ => true,
    }
}

/// Which events a phase takes: the clock when planning; addresses or a
/// lookup failure when resolving; an answer or a failure when requesting.
/// A streaming or failed fetch takes none.
pub open spec fn takes(phase: FetchPhase, e: FetchEvent) -> bool {
    match phase {
        FetchPhase::Planning => e is Clock,
        FetchPhase::Resolving(_) => e is Resolved || e is ResolveFailed,
        FetchPhase::Requesting(_, _) => e is Redirect || e is Final || e is TransportFailed,
        _ => false,
    }
}

/// The fetch after planning gave `p`.
pub open spec fn after_plan(s: FetchState, p: HopPlan, r: (FetchState, FetchAction)) -> bool {
    match p {
        HopPlan::Resolve(hop) => {
            &&& r.0 == FetchState { phase: FetchPhase::Resolving(hop), ..s }
            &&& r.1 matches FetchAction::Resolve { host, port } && host@ == hop.host@ && port == hop.port
        },
        HopPlan::Fail(e) => r == (FetchState { phase: FetchPhase::Failed, ..s }, FetchAction::Stop(e)),
    }
}

/// The fetch after checking the addresses of `hop` gave `c`.
pub open spec fn after_check(s: FetchState, hop: FetchHop, c: Result<IpAddress, FetchError>, r: (FetchState, FetchAction)) -> bool {
    match c {
        Ok(a) => {
            &&& r.0 == FetchState { phase: FetchPhase::Requesting(hop, a), ..s }
            &&& r.1 matches FetchAction::Request { url, host, port, address }
                && url@ == hop.url@ && host@ == hop.host@ && port == hop.port && address == a
        },
        Err(e) => r == (FetchState { phase: FetchPhase::Failed, ..s }, FetchAction::Stop(e)),
    }
}

/// The fetch after following a redirect gave `f`.
pub open spec fn after_redirect(s: FetchState, f: Result<(String, u8), FetchError>) -> (FetchState, FetchAction) {
    match f {
        Ok((next, n)) => (
            FetchState { current: next, redirects: n, max_redirects: s.max_redirects, phase: FetchPhase::Planning },
            FetchAction::CheckClock,
        ),
        Err(e) => (FetchState { phase: FetchPhase::Failed, ..s }, FetchAction::Stop(e)),
    }
}

/// What one step of the fetch gives from `s` on the event `e`, by phase
/// and event (see [`fetch_step`]).
pub open spec fn step_outcome(s: FetchState, e: FetchEvent, r: (FetchState, FetchAction)) -> bool {
    match (s.phase, e) {
        (FetchPhase::Planning, FetchEvent::Clock { deadline_passed }) => exists|p: HopPlan|
            plan_outcome(s.current@, deadline_passed, p) && after_plan(s, p, r),
        (FetchPhase::Resolving(hop), FetchEvent::Resolved(addrs)) => exists|c: Result<IpAddress, FetchError>|
            resolution_outcome(hop.host@, addrs@, c) && after_check(s, hop, c, r),
        (FetchPhase::Resolving(_), FetchEvent::ResolveFailed(m)) =>
            r == (FetchState { phase: FetchPhase::Failed, ..s }, FetchAction::Stop(FetchError::Resolution(m))),
        (FetchPhase::Requesting(_, _), FetchEvent::Redirect(location)) => exists|f: Result<(String, u8), FetchError>|
            redirect_outcome(s.current@, s.redirects, s.max_redirects, opt_string_view(location), f)
                && r == after_redirect(s, f),
        (FetchPhase::Requesting(_, _), FetchEvent::Final) =>
            r == (FetchState { phase: FetchPhase::Streaming, ..s }, FetchAction::StreamBody),
        (FetchPhase::Requesting(_, _), FetchEvent::TransportFailed { is_timeout, message }) =>
            r.0 == FetchState { phase: FetchPhase::Failed, ..s }
                && (is_timeout ==> r.1 == FetchAction::Stop(FetchError::Timeout))
                && (!is_timeout ==> (r.1 matches FetchAction::Stop(FetchError::Http(m)) && m@ == message@)),
        _ => true,
    }
}

/// A fetch of `url` that may follow up to `max_redirects` redirects.
pub fn start_fetch(url: &str, max_redirects: u8) -> (r: FetchState)
    ensures
        r.current@ == url@,
        r.redirects == 0,
        r.max_redirects == max_redirects,
        r.phase is Planning,
        chain_ok(r),
{
    let mut current = String::new();
    push_str(&mut current, url);
    FetchState { current, redirects: 0, max_redirects, phase: FetchPhase::Planning }
}

/// One decision of the redirect chain: from the fetch and what the outside
/// work reported, the next fetch and what to do. Planning is
/// [`plan_hop`]; the resolved addresses go through [`check_resolved`]; a
/// redirect goes through [`follow_redirect`] and starts a new hop; a final
/// answer is streamed; a failure stops the fetch. It keeps the chain's
/// invariant: so a request is only ever sent to an `https` URL over a
/// connection pinned to an allowed address, and at most `max_redirects`
/// redirects are followed.
pub fn fetch_step(state: FetchState, event: FetchEvent) -> (r: (FetchState, FetchAction))
    requires
        chain_ok(state),
        takes(state.phase, event),
    ensures
        chain_ok(r.0),
        r.0.max_redirects == state.max_redirects,
        r.1 matches FetchAction::Request { url, address, .. } ==> contactable(url@) && !disallowed(address),
        r.1 is Stop ==> r.0.phase is Failed,
        step_outcome(state, event, r),
        fetch_step_post(state, event, r),
{
    let ghost s0 = state;
    let FetchState { current, redirects, max_redirects, phase } = state;
    match (phase, event) {
        (FetchPhase::Planning, FetchEvent::Clock { deadline_passed }) => {
            let p = plan_hop(current.as_str(), deadline_passed);
            let ghost pv = p;
            let r = match p {
                HopPlan::Resolve(hop) => {
                    let host = copy_string(&hop.host);
                    let port = hop.port;
                    (FetchState { current, redirects, max_redirects, phase: FetchPhase::Resolving(hop) }, FetchAction::Resolve { host, port })
                },
                HopPlan::Fail(e) => (FetchState { current, redirects, max_redirects, phase: FetchPhase::Failed }, FetchAction::Stop(e)),
            };
            assert(plan_outcome(s0.current@, deadline_passed, pv) && after_plan(s0, pv, r));
            r
        },
        (FetchPhase::Resolving(hop), FetchEvent::Resolved(addrs)) => {
            let c = check_resolved(hop.host.as_str(), addrs.as_slice());
            let ghost hv = hop;
            let r = match c {
                Ok(a) => {
                    let url = copy_string(&hop.url);
                    let host = copy_string(&hop.host);
                    let port = hop.port;
                    (FetchState { current, redirects, max_redirects, phase: FetchPhase::Requesting(hop, a) },
                        FetchAction::Request { url, host, port, address: a })
                },
                Err(e) => (FetchState { current, redirects, max_redirects, phase: FetchPhase::Failed }, FetchAction::Stop(e)),
            };
            assert(resolution_outcome(hv.host@, addrs@, c) && after_check(s0, hv, c, r));
            r
        },
        (FetchPhase::Resolving(_), FetchEvent::ResolveFailed(m)) => {
            (FetchState { current, redirects, max_redirects, phase: FetchPhase::Failed }, FetchAction::Stop(FetchError::Resolution(m)))
        },
        (FetchPhase::Requesting(_, _), FetchEvent::Redirect(location)) => {
            let f = match &location {
                Some(l) => follow_redirect(current.as_str(), redirects, max_redirects, Some(l.as_str())),
                None => follow_redirect(current.as_str(), redirects, max_redirects, None),
            };
            let ghost fv = f;
            let r = match f {
                Ok((next, n)) => (FetchState { current: next, redirects: n, max_redirects, phase: FetchPhase::Planning }, FetchAction::CheckClock),
                Err(e) => (FetchState { current, redirects, max_redirects, phase: FetchPhase::Failed }, FetchAction::Stop(e)),
            };
            assert(redirect_outcome(s0.current@, s0.redirects, s0.max_redirects, opt_string_view(location), fv) && r == after_redirect(s0, fv));
            r
        },
        (FetchPhase::Requesting(_, _), FetchEvent::Final) => {
            (FetchState { current, redirects, max_redirects, phase: FetchPhase::Streaming }, FetchAction::StreamBody)
        },
        (FetchPhase::Requesting(_, _), FetchEvent::TransportFailed { is_timeout, message }) => {
            (FetchState { current, redirects, max_redirects, phase: FetchPhase::Failed }, FetchAction::Stop(transport_error(is_timeout, message)))
        },
        (phase, _) => {
            proof {
                assert(false);
            }
            (FetchState { current, redirects, max_redirects, phase }, FetchAction::CheckClock)
        },
    }
}

/// What [`fetch_step`] promises of one step from `s` on `e`.
pub open spec fn fetch_step_post(s: FetchState, e: FetchEvent, r: (FetchState, FetchAction)) -> bool {
    &&& chain_ok(r.0)
    &&& r.0.max_redirects == s.max_redirects
    &&& r.1 matches FetchAction::Request { url, address, .. } ==> contactable(url@) && !disallowed(address)
    &&& r.1 is Stop ==> r.0.phase is Failed
    &&& step_outcome(s, e, r)
}

/// A run of a fetch: `states[0]` fed `events[i]` one by one to
/// [`fetch_step`], which left `states[i + 1]` and asked for `actions[i]`.
pub open spec fn is_fetch_run(states: Seq<FetchState>, events: Seq<FetchEvent>, actions: Seq<FetchAction>) -> bool {
    &&& states.len() == events.len() + 1
    &&& actions.len() == events.len()
    &&& forall|i: int| 0 <= i < events.len() ==> {
        &&& takes(states[i].phase, #[trigger] events[i])
        &&& fetch_step_post(states[i], events[i], (states[i + 1], actions[i]))
    }
}

/// How many of the first `n` steps followed a redirect: a redirect answer
/// after which the fetch went on to a new hop.
pub open spec fn redirects_followed(events: Seq<FetchEvent>, actions: Seq<FetchAction>, n: int) -> nat
    decreases n,
{
    if n <= 0 {
        0
    } else {
        redirects_followed(events, actions, n - 1) + if events[n - 1] is Redirect && actions[n - 1] is CheckClock { 1nat } else { 0nat }
    }
}

/// The redirect chain of a fetch, whatever the DNS and the servers answer:
/// from a fresh fetch, every request is sent to an `https` URL over a
/// connection pinned to an allowed address; a hop whose resolved addresses
/// include a disallowed one stops with `DisallowedAddress` before any
/// request to it; the redirects followed are counted in the state and never
/// exceed `max_redirects`; and a redirect answer once that many were
/// followed stops the fetch with `TooManyRedirects`.
pub proof fn law_redirect_chain(states: Seq<FetchState>, events: Seq<FetchEvent>, actions: Seq<FetchAction>)
    requires
        is_fetch_run(states, events, actions),
        chain_ok(states[0]),
        states[0].redirects == 0,
    ensures
        forall|i: int| 0 <= i < states.len() ==> {
            &&& (#[trigger] states[i]).redirects == redirects_followed(events, actions, i)
            &&& states[i].redirects <= states[0].max_redirects
            &&& states[i].max_redirects == states[0].max_redirects
        },
        forall|i: int| 0 <= i < actions.len() ==>
            ((#[trigger] actions[i]) matches FetchAction::Request { url, address, .. } ==> contactable(url@) && !disallowed(address)),
        forall|i: int| 0 <= i < events.len() ==> match (states[i].phase, #[trigger] events[i]) {
            (FetchPhase::Resolving(_), FetchEvent::Resolved(addrs)) =>
                (exists|k: int| 0 <= k < addrs@.len() && disallowed(addrs@[k]))
                    ==> actions[i] matches FetchAction::Stop(FetchError::DisallowedAddress(_)),
            (FetchPhase::Requesting(_, _), FetchEvent::Redirect(_)) =>
                states[i].redirects == states[i].max_redirects
                    ==> actions[i] == FetchAction::Stop(FetchError::TooManyRedirects { max: states[i].max_redirects }),
            _ => true,
        },
{
    lemma_run_counts(states, events, actions, states.len() - 1);
    assert forall|i: int| 0 <= i < actions.len() implies
        ((#[trigger] actions[i]) matches FetchAction::Request { url, address, .. } ==> contactable(url@) && !disallowed(address)) by {
        assert(takes(states[i].phase, events[i]));
        assert(fetch_step_post(states[i], events[i], (states[i + 1], actions[i])));
    }
    assert forall|i: int| 0 <= i < events.len() implies match (states[i].phase, #[trigger] events[i]) {
        (FetchPhase::Resolving(_), FetchEvent::Resolved(addrs)) =>
            (exists|k: int| 0 <= k < addrs@.len() && disallowed(addrs@[k]))
                ==> actions[i] matches FetchAction::Stop(FetchError::DisallowedAddress(_)),
        (FetchPhase::Requesting(_, _), FetchEvent::Redirect(_)) =>
            states[i].redirects == states[i].max_redirects
                ==> actions[i] == FetchAction::Stop(FetchError::TooManyRedirects { max: states[i].max_redirects }),
        _ => true,
    } by {
        assert(fetch_step_post(states[i], events[i], (states[i + 1], actions[i])));
        match (states[i].phase, events[i]) {
            (FetchPhase::Resolving(hop), FetchEvent::Resolved(addrs)) => {
                let c = choose|c: Result<IpAddress, FetchError>|
                    resolution_outcome(hop.host@, addrs@, c) && after_check(states[i], hop, c, (states[i + 1], actions[i]));
                if exists|k: int| 0 <= k < addrs@.len() && disallowed(addrs@[k]) {
                    let k = choose|k: int| 0 <= k < addrs@.len() && disallowed(addrs@[k]);
                    assert(c is Err);
                }
            },
            _ => {},
        }
    }
}

proof fn lemma_run_counts(states: Seq<FetchState>, events: Seq<FetchEvent>, actions: Seq<FetchAction>, n: int)
    requires
        is_fetch_run(states, events, actions),
        chain_ok(states[0]),
        states[0].redirects == 0,
        0 <= n < states.len(),
    ensures
        forall|i: int| 0 <= i <= n ==> {
            &&& (#[trigger] states[i]).redirects == redirects_followed(events, actions, i)
            &&& states[i].redirects <= states[0].max_redirects
            &&& states[i].max_redirects == states[0].max_redirects
        },
    decreases n,
{
    if n > 0 {
        lemma_run_counts(states, events, actions, n - 1);
        let i = n - 1;
        assert(fetch_step_post(states[i], events[i], (states[i + 1], actions[i])));
        assert(states[i].redirects == redirects_followed(events, actions, i));
        match (states[i].phase, events[i]) {
            (FetchPhase::Planning, FetchEvent::Clock { deadline_passed }) => {
                let p = choose|p: HopPlan| plan_outcome(states[i].current@, deadline_passed, p)
                    && after_plan(states[i], p, (states[i + 1], actions[i]));
            },
            (FetchPhase::Resolving(hop), FetchEvent::Resolved(addrs)) => {
                let c = choose|c: Result<IpAddress, FetchError>|
                    resolution_outcome(hop.host@, addrs@, c) && after_check(states[i], hop, c, (states[i + 1], actions[i]));
            },
            (FetchPhase::Requesting(_, _), FetchEvent::Redirect(location)) => {
                let f = choose|f: Result<(String, u8), FetchError>|
                    redirect_outcome(states[i].current@, states[i].redirects, states[i].max_redirects, opt_string_view(location), f)
                        && (states[i + 1], actions[i]) == after_redirect(states[i], f);
            },
            _ => {},
        }
        assert(states[n].redirects == redirects_followed(events, actions, n));
    }
}

pub open spec fn opt_string_view(o: Option<String>) -> Option<Seq<char>> {
    match o {
        Some(s) => Some(s@),
        None => None,
    }
}

fn copy_string(s: &String) -> (r: String)
    ensures
        r@ == s@,
{
    let mut r = String::new();
    push_str(&mut r, s.as_str());
    r
}

/// Appends one streamed chunk unless the body would pass `max_bytes`.
pub fn accept_chunk(body: &mut Vec<u8>, chunk: &[u8], max_bytes: usize) -> (r: Result<(), FetchError>)
    ensures
        old(body)@.len() + chunk@.len() > max_bytes ==> r == Err::<(), FetchError>(FetchError::TooLarge { maximum: max_bytes })
            && final(body)@ == old(body)@,
        old(body)@.len() + chunk@.len() <= max_bytes ==> r is Ok && final(body)@ == old(body)@ + chunk@,
{
    if chunk.len() > max_bytes || body.len() > max_bytes - chunk.len() {
        return Err(FetchError::TooLarge { maximum: max_bytes });
    }
    let mut i: usize = 0;
    let ghost start = body@;
    while i < chunk.len()
        invariant
            i <= chunk@.len(),
            body@ == start + chunk@.take(i as int),
        decreases chunk@.len() - i,
    {
        body.push(chunk[i]);
        assert(chunk@.take(i + 1) =~= chunk@.take(i as int).push(chunk@[i as int]));
        i = i + 1;
    }
    assert(chunk@.take(chunk@.len() as int) =~= chunk@);
    Ok(())
}

/// The chunks of a streamed body, joined.
pub open spec fn joined_chunks(chunks: Seq<Seq<u8>>) -> Seq<u8>
    decreases chunks.len(),
{
    if chunks.len() == 0 {
        Seq::empty()
    } else {
        joined_chunks(chunks.drop_last()) + chunks.last()
    }
}

/// The body held after feeding `chunks` to [`accept_chunk`] one by one from
/// an empty body, stopping at the first refusal (`None`).
pub open spec fn streamed_body(chunks: Seq<Seq<u8>>, max_bytes: usize) -> Option<Seq<u8>>
    decreases chunks.len(),
{
    if chunks.len() == 0 {
        Some(Seq::empty())
    } else {
        match streamed_body(chunks.drop_last(), max_bytes) {
            None => None,
            Some(body) => if body.len() + chunks.last().len() > max_bytes {
                None
            } else {
                Some(body + chunks.last())
            },
        }
    }
}

/// Streaming a response body through [`accept_chunk`] is refused, at some
/// chunk, exactly when the whole body is longer than `max_bytes`; otherwise
/// it ends holding the whole body. So no accepted body is longer than the
/// limit, and none within it is cut short.
pub proof fn law_streamed_body_is_capped(chunks: Seq<Seq<u8>>, max_bytes: usize)
    ensures
        streamed_body(chunks, max_bytes) == if joined_chunks(chunks).len() > max_bytes {
            None::<Seq<u8>>
        } else {
            Some(joined_chunks(chunks))
        },
    decreases chunks.len(),
{
    if chunks.len() > 0 {
        law_streamed_body_is_capped(chunks.drop_last(), max_bytes);
    }
}

/// A failed HTTP exchange: a timeout, or the client's error.
pub fn transport_error(is_timeout: bool, message: String) -> (r: FetchError)
    ensures
        is_timeout ==> r == FetchError::Timeout,
        !is_timeout ==> (r matches FetchError::Http(m) && m@ == message@),
{
    if is_timeout {
        FetchError::Timeout
    } else {
        FetchError::Http(message)
    }
}

} // verus!
