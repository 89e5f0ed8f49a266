//! Probing a Kroki backend for converters not yet wired into
//! [`DiagramFormat`]: which registered converters are candidates, and how
//! one probe response is classified.
//!
//! The `/health` request and the probe renders are made by the caller,
//! which hands over the registered converters and each response's status
//! and body.
use vstd::prelude::*;

use crate::json::{get_str_key, jget, JsonValue};
use crate::format::{all_formats, format_at, lemma_format_index, slug_of, DiagramFormat};
use crate::requirements_render::{lemma_lex_irreflexive, lemma_lex_total, lemma_lex_transitive, lex_less, lex_lt};
use crate::text::{push_decimal, push_str, str_chars, str_eq};

verus! {

/// Whether `slug` is the Kroki slug of a wired [`DiagramFormat`].
pub open spec fn is_wired_spec(slug: Seq<char>) -> bool {
    exists|f: DiagramFormat| slug_of(f) == slug
}

/// Whether `slug` is already wired.
pub fn is_wired(slug: &str) -> (r: bool)
    ensures
        r == is_wired_spec(slug@),
{
    let all = all_formats();
    let mut i: usize = 0;
    while i < all.len()
        invariant
            i <= 26,
            all@.len() == 26,
            forall|k: int| 0 <= k < 26 ==> all@[k] == format_at(k),
            forall|k: int| 0 <= k < i ==> slug_of(format_at(k)) != slug@,
        decreases 26 - i,
    {
        if str_eq(all[i].kroki_slug(), slug) {
            return true;
        }
        i = i + 1;
    }
    proof {
        assert forall|f: DiagramFormat| slug_of(f) != slug@ by {
            lemma_format_index(f);
        }
    }
    false
}

/// The registered converters (in key order) whose slug is not wired.
pub open spec fn candidates_spec(registered: Seq<(String, String)>) -> Seq<Seq<char>>
    decreases registered.len(),
{
    if registered.len() == 0 {
        Seq::empty()
    } else {
        let rest = candidates_spec(registered.drop_last());
        if is_wired_spec(registered.last().0@) {
            rest
        } else {
            rest.push(registered.last().0@)
        }
    }
}

/// Registered converters (`(slug, version)` in key order) not already
/// wired as a [`DiagramFormat`].
pub fn candidates(registered: &[(String, String)]) -> (r: Vec<String>)
    requires
        keys_ascending(registered@),
    ensures
        r@.map_values(|s: String| s@) == candidates_spec(registered@),
        forall|i: int, j: int| 0 <= i < j < r@.len() ==> lex_lt(r@[i]@, r@[j]@),
{
    let mut out: Vec<String> = Vec::new();
    let mut i: usize = 0;
    while i < registered.len()
        invariant
            i <= registered@.len(),
            out@.map_values(|s: String| s@) == candidates_spec(registered@.take(i as int)),
            keys_ascending(registered@),
            forall|a: int, b: int| 0 <= a < b < out@.len() ==> lex_lt(out@[a]@, out@[b]@),
            forall|a: int, m: int| 0 <= a < out@.len() && i <= m < registered@.len()
                ==> lex_lt(#[trigger] out@[a]@, #[trigger] registered@[m].0@),
        decreases registered@.len() - i,
    {
        assert(registered@.take(i + 1).drop_last() =~= registered@.take(i as int));
        let slug = &registered[i].0;
        if !is_wired(slug.as_str()) {
            let ghost before = out@.map_values(|s: String| s@);
            out.push(slug.clone());
            assert(out@.map_values(|s: String| s@) =~= before.push(slug@));
        }
        i = i + 1;
    }
    assert(registered@.take(registered@.len() as int) =~= registered@);
    out
}

/// One candidate's probe result.
#[derive(Debug, Clone, PartialEq, Eq)]
pub enum ProbeOutcome {
    /// `200` with an SVG-shaped body: companion-free, safe to wire.
    CompanionFree,
    /// `503`: needs a companion service that is not run.
    CompanionRequired,
    /// No vendored probe source exists for this slug; not probed.
    NoProbeSource,
    /// An unexpected status, or a `200` whose body is not SVG.
    NeedsInvestigation { status: u16, detail: String },
}

/// Whether a body begins like an SVG document (`<?xml` or `<svg`).
pub open spec fn looks_like_svg(body: Seq<u8>) -> bool {
    (body.len() >= 5 && body.take(5) == seq![0x3cu8, 0x3fu8, 0x78u8, 0x6du8, 0x6cu8])
        || (body.len() >= 4 && body.take(4) == seq![0x3cu8, 0x73u8, 0x76u8, 0x67u8])
}

fn bytes_start_with(body: &[u8], prefix: &[u8]) -> (r: bool)
    ensures
        r == (body@.len() >= prefix@.len() && body@.take(prefix@.len() as int) == prefix@),
{
    if body.len() < prefix.len() {
        return false;
    }
    let mut i: usize = 0;
    while i < prefix.len()
        invariant
            i <= prefix@.len() <= body@.len(),
            forall|k: int| 0 <= k < i ==> body@[k] == prefix@[k],
        decreases prefix@.len() - i,
    {
        if body[i] != prefix[i] {
            assert(body@.take(prefix@.len() as int)[i as int] != prefix@[i as int]);
            return false;
        }
        i = i + 1;
    }
    assert(body@.take(prefix@.len() as int) =~= prefix@);
    true
}

/// The detail of an unexpected status: the first 200 characters of the body.
pub open spec fn first_chars(s: Seq<char>, n: nat) -> Seq<char> {
    if s.len() <= n {
        s
    } else {
        s.take(n as int)
    }
}

/// The verdict on a probe response (see [`classify_probe`]).
pub open spec fn probe_verdict(status: u16, text_body: Seq<char>, body: Seq<u8>, r: ProbeOutcome) -> bool {
    &&& status == 503 ==> r == ProbeOutcome::CompanionRequired
    &&& status != 503 && !(200 <= status <= 299) ==> (r matches ProbeOutcome::NeedsInvestigation { status: s, detail: d }
        && s == status && d@ == first_chars(text_body, 200))
    &&& 200 <= status <= 299 && looks_like_svg(body) ==> r == ProbeOutcome::CompanionFree
    &&& 200 <= status <= 299 && !looks_like_svg(body) ==> (r matches ProbeOutcome::NeedsInvestigation { status: s, detail: d }
        && s == 200 && d@ == "200 OK but body doesn't look like SVG ("@ + crate::text::decimal(body.len()) + " bytes)"@)
}

/// How probes are judged: a converter is companion-free exactly when it
/// answered 2xx with an SVG-shaped body, so a 2xx with an empty body (a
/// converter that silently draws nothing) never is; it needs a companion
/// exactly when it answered `503`; anything else needs investigation.
pub proof fn law_probe_classification(status: u16, text_body: Seq<char>, body: Seq<u8>, r: ProbeOutcome)
    requires
        probe_verdict(status, text_body, body, r),
    ensures
        r == ProbeOutcome::CompanionFree <==> (200 <= status <= 299 && looks_like_svg(body)),
        body.len() == 0 ==> r != ProbeOutcome::CompanionFree,
        r == ProbeOutcome::CompanionRequired <==> status == 503,
        r is NeedsInvestigation <==> (status != 503 && !(200 <= status <= 299 && looks_like_svg(body))),
{
}

/// Classifies a probe response: `503` needs a companion; another non-2xx
/// status needs investigation (with the body's first 200 characters); a
/// 2xx with an SVG-shaped body is companion-free, and a 2xx with anything
/// else needs investigation (reported as status 200 with the body length).
pub fn classify_probe(status: u16, text_body: &str, body: &[u8]) -> (r: ProbeOutcome)
    ensures
        probe_verdict(status, text_body@, body@, r),
{
    if status == 503 {
        return ProbeOutcome::CompanionRequired;
    }
    if !(200 <= status && status <= 299) {
        let v = str_chars(text_body);
        let end = if v.len() <= 200 {
            v.len()
        } else {
            200
        };
        let mut detail = String::new();
        crate::text::push_chars(&mut detail, v.as_slice(), 0, end);
        assert(v@.subrange(0, end as int) =~= first_chars(text_body@, 200));
        return ProbeOutcome::NeedsInvestigation { status, detail };
    }
    let xml: [u8; 5] = [0x3cu8, 0x3fu8, 0x78u8, 0x6du8, 0x6cu8];
    let svg: [u8; 4] = [0x3cu8, 0x73u8, 0x76u8, 0x67u8];
    let a = bytes_start_with(body, xml.as_slice());
    let b = bytes_start_with(body, svg.as_slice());
    assert(xml@ =~= seq![0x3cu8, 0x3fu8, 0x78u8, 0x6du8, 0x6cu8]);
    assert(svg@ =~= seq![0x3cu8, 0x73u8, 0x76u8, 0x67u8]);
    if a || b {
        ProbeOutcome::CompanionFree
    } else {
        let mut detail = String::new();
        push_str(&mut detail, "200 OK but body doesn't look like SVG (");
        push_decimal(&mut detail, body.len() as u64);
        push_str(&mut detail, " bytes)");
        ProbeOutcome::NeedsInvestigation { status: 200, detail }
    }
}

/// The outcome of a probe whose request never got a response.
pub fn request_failed(error: &str) -> (r: ProbeOutcome)
    ensures
        r matches ProbeOutcome::NeedsInvestigation { status: s, detail: d } && s == 0
            && d@ == "request failed: "@ + error@,
{
    let mut detail = String::new();
    push_str(&mut detail, "request failed: ");
    push_str(&mut detail, error);
    ProbeOutcome::NeedsInvestigation { status: 0, detail }
}

/// The `{backend}/{slug}/svg` URL a probe posts to, backend trailing slashes
/// removed.
pub fn probe_url(backend: &str, slug: &str) -> (r: String)
    ensures
        r@ == crate::render::trim_trailing_slashes(backend@) + "/"@ + slug@ + "/svg"@,
{
    let mut s = crate::render::normalize_base_url(backend);
    push_str(&mut s, "/");
    push_str(&mut s, slug);
    push_str(&mut s, "/svg");
    s
}

/// The `{backend}/health` URL listing the registered converters.
pub fn health_url(backend: &str) -> (r: String)
    ensures
        r@ == crate::render::trim_trailing_slashes(backend@) + "/health"@,
{
    let mut s = crate::render::normalize_base_url(backend);
    push_str(&mut s, "/health");
    s
}

/// Keys strictly ascending, as a `BTreeMap` keeps them (so distinct).
pub open spec fn keys_ascending(v: Seq<(String, String)>) -> bool {
    forall|i: int, j: int| 0 <= i < j < v.len() ==> lex_lt(v[i].0@, v[j].0@)
}

/// `v` holds the entry `key` -> `val`.
pub open spec fn has_entry(v: Seq<(String, String)>, key: Seq<char>, val: Seq<char>) -> bool {
    exists|i: int| 0 <= i < v.len() && v[i].0@ == key && v[i].1@ == val
}

/// The version a `/health` `version` object registers for `key`: the last
/// string value under that key; none for `kroki`.
pub open spec fn registered_version(members: Seq<(String, JsonValue)>, key: Seq<char>) -> Option<Seq<char>>
    decreases members.len(),
{
    if members.len() == 0 || key == "kroki"@ {
        None
    } else {
        let (k, v) = members.last();
        match v {
            JsonValue::Str(s) => if k@ == key { Some(s@) } else { registered_version(members.drop_last(), key) },
            _ => registered_version(members.drop_last(), key),
        }
    }
}

/// Sets `k` to `val` in a key-ascending list of entries, keeping it
/// ascending.
fn insert_entry(v: &mut Vec<(String, String)>, k: &String, val: &String)
    requires
        keys_ascending(old(v)@),
    ensures
        keys_ascending(final(v)@),
        forall|key: Seq<char>, x: Seq<char>| #[trigger] has_entry(final(v)@, key, x)
            <==> (if key == k@ { x == val@ } else { has_entry(old(v)@, key, x) }),
{
    let ghost v0 = v@;
    let kc = str_chars(k.as_str());
    let mut i: usize = 0;
    let mut searching = true;
    while searching && i < v.len()
        invariant
            i <= v0.len(),
            v@ == v0,
            kc@ == k@,
            forall|j: int| 0 <= j < i ==> lex_lt(#[trigger] v0[j].0@, k@),
            !searching ==> i < v0.len() && !lex_lt(v0[i as int].0@, k@),
        decreases v0.len() - i + if searching { 1int } else { 0int },
    {
        let c = str_chars(v[i].0.as_str());
        if lex_less(c.as_slice(), kc.as_slice()) {
            i = i + 1;
        } else {
            searching = false;
        }
    }
    proof {
        // Every entry from `i` on is at or after `k`.
        assert forall|j: int| i <= j < v0.len() implies !lex_lt(#[trigger] v0[j].0@, k@) by {
            if lex_lt(v0[j].0@, k@) {
                if j > i {
                    lemma_lex_transitive(v0[i as int].0@, v0[j].0@, k@);
                }
            }
        }
    }
    if i < v.len() && str_eq(v[i].0.as_str(), k.as_str()) {
        v.set(i, (k.clone(), val.clone()));
        proof {
            assert forall|key: Seq<char>, x: Seq<char>| #[trigger] has_entry(v@, key, x)
                <==> (if key == k@ { x == val@ } else { has_entry(v0, key, x) }) by {
                if key == k@ {
                    if has_entry(v@, key, x) {
                        let m = choose|m: int| 0 <= m < v@.len() && v@[m].0@ == key && v@[m].1@ == x;
                        if m != i {
                            lemma_lex_irreflexive(key);
                            if m < i {
                                assert(lex_lt(v0[m].0@, v0[i as int].0@));
                            } else {
                                assert(lex_lt(v0[i as int].0@, v0[m].0@));
                            }
                        }
                    }
                    if x == val@ {
                        assert(v@[i as int].0@ == key && v@[i as int].1@ == x);
                    }
                } else {
                    if has_entry(v@, key, x) {
                        let m = choose|m: int| 0 <= m < v@.len() && v@[m].0@ == key && v@[m].1@ == x;
                        assert(v0[m].0@ == key && v0[m].1@ == x);
                    }
                    if has_entry(v0, key, x) {
                        let m = choose|m: int| 0 <= m < v0.len() && v0[m].0@ == key && v0[m].1@ == x;
                        assert(m != i);
                        assert(v@[m].0@ == key && v@[m].1@ == x);
                    }
                }
            }
        }
    } else {
        proof {
            // The entry at `i`, if any, is strictly after `k`.
            assert forall|j: int| i <= j < v0.len() implies lex_lt(k@, #[trigger] v0[j].0@) by {
                lemma_lex_total(k@, v0[j].0@);
                if j == i {
                } else {
                    lemma_lex_total(k@, v0[i as int].0@);
                    lemma_lex_transitive(k@, v0[i as int].0@, v0[j].0@);
                }
            }
        }
        v.insert(i, (k.clone(), val.clone()));
        proof {
            assert(v@ == v0.insert(i as int, v@[i as int]));
            assert forall|a: int, b: int| 0 <= a < b < v@.len() implies lex_lt(v@[a].0@, v@[b].0@) by {
                if b == i {
                    assert(v@[a] == v0[a]);
                } else if a == i {
                    assert(v@[b] == v0[b - 1]);
                } else if a < i && b > i {
                    assert(v@[a] == v0[a]);
                    assert(v@[b] == v0[b - 1]);
                    lemma_lex_transitive(v0[a].0@, k@, v0[b - 1].0@);
                } else if b < i {
                    assert(v@[a] == v0[a] && v@[b] == v0[b]);
                } else {
                    assert(v@[a] == v0[a - 1] && v@[b] == v0[b - 1]);
                }
            }
            assert forall|key: Seq<char>, x: Seq<char>| #[trigger] has_entry(v@, key, x)
                <==> (if key == k@ { x == val@ } else { has_entry(v0, key, x) }) by {
                if has_entry(v@, key, x) {
                    let m = choose|m: int| 0 <= m < v@.len() && v@[m].0@ == key && v@[m].1@ == x;
                    if m < i {
                        assert(v@[m] == v0[m]);
                        if key == k@ {
                            lemma_lex_irreflexive(key);
                        }
                    } else if m > i {
                        assert(v@[m] == v0[m - 1]);
                        if key == k@ {
                            lemma_lex_irreflexive(key);
                        }
                    }
                }
                if key == k@ && x == val@ {
                    assert(v@[i as int].0@ == key && v@[i as int].1@ == x);
                }
                if key != k@ && has_entry(v0, key, x) {
                    let m = choose|m: int| 0 <= m < v0.len() && v0[m].0@ == key && v0[m].1@ == x;
                    if m < i {
                        assert(v@[m] == v0[m]);
                    } else {
                        assert(v@[m + 1] == v0[m]);
                    }
                }
            }
        }
    }
}

/// Every converter a Kroki `/health` answer registers: its `version` object
/// without the `"kroki"` entry, as `(slug, version)` pairs in ascending slug
/// order, each slug with the last string value given for it (the object
/// read into a `BTreeMap`); an error when there is no `version` object.
pub fn registered_converters(health: &JsonValue, url: &str) -> (r: Result<Vec<(String, String)>, String>)
    ensures
        match jget(*health, "version"@) {
            Some(JsonValue::Object(members)) => r matches Ok(v) && keys_ascending(v@)
                && forall|key: Seq<char>, x: Seq<char>| #[trigger] has_entry(v@, key, x)
                    <==> registered_version(members@, key) == Some(x),
            _ => r matches Err(m) && m@ == url@ + " response has no \"version\" object"@,
        },
{
    let members = match get_str_key(health, "version") {
        Some(JsonValue::Object(members)) => members,
        _ => {
            let mut m = String::new();
            push_str(&mut m, url);
            push_str(&mut m, " response has no \"version\" object");
            return Err(m);
        },
    };
    let mut out: Vec<(String, String)> = Vec::new();
    let mut i: usize = 0;
    while i < members.len()
        invariant
            i <= members@.len(),
            keys_ascending(out@),
            forall|key: Seq<char>, x: Seq<char>| #[trigger] has_entry(out@, key, x)
                <==> registered_version(members@.take(i as int), key) == Some(x),
        decreases members@.len() - i,
    {
        assert(members@.take(i + 1).drop_last() =~= members@.take(i as int));
        let (k, v) = (&members[i].0, &members[i].1);
        let ghost before = out@;
        proof {
            reveal_strlit("kroki");
        }
        if !str_eq(k.as_str(), "kroki") {
            match v {
                JsonValue::Str(s) => {
                    insert_entry(&mut out, k, s);
                },
                _ => {},
            }
        }
        assert forall|key: Seq<char>, x: Seq<char>| #[trigger] has_entry(out@, key, x)
            <==> registered_version(members@.take(i + 1), key) == Some(x) by {
            assert(members@.take(i + 1).last() == members@[i as int]);
            if key == "kroki"@ {
                assert(!has_entry(before, key, x));
            }
        }
        i = i + 1;
    }
    assert(members@.take(members@.len() as int) =~= members@);
    Ok(out)
}

} // verus!
