//! Content-addressed artifact cache keys and layout.
//!
//! A render is identified by a SHA-256 over an unambiguous framing of its
//! inputs: a domain prefix and `0x1f` (ASCII Unit Separator, which cannot
//! appear in a format slug or output extension) between fields. The file
//! store itself (reads and atomic writes) lives with the I/O layer; this
//! module owns key derivation and the on-disk path layout
//! `<root>/<key[0..2]>/<key>.<ext>`.
use sha2::Digest;
use vstd::prelude::*;

use crate::format::{slug_of, DiagramFormat};
use crate::text::{hex_bytes, is_lower_hex_char, lemma_hex_bytes_len, push_char, str_chars, to_ascii_lower, to_hex, trim, trim_chars, ascii_lower, chars_eq};

verus! {

/// Output artifact type.
#[derive(Debug, Clone, Copy, PartialEq, Eq, Hash, Structural)]
pub enum OutputKind {
    Svg,
    Png,
}

pub open spec fn ext_of(o: OutputKind) -> Seq<char> {
    match o {
        OutputKind::Svg => "svg"@,
        OutputKind::Png => "png"@,
    }
}

pub open spec fn content_type_of(o: OutputKind) -> Seq<char> {
    match o {
        OutputKind::Svg => "image/svg+xml"@,
        OutputKind::Png => "image/png"@,
    }
}

/// The output kind a query-parameter value names, if any: trimmed and ASCII
/// case-insensitive.
pub open spec fn output_kind_named(s: Seq<char>) -> Option<OutputKind> {
    let norm = ascii_lower(trim(s));
    if norm == "svg"@ {
        Some(OutputKind::Svg)
    } else if norm == "png"@ {
        Some(OutputKind::Png)
    } else {
        None
    }
}

impl OutputKind {
    pub fn ext(self) -> (r: &'static str)
        ensures
            r@ == ext_of(self),
    {
        match self {
            OutputKind::Svg => "svg",
            OutputKind::Png => "png",
        }
    }

    pub fn content_type(self) -> (r: &'static str)
        ensures
            r@ == content_type_of(self),
    {
        match self {
            OutputKind::Svg => "image/svg+xml",
            OutputKind::Png => "image/png",
        }
    }

    /// Parse from a query-param or header value.
    pub fn from_param(s: &str) -> (r: Option<OutputKind>)
        ensures
            r == output_kind_named(s@),
    {
        let raw = str_chars(s);
        let t = trim_chars(raw.as_slice());
        let norm = to_ascii_lower(t.as_slice());
        let svg = str_chars("svg");
        let png = str_chars("png");
        if chars_eq(norm.as_slice(), svg.as_slice()) {
            Some(OutputKind::Svg)
        } else if chars_eq(norm.as_slice(), png.as_slice()) {
            Some(OutputKind::Png)
        } else {
            None
        }
    }
}

// ---------------------------------------------------------------------
// Hashing
// ---------------------------------------------------------------------

/// SHA-256 of a byte sequence (FIPS 180-4), as the `sha2` crate computes it.
pub uninterp spec fn sha256_digest(data: Seq<u8>) -> Seq<u8>;

/// `sha2::Sha256::digest`: the 32-byte SHA-256 digest of `data`.
#[verifier::external_body]
pub(crate) fn sha256(data: &[u8]) -> (r: Vec<u8>)
    ensures
        r@ == sha256_digest(data@),
        r@.len() == 32,
{
    sha2::Sha256::digest(data).to_vec()
}

/// Lowercase-hex SHA-256 of a byte sequence.
pub open spec fn sha256_hex_spec(data: Seq<u8>) -> Seq<char> {
    hex_bytes(sha256_digest(data))
}

/// Lowercase-hex SHA-256 of `data`.
pub fn sha256_hex(data: &[u8]) -> (r: String)
    ensures
        r@ == sha256_hex_spec(data@),
        r@.len() == 64,
        forall|k: int| 0 <= k < 64 ==> is_lower_hex_char(#[trigger] r@[k]),
{
    let d = sha256(data);
    proof { lemma_hex_bytes_len(d@); }
    to_hex(d.as_slice())
}

// ---------------------------------------------------------------------
// Key framing
// ---------------------------------------------------------------------

/// The ASCII Unit Separator delimiting key fields.
pub open spec fn sep() -> Seq<u8> {
    seq![0x1fu8]
}

/// The domain prefix `kr0ki/v1`.
pub open spec fn domain_prefix() -> Seq<u8> {
    seq![0x6bu8, 0x72u8, 0x30u8, 0x6bu8, 0x69u8, 0x2fu8, 0x76u8, 0x31u8]
}

/// `"kr0ki/v1" ‖ 0x1f ‖ a ‖ 0x1f ‖ b ‖ 0x1f ‖ c`.
pub open spec fn framed3(a: Seq<u8>, b: Seq<u8>, c: Seq<u8>) -> Seq<u8> {
    domain_prefix() + sep() + a + sep() + b + sep() + c
}

/// The UTF-8 bytes of a string view.
pub open spec fn utf8(s: Seq<char>) -> Seq<u8> {
    vstd::utf8::encode_utf8(s)
}

/// Hash input of a raw-source render key.
pub open spec fn text_key_preimage(format: DiagramFormat, output: OutputKind, source: Seq<char>) -> Seq<u8> {
    framed3(utf8(slug_of(format)), utf8(ext_of(output)), utf8(source))
}

/// Hash input of a model render key; a non-empty recognizer rule-set version
/// is appended as a fourth field.
pub open spec fn model_key_preimage(view_kind: Seq<char>, notation: Seq<char>, content_hash: Seq<char>, rule_set_version: Seq<char>) -> Seq<u8> {
    let base = framed3(utf8(view_kind), utf8(notation), utf8(content_hash));
    if rule_set_version.len() == 0 {
        base
    } else {
        base + sep() + utf8(rule_set_version)
    }
}

pub fn push_bytes(out: &mut Vec<u8>, bytes: &[u8])
    ensures
        final(out)@ == old(out)@ + bytes@,
{
    let mut i: usize = 0;
    while i < bytes.len()
        invariant
            i <= bytes@.len(),
            out@ == old(out)@ + bytes@.take(i as int),
        decreases bytes@.len() - i,
    {
        out.push(bytes[i]);
        i = i + 1;
        assert(out@ =~= old(out)@ + bytes@.take(i as int));
    }
    assert(bytes@.take(bytes@.len() as int) =~= bytes@);
}

fn framed3_exec(a: &str, b: &str, c: &str) -> (r: Vec<u8>)
    ensures
        r@ == framed3(utf8(a@), utf8(b@), utf8(c@)),
{
    let mut v: Vec<u8> = vec![0x6bu8, 0x72u8, 0x30u8, 0x6bu8, 0x69u8, 0x2fu8, 0x76u8, 0x31u8];
    v.push(0x1fu8);
    push_bytes(&mut v, a.as_bytes());
    v.push(0x1fu8);
    push_bytes(&mut v, b.as_bytes());
    v.push(0x1fu8);
    push_bytes(&mut v, c.as_bytes());
    assert(v@ =~= framed3(utf8(a@), utf8(b@), utf8(c@)));
    v
}

/// The cache key for one render request: lowercase-hex
/// `SHA256("kr0ki/v1" ‖ 0x1f ‖ format_slug ‖ 0x1f ‖ output_ext ‖ 0x1f ‖ source)`.
pub fn cache_key(format: DiagramFormat, output: OutputKind, source: &str) -> (r: String)
    ensures
        r@ == sha256_hex_spec(text_key_preimage(format, output, source@)),
        r@.len() == 64,
        forall|k: int| 0 <= k < 64 ==> is_lower_hex_char(#[trigger] r@[k]),
{
    let pre = framed3_exec(format.kroki_slug(), output.ext(), source);
    sha256_hex(pre.as_slice())
}

/// The cache key for one SysML-model render: lowercase-hex
/// `SHA256("kr0ki/v1" ‖ 0x1f ‖ view_kind ‖ 0x1f ‖ notation ‖ 0x1f ‖ content_hash)`.
pub fn model_cache_key(view_kind: &str, notation: &str, content_hash: &str) -> (r: String)
    ensures
        r@ == sha256_hex_spec(model_key_preimage(view_kind@, notation@, content_hash@, Seq::empty())),
        r@.len() == 64,
{
    let pre = framed3_exec(view_kind, notation, content_hash);
    sha256_hex(pre.as_slice())
}

/// [`model_cache_key`] with the recognizer rule-set version folded in as a
/// fourth field when it is non-empty (an empty version yields exactly the
/// three-field key), so a rule-set change yields a new key.
pub fn model_cache_key_with_rules(view_kind: &str, notation: &str, content_hash: &str, rule_set_version: &str) -> (r: String)
    ensures
        r@ == sha256_hex_spec(model_key_preimage(view_kind@, notation@, content_hash@, rule_set_version@)),
        r@.len() == 64,
{
    let mut pre = framed3_exec(view_kind, notation, content_hash);
    if !rule_set_version.is_empty() {
        pre.push(0x1fu8);
        push_bytes(&mut pre, rule_set_version.as_bytes());
        assert(pre@ =~= model_key_preimage(view_kind@, notation@, content_hash@, rule_set_version@));
    }
    sha256_hex(pre.as_slice())
}

/// No `0x1f` byte occurs in `s`.
pub open spec fn sep_free(s: Seq<u8>) -> bool {
    forall|k: int| 0 <= k < s.len() ==> #[trigger] s[k] != 0x1fu8
}

proof fn lemma_split_at_sep(x: Seq<u8>, y: Seq<u8>, a: Seq<u8>, a2: Seq<u8>, r: Seq<u8>, r2: Seq<u8>)
    requires
        x == a + sep() + r,
        y == a2 + sep() + r2,
        x == y,
        sep_free(a),
        sep_free(a2),
    ensures
        a == a2,
        r == r2,
{
    if a.len() < a2.len() {
        assert(x[a.len() as int] == 0x1fu8);
        assert(y[a.len() as int] == a2[a.len() as int]);
    } else if a2.len() < a.len() {
        assert(y[a2.len() as int] == 0x1fu8);
        assert(x[a2.len() as int] == a[a2.len() as int]);
    }
    assert(a =~= x.subrange(0, a.len() as int));
    assert(a2 =~= y.subrange(0, a2.len() as int));
    assert(r =~= x.subrange(a.len() as int + 1, x.len() as int));
    assert(r2 =~= y.subrange(a2.len() as int + 1, y.len() as int));
}

/// Law: the key framing is unambiguous. Two framings are equal only when all
/// three fields are, provided the first two fields carry no `0x1f` (true of
/// every format slug and output extension) — so moving bytes across a field
/// boundary always changes the hashed input.
pub proof fn law_framing_injective(a: Seq<u8>, b: Seq<u8>, c: Seq<u8>, a2: Seq<u8>, b2: Seq<u8>, c2: Seq<u8>)
    requires
        sep_free(a),
        sep_free(b),
        sep_free(a2),
        sep_free(b2),
        framed3(a, b, c) == framed3(a2, b2, c2),
    ensures
        a == a2,
        b == b2,
        c == c2,
{
    let x = framed3(a, b, c);
    let y = framed3(a2, b2, c2);
    let p = domain_prefix() + sep();
    let xs = x.subrange(9, x.len() as int);
    let ys = y.subrange(9, y.len() as int);
    assert(xs =~= a + sep() + (b + sep() + c));
    assert(ys =~= a2 + sep() + (b2 + sep() + c2));
    lemma_split_at_sep(xs, ys, a, a2, b + sep() + c, b2 + sep() + c2);
    lemma_split_at_sep(b + sep() + c, b2 + sep() + c2, b, b2, c, c2);
}

// ---------------------------------------------------------------------
// Store layout
// ---------------------------------------------------------------------

/// `Path::join` of one relative segment: a `/` is inserted unless the base is
/// empty or already ends in `/`.
pub open spec fn path_join(base: Seq<char>, seg: Seq<char>) -> Seq<char> {
    if base.len() == 0 || base.last() == '/' {
        base + seg
    } else {
        base + seq!['/'] + seg
    }
}

/// The file an artifact with this key lives at: `<root>/<key[0..2]>/<key>.<ext>`.
pub open spec fn artifact_path(root: Seq<char>, key: Seq<char>, output: OutputKind) -> Seq<char> {
    path_join(path_join(root, key.subrange(0, 2)), key + seq!['.'] + ext_of(output))
}

/// Filesystem-backed origin cache rooted at `root`.
#[derive(Debug, Clone)]
pub struct FsCache {
    root: String,
}

impl FsCache {
    pub closed spec fn root_view(&self) -> Seq<char> {
        self.root@
    }

    pub fn new(root: String) -> (r: FsCache)
        ensures
            r.root_view() == root@,
    {
        FsCache { root }
    }

    pub fn root(&self) -> (r: &str)
        ensures
            r@ == self.root_view(),
    {
        self.root.as_str()
    }

    fn push_joined_segment(out: &mut String, seg: &[char], lo: usize, hi: usize)
        requires
            lo <= hi <= seg@.len(),
        ensures
            final(out)@ == path_join(old(out)@, seg@.subrange(lo as int, hi as int)),
    {
        let cur = str_chars(out.as_str());
        if cur.len() > 0 && cur[cur.len() - 1] != '/' {
            push_char(out, '/');
        }
        crate::text::push_chars(out, seg, lo, hi);
    }

    /// The artifact path for `key` (a key has at least two characters: the
    /// shard directory is its first two).
    pub fn path_for(&self, key: &str, output: OutputKind) -> (r: String)
        requires
            key@.len() >= 2,
        ensures
            r@ == artifact_path(self.root_view(), key@, output),
    {
        let k = str_chars(key);
        let mut out = self.root.clone();
        Self::push_joined_segment(&mut out, k.as_slice(), 0, 2);
        let mut file: Vec<char> = k.clone();
        file.push('.');
        let e = str_chars(output.ext());
        let mut i: usize = 0;
        while i < e.len()
            invariant
                i <= e@.len(),
                file@ == k@.push('.') + e@.take(i as int),
            decreases e@.len() - i,
        {
            file.push(e[i]);
            i = i + 1;
            assert(file@ =~= k@.push('.') + e@.take(i as int));
        }
        assert(e@.take(e@.len() as int) =~= e@);
        let n = file.len();
        Self::push_joined_segment(&mut out, file.as_slice(), 0, n);
        assert(file@.subrange(0, n as int) =~= file@);
        assert(k@.subrange(0, 2) =~= key@.subrange(0, 2));
        assert(file@ =~= key@ + seq!['.'] + ext_of(output));
        out
    }
}

/// Whether a render was served from cache or hit the backend.
#[derive(Debug, Clone, Copy, PartialEq, Eq, Structural)]
pub enum CacheStatus {
    Hit,
    Miss,
}

} // verus!
