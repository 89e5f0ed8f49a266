//! Character-sequence helpers shared by every emitter and parser in the crate.
//!
//! Text is modelled as `Seq<char>` (the view of `str` and `String`); every
//! transformation here has a spec-level definition that the emitters' own
//! contracts are written against.
use vstd::prelude::*;

verus! {

/// Appends one character to a `String` (`String::push`).
#[verifier::external_body]
pub(crate) fn push_char(s: &mut String, c: char)
    ensures
        final(s)@ == old(s)@.push(c),
{
    s.push(c);
}

/// Appends a string slice to a `String`.
pub fn push_str(s: &mut String, t: &str)
    ensures
        final(s)@ == old(s)@ + t@,
{
    s.append(t);
}

/// The characters of `s`, in order.
pub fn str_chars(s: &str) -> (v: Vec<char>)
    ensures
        v@ == s@,
{
    let mut v: Vec<char> = Vec::new();
    let it = s.chars();
    for c in iter: it
        invariant
            v@ == iter.seq().take(iter.index() as int),
    {
        v.push(c);
    }
    v
}

/// A `String` holding exactly the characters `v[lo..hi]`.
pub fn chars_to_string(v: &[char], lo: usize, hi: usize) -> (s: String)
    requires
        lo <= hi <= v@.len(),
    ensures
        s@ == v@.subrange(lo as int, hi as int),
{
    let mut s = String::new();
    let mut i = lo;
    while i < hi
        invariant
            lo <= i <= hi <= v@.len(),
            s@ == v@.subrange(lo as int, i as int),
        decreases hi - i,
    {
        push_char(&mut s, v[i]);
        assert(v@.subrange(lo as int, i + 1) =~= v@.subrange(lo as int, i as int).push(v@[i as int]));
        i = i + 1;
    }
    s
}

/// Appends `v[lo..hi]` to `s`.
pub fn push_chars(s: &mut String, v: &[char], lo: usize, hi: usize)
    requires
        lo <= hi <= v@.len(),
    ensures
        final(s)@ == old(s)@ + v@.subrange(lo as int, hi as int),
{
    let mut i = lo;
    while i < hi
        invariant
            lo <= i <= hi <= v@.len(),
            s@ == old(s)@ + v@.subrange(lo as int, i as int),
        decreases hi - i,
    {
        push_char(s, v[i]);
        assert(v@.subrange(lo as int, i + 1) =~= v@.subrange(lo as int, i as int).push(v@[i as int]));
        i = i + 1;
    }
}

/// Whether two character vectors hold the same characters.
pub fn chars_eq(a: &[char], b: &[char]) -> (r: bool)
    ensures
        r == (a@ == b@),
{
    if a.len() != b.len() {
        return false;
    }
    let mut i: usize = 0;
    while i < a.len()
        invariant
            a@.len() == b@.len(),
            i <= a@.len(),
            forall|j: int| 0 <= j < i ==> a@[j] == b@[j],
        decreases a@.len() - i,
    {
        if a[i] != b[i] {
            return false;
        }
        i = i + 1;
    }
    assert(a@ =~= b@);
    true
}

/// Whether two string slices hold the same characters.
pub fn str_eq(a: &str, b: &str) -> (r: bool)
    ensures
        r == (a@ == b@),
{
    let va = str_chars(a);
    let vb = str_chars(b);
    chars_eq(va.as_slice(), vb.as_slice())
}

// ---------------------------------------------------------------------
// Character-wise rewriting
// ---------------------------------------------------------------------

/// Rewrite every character of `s` through `f`, concatenating the pieces.
pub open spec fn map_chars(s: Seq<char>, f: spec_fn(char) -> Seq<char>) -> Seq<char>
    decreases s.len(),
{
    if s.len() == 0 {
        Seq::empty()
    } else {
        map_chars(s.drop_last(), f) + f(s.last())
    }
}

pub proof fn lemma_map_chars_step(s: Seq<char>, i: int, f: spec_fn(char) -> Seq<char>)
    requires
        0 <= i < s.len(),
    ensures
        map_chars(s.take(i + 1), f) == map_chars(s.take(i), f) + f(s[i]),
{
    assert(s.take(i + 1).drop_last() =~= s.take(i));
}

pub proof fn lemma_map_chars_append(a: Seq<char>, b: Seq<char>, f: spec_fn(char) -> Seq<char>)
    ensures
        map_chars(a + b, f) == map_chars(a, f) + map_chars(b, f),
    decreases b.len(),
{
    if b.len() == 0 {
        assert(a + b =~= a);
    } else {
        lemma_map_chars_append(a, b.drop_last(), f);
        assert((a + b).drop_last() =~= a + b.drop_last());
    }
}

/// The identity rewrite leaves text unchanged.
pub proof fn lemma_map_chars_identity(s: Seq<char>, f: spec_fn(char) -> Seq<char>)
    requires
        forall|c: char| s.contains(c) ==> #[trigger] f(c) == seq![c],
    ensures
        map_chars(s, f) == s,
    decreases s.len(),
{
    if s.len() > 0 {
        assert forall|c: char| s.drop_last().contains(c) implies #[trigger] f(c) == seq![c] by {
            let k = choose|k: int| 0 <= k < s.drop_last().len() && s.drop_last()[k] == c;
            assert(s[k] == c);
        }
        lemma_map_chars_identity(s.drop_last(), f);
        assert(s.contains(s.last()));
        assert(s.drop_last().push(s.last()) =~= s);
    }
}

/// `c` unchanged, as a one-character piece.
pub open spec fn keep(c: char) -> Seq<char> {
    seq![c]
}

/// D2 quoted-string escaping of one character: `\` and `"` are backslash-escaped.
pub open spec fn d2_escape_char(c: char) -> Seq<char> {
    if c == '\\' {
        seq!['\\', '\\']
    } else if c == '"' {
        seq!['\\', '"']
    } else {
        seq![c]
    }
}

/// A newline becomes a space; every other character is kept.
pub open spec fn flatten_newline_char(c: char) -> Seq<char> {
    if c == '\n' {
        seq![' ']
    } else {
        seq![c]
    }
}

/// HTML text escaping of one character (`&`, `<`, `>`, `"`).
pub open spec fn html_escape_char(c: char) -> Seq<char> {
    if c == '&' {
        seq!['&', 'a', 'm', 'p', ';']
    } else if c == '<' {
        seq!['&', 'l', 't', ';']
    } else if c == '>' {
        seq!['&', 'g', 't', ';']
    } else if c == '"' {
        seq!['&', 'q', 'u', 'o', 't', ';']
    } else {
        seq![c]
    }
}

/// Mermaid label neutralisation of one character: newline -> space,
/// `"` -> `'`, `|` -> `/`.
pub open spec fn mermaid_escape_char(c: char) -> Seq<char> {
    if c == '\n' {
        seq![' ']
    } else if c == '"' {
        seq!['\'']
    } else if c == '|' {
        seq!['/']
    } else {
        seq![c]
    }
}

/// Appends `d2_escape_char(v[i])` for each character of `v`.
pub fn push_d2_escaped(out: &mut String, v: &[char])
    ensures
        final(out)@ == old(out)@ + map_chars(v@, |c: char| d2_escape_char(c)),
{
    let ghost f = |c: char| d2_escape_char(c);
    let mut i: usize = 0;
    while i < v.len()
        invariant
            i <= v@.len(),
            f == (|c: char| d2_escape_char(c)),
            out@ == old(out)@ + map_chars(v@.take(i as int), f),
        decreases v@.len() - i,
    {
        let c = v[i];
        proof {
            lemma_map_chars_step(v@, i as int, f);
        }
        if c == '\\' {
            push_char(out, '\\');
            push_char(out, '\\');
        } else if c == '"' {
            push_char(out, '\\');
            push_char(out, '"');
        } else {
            push_char(out, c);
        }
        i = i + 1;
    }
    assert(v@.take(v@.len() as int) =~= v@);
}

/// Appends `flatten_newline_char` of each character (`str::replace('\n', " ")`).
pub fn push_flattened(out: &mut String, v: &[char])
    ensures
        final(out)@ == old(out)@ + map_chars(v@, |c: char| flatten_newline_char(c)),
{
    let ghost f = |c: char| flatten_newline_char(c);
    let mut i: usize = 0;
    while i < v.len()
        invariant
            i <= v@.len(),
            f == (|c: char| flatten_newline_char(c)),
            out@ == old(out)@ + map_chars(v@.take(i as int), f),
        decreases v@.len() - i,
    {
        let c = v[i];
        proof {
            lemma_map_chars_step(v@, i as int, f);
        }
        if c == '\n' {
            push_char(out, ' ');
        } else {
            push_char(out, c);
        }
        i = i + 1;
    }
    assert(v@.take(v@.len() as int) =~= v@);
}

/// Appends `flatten_newline_char` then `d2_escape_char` of each character.
pub fn push_d2_label_escaped(out: &mut String, v: &[char])
    ensures
        final(out)@ == old(out)@ + map_chars(
            map_chars(v@, |c: char| flatten_newline_char(c)),
            |c: char| d2_escape_char(c),
        ),
{
    let ghost f = |c: char| flatten_newline_char(c);
    let ghost g = |c: char| d2_escape_char(c);
    let mut i: usize = 0;
    while i < v.len()
        invariant
            i <= v@.len(),
            f == (|c: char| flatten_newline_char(c)),
            g == (|c: char| d2_escape_char(c)),
            out@ == old(out)@ + map_chars(map_chars(v@.take(i as int), f), g),
        decreases v@.len() - i,
    {
        let c = v[i];
        proof {
            lemma_map_chars_step(v@, i as int, f);
            lemma_map_chars_append(map_chars(v@.take(i as int), f), f(v@[i as int]), g);
            let p = f(v@[i as int]);
            assert(p.drop_last() =~= Seq::<char>::empty());
            assert(map_chars(Seq::<char>::empty(), g) =~= Seq::<char>::empty());
            assert(map_chars(p, g) =~= g(p.last()));
        }
        if c == '\n' {
            push_char(out, ' ');
        } else if c == '\\' {
            push_char(out, '\\');
            push_char(out, '\\');
        } else if c == '"' {
            push_char(out, '\\');
            push_char(out, '"');
        } else {
            push_char(out, c);
        }
        i = i + 1;
    }
    assert(v@.take(v@.len() as int) =~= v@);
}

/// Appends `html_escape_char` of each character of `v`.
pub fn push_html_escaped(out: &mut String, v: &[char])
    ensures
        final(out)@ == old(out)@ + map_chars(v@, |c: char| html_escape_char(c)),
{
    let ghost f = |c: char| html_escape_char(c);
    let mut i: usize = 0;
    while i < v.len()
        invariant
            i <= v@.len(),
            f == (|c: char| html_escape_char(c)),
            out@ == old(out)@ + map_chars(v@.take(i as int), f),
        decreases v@.len() - i,
    {
        let c = v[i];
        proof {
            lemma_map_chars_step(v@, i as int, f);
        }
        if c == '&' {
            push_str(out, "&amp;");
            proof { reveal_strlit("&amp;"); }
        } else if c == '<' {
            push_str(out, "&lt;");
            proof { reveal_strlit("&lt;"); }
        } else if c == '>' {
            push_str(out, "&gt;");
            proof { reveal_strlit("&gt;"); }
        } else if c == '"' {
            push_str(out, "&quot;");
            proof { reveal_strlit("&quot;"); }
        } else {
            push_char(out, c);
        }
        assert(out@ == old(out)@ + map_chars(v@.take(i + 1), f));
        i = i + 1;
    }
    assert(v@.take(v@.len() as int) =~= v@);
}

/// Appends `mermaid_escape_char` of each character of `v`.
pub fn push_mermaid_escaped(out: &mut String, v: &[char])
    ensures
        final(out)@ == old(out)@ + map_chars(v@, |c: char| mermaid_escape_char(c)),
{
    let ghost f = |c: char| mermaid_escape_char(c);
    let mut i: usize = 0;
    while i < v.len()
        invariant
            i <= v@.len(),
            f == (|c: char| mermaid_escape_char(c)),
            out@ == old(out)@ + map_chars(v@.take(i as int), f),
        decreases v@.len() - i,
    {
        let c = v[i];
        proof {
            lemma_map_chars_step(v@, i as int, f);
        }
        if c == '\n' {
            push_char(out, ' ');
        } else if c == '"' {
            push_char(out, '\'');
        } else if c == '|' {
            push_char(out, '/');
        } else {
            push_char(out, c);
        }
        i = i + 1;
    }
    assert(v@.take(v@.len() as int) =~= v@);
}

// ---------------------------------------------------------------------
// Case folding and trimming
// ---------------------------------------------------------------------

/// ASCII lower-casing of one character (`char::to_ascii_lowercase`).
pub open spec fn ascii_lower_char(c: char) -> char {
    if 'A' <= c && c <= 'Z' {
        ((c as u32) + 32) as char
    } else {
        c
    }
}

pub open spec fn ascii_lower(s: Seq<char>) -> Seq<char> {
    Seq::new(s.len(), |i: int| ascii_lower_char(s[i]))
}

pub fn to_ascii_lower_char(c: char) -> (r: char)
    ensures
        r == ascii_lower_char(c),
{
    if 'A' <= c && c <= 'Z' {
        let u: u8 = (c as u32) as u8;
        let l: u8 = u + 32;
        l as char
    } else {
        c
    }
}

pub fn to_ascii_lower(v: &[char]) -> (r: Vec<char>)
    ensures
        r@ == ascii_lower(v@),
{
    let mut r: Vec<char> = Vec::new();
    let mut i: usize = 0;
    while i < v.len()
        invariant
            i <= v@.len(),
            r@ == ascii_lower(v@.take(i as int)),
        decreases v@.len() - i,
    {
        r.push(to_ascii_lower_char(v[i]));
        i = i + 1;
        assert(r@ =~= ascii_lower(v@.take(i as int)));
    }
    assert(v@.take(v@.len() as int) =~= v@);
    r
}

/// Unicode `White_Space` (what `char::is_whitespace` and `str::trim` use).
pub open spec fn is_ws(c: char) -> bool {
    ||| c == ' '
    ||| ('\u{9}' <= c && c <= '\u{d}')
    ||| c == '\u{85}'
    ||| c == '\u{a0}'
    ||| c == '\u{1680}'
    ||| ('\u{2000}' <= c && c <= '\u{200a}')
    ||| c == '\u{2028}'
    ||| c == '\u{2029}'
    ||| c == '\u{202f}'
    ||| c == '\u{205f}'
    ||| c == '\u{3000}'
}

pub fn is_whitespace(c: char) -> (r: bool)
    ensures
        r == is_ws(c),
{
    c == ' ' || ('\u{9}' <= c && c <= '\u{d}') || c == '\u{85}' || c == '\u{a0}'
        || c == '\u{1680}' || ('\u{2000}' <= c && c <= '\u{200a}') || c == '\u{2028}'
        || c == '\u{2029}' || c == '\u{202f}' || c == '\u{205f}' || c == '\u{3000}'
}

/// Index of the first non-whitespace character (or `s.len()`).
pub open spec fn trim_start_index(s: Seq<char>) -> int
    decreases s.len(),
{
    if s.len() == 0 {
        0
    } else if is_ws(s[0]) {
        1 + trim_start_index(s.drop_first())
    } else {
        0
    }
}

/// One past the last non-whitespace character (or `0`).
pub open spec fn trim_end_index(s: Seq<char>) -> int
    decreases s.len(),
{
    if s.len() == 0 {
        0
    } else if is_ws(s.last()) {
        trim_end_index(s.drop_last())
    } else {
        s.len() as int
    }
}

/// `str::trim`: leading and trailing whitespace removed.
pub open spec fn trim(s: Seq<char>) -> Seq<char> {
    let lo = trim_start_index(s);
    let hi = trim_end_index(s);
    if lo < hi {
        s.subrange(lo, hi)
    } else {
        Seq::empty()
    }
}

pub proof fn lemma_trim_start_bounds(s: Seq<char>)
    ensures
        0 <= trim_start_index(s) <= s.len(),
        forall|k: int| 0 <= k < trim_start_index(s) ==> is_ws(#[trigger] s[k]),
        trim_start_index(s) < s.len() ==> !is_ws(s[trim_start_index(s)]),
    decreases s.len(),
{
    if s.len() > 0 && is_ws(s[0]) {
        lemma_trim_start_bounds(s.drop_first());
        assert forall|k: int| 0 <= k < trim_start_index(s) implies is_ws(#[trigger] s[k]) by {
            if k > 0 {
                assert(s[k] == s.drop_first()[k - 1]);
            }
        }
    }
}

pub proof fn lemma_trim_end_bounds(s: Seq<char>)
    ensures
        0 <= trim_end_index(s) <= s.len(),
        forall|k: int| trim_end_index(s) <= k < s.len() ==> is_ws(#[trigger] s[k]),
        trim_end_index(s) > 0 ==> !is_ws(s[trim_end_index(s) - 1]),
    decreases s.len(),
{
    if s.len() > 0 && is_ws(s.last()) {
        lemma_trim_end_bounds(s.drop_last());
        assert forall|k: int| trim_end_index(s) <= k < s.len() implies is_ws(#[trigger] s[k]) by {
            if k < s.len() - 1 {
                assert(s[k] == s.drop_last()[k]);
            }
        }
    }
}

/// Characters `[lo, hi)` of `v` are all whitespace iff `lo` is where a scan
/// from `lo` stops.
pub fn trim_start_pos(v: &[char]) -> (r: usize)
    ensures
        r == trim_start_index(v@),
{
    proof { lemma_trim_start_bounds(v@); }
    let mut i: usize = 0;
    while i < v.len() && is_whitespace(v[i])
        invariant
            i <= v@.len(),
            forall|k: int| 0 <= k < i ==> is_ws(#[trigger] v@[k]),
            i <= trim_start_index(v@),
            0 <= trim_start_index(v@) <= v@.len(),
            forall|k: int| 0 <= k < trim_start_index(v@) ==> is_ws(#[trigger] v@[k]),
            trim_start_index(v@) < v@.len() ==> !is_ws(v@[trim_start_index(v@)]),
        decreases v@.len() - i,
    {
        i = i + 1;
    }
    i
}

pub fn trim_end_pos(v: &[char]) -> (r: usize)
    ensures
        r == trim_end_index(v@),
{
    proof { lemma_trim_end_bounds(v@); }
    let mut j: usize = v.len();
    while j > 0 && is_whitespace(v[j - 1])
        invariant
            j <= v@.len(),
            forall|k: int| j <= k < v@.len() ==> is_ws(#[trigger] v@[k]),
            trim_end_index(v@) <= j,
            0 <= trim_end_index(v@) <= v@.len(),
            forall|k: int| trim_end_index(v@) <= k < v@.len() ==> is_ws(#[trigger] v@[k]),
            trim_end_index(v@) > 0 ==> !is_ws(v@[trim_end_index(v@) - 1]),
        decreases j,
    {
        j = j - 1;
    }
    j
}

/// `str::trim` on a character vector.
pub fn trim_chars(v: &[char]) -> (r: Vec<char>)
    ensures
        r@ == trim(v@),
{
    let lo = trim_start_pos(v);
    let hi = trim_end_pos(v);
    proof {
        lemma_trim_start_bounds(v@);
        lemma_trim_end_bounds(v@);
    }
    let mut r: Vec<char> = Vec::new();
    if lo < hi {
        let mut i = lo;
        while i < hi
            invariant
                lo <= i <= hi <= v@.len(),
                r@ == v@.subrange(lo as int, i as int),
            decreases hi - i,
        {
            r.push(v[i]);
            i = i + 1;
            assert(r@ =~= v@.subrange(lo as int, i as int));
        }
    }
    r
}

// ---------------------------------------------------------------------
// Searching
// ---------------------------------------------------------------------

/// Whether `needle` occurs in `hay` starting at position `at`.
pub open spec fn occurs_at(hay: Seq<char>, needle: Seq<char>, at: int) -> bool {
    0 <= at && at + needle.len() <= hay.len() && hay.subrange(at, at + needle.len()) == needle
}

/// Whether `needle` occurs anywhere in `hay` (`str::contains`).
pub open spec fn contains_seq(hay: Seq<char>, needle: Seq<char>) -> bool {
    exists|at: int| occurs_at(hay, needle, at)
}

/// Position of the last occurrence of `c` in `s`, if any (`str::rfind`).
pub open spec fn last_index_of(s: Seq<char>, c: char) -> Option<int>
    decreases s.len(),
{
    if s.len() == 0 {
        None
    } else if s.last() == c {
        Some(s.len() - 1)
    } else {
        last_index_of(s.drop_last(), c)
    }
}

/// Position of the first occurrence of `c` in `s`, if any (`str::find`).
pub open spec fn first_index_of(s: Seq<char>, c: char) -> Option<int>
    decreases s.len(),
{
    if s.len() == 0 {
        None
    } else if s[0] == c {
        Some(0)
    } else {
        match first_index_of(s.drop_first(), c) {
            Some(i) => Some(i + 1),
            None => None,
        }
    }
}

pub proof fn lemma_last_index_of(s: Seq<char>, c: char)
    ensures
        match last_index_of(s, c) {
            Some(i) => 0 <= i < s.len() && s[i] == c && forall|k: int| i < k < s.len() ==> s[k] != c,
            None => forall|k: int| 0 <= k < s.len() ==> s[k] != c,
        },
    decreases s.len(),
{
    if s.len() > 0 && s.last() != c {
        lemma_last_index_of(s.drop_last(), c);
        match last_index_of(s, c) {
            Some(i) => {
                assert forall|k: int| i < k < s.len() implies s[k] != c by {
                    if k < s.len() - 1 {
                        assert(s[k] == s.drop_last()[k]);
                    }
                }
            }
            None => {
                assert forall|k: int| 0 <= k < s.len() implies s[k] != c by {
                    if k < s.len() - 1 {
                        assert(s[k] == s.drop_last()[k]);
                    }
                }
            }
        }
    }
}

pub proof fn lemma_first_index_of(s: Seq<char>, c: char)
    ensures
        match first_index_of(s, c) {
            Some(i) => 0 <= i < s.len() && s[i] == c && forall|k: int| 0 <= k < i ==> s[k] != c,
            None => forall|k: int| 0 <= k < s.len() ==> s[k] != c,
        },
    decreases s.len(),
{
    if s.len() > 0 && s[0] != c {
        lemma_first_index_of(s.drop_first(), c);
        match first_index_of(s, c) {
            Some(i) => {
                assert forall|k: int| 0 <= k < i implies s[k] != c by {
                    if k > 0 {
                        assert(s[k] == s.drop_first()[k - 1]);
                    }
                }
            }
            None => {
                assert forall|k: int| 0 <= k < s.len() implies s[k] != c by {
                    if k > 0 {
                        assert(s[k] == s.drop_first()[k - 1]);
                    }
                }
            }
        }
    }
}

/// The spec index is determined by the characterising property.
pub proof fn lemma_last_index_of_unique(s: Seq<char>, c: char, i: int)
    requires
        0 <= i < s.len(),
        s[i] == c,
        forall|k: int| i < k < s.len() ==> s[k] != c,
    ensures
        last_index_of(s, c) == Some(i),
{
    lemma_last_index_of(s, c);
    match last_index_of(s, c) {
        Some(j) => {
            if j < i {
            } else if j > i {
            }
        }
        None => {}
    }
}

pub proof fn lemma_first_index_of_unique(s: Seq<char>, c: char, i: int)
    requires
        0 <= i < s.len(),
        s[i] == c,
        forall|k: int| 0 <= k < i ==> s[k] != c,
    ensures
        first_index_of(s, c) == Some(i),
{
    lemma_first_index_of(s, c);
}

pub fn find_last(v: &[char], c: char) -> (r: Option<usize>)
    ensures
        match r {
            Some(i) => last_index_of(v@, c) == Some(i as int),
            None => last_index_of(v@, c) is None,
        },
{
    proof { lemma_last_index_of(v@, c); }
    let mut j: usize = v.len();
    while j > 0
        invariant
            j <= v@.len(),
            forall|k: int| j <= k < v@.len() ==> v@[k] != c,
        decreases j,
    {
        if v[j - 1] == c {
            proof { lemma_last_index_of_unique(v@, c, j - 1); }
            return Some(j - 1);
        }
        j = j - 1;
    }
    None
}

pub fn find_first(v: &[char], c: char) -> (r: Option<usize>)
    ensures
        match r {
            Some(i) => first_index_of(v@, c) == Some(i as int),
            None => first_index_of(v@, c) is None,
        },
{
    proof { lemma_first_index_of(v@, c); }
    let mut i: usize = 0;
    while i < v.len()
        invariant
            i <= v@.len(),
            forall|k: int| 0 <= k < i ==> v@[k] != c,
        decreases v@.len() - i,
    {
        if v[i] == c {
            proof { lemma_first_index_of_unique(v@, c, i as int); }
            return Some(i);
        }
        i = i + 1;
    }
    None
}

/// `hay[at..]` begins with `needle`.
pub fn occurs_at_exec(hay: &[char], needle: &[char], at: usize) -> (r: bool)
    ensures
        r == occurs_at(hay@, needle@, at as int),
{
    if at > hay.len() || needle.len() > hay.len() - at {
        return false;
    }
    let mut k: usize = 0;
    while k < needle.len()
        invariant
            at + needle@.len() <= hay@.len(),
            k <= needle@.len(),
            forall|j: int| 0 <= j < k ==> hay@[at + j] == needle@[j],
        decreases needle@.len() - k,
    {
        assert(at + k < hay.len());
        if hay[at + k] != needle[k] {
            assert(hay@.subrange(at as int, at + needle@.len())[k as int] != needle@[k as int]);
            return false;
        }
        k = k + 1;
    }
    assert(hay@.subrange(at as int, at + needle@.len()) =~= needle@);
    true
}

/// `str::contains` on character vectors.
pub fn contains_chars(hay: &[char], needle: &[char]) -> (r: bool)
    ensures
        r == contains_seq(hay@, needle@),
{
    let mut at: usize = 0;
    while at < hay.len()
        invariant
            at <= hay@.len(),
            forall|j: int| 0 <= j < at ==> !occurs_at(hay@, needle@, j),
        decreases hay@.len() - at,
    {
        if occurs_at_exec(hay, needle, at) {
            return true;
        }
        at = at + 1;
    }
    if occurs_at_exec(hay, needle, at) {
        return true;
    }
    assert forall|j: int| !occurs_at(hay@, needle@, j) by {
        if 0 <= j && j + needle@.len() <= hay@.len() {
            assert(j <= at);
        }
    }
    false
}

/// `s` starts with `p`.
pub open spec fn starts_with(s: Seq<char>, p: Seq<char>) -> bool {
    p.len() <= s.len() && s.subrange(0, p.len() as int) == p
}

/// `str::starts_with`.
pub fn has_prefix(s: &str, p: &str) -> (r: bool)
    ensures
        r == starts_with(s@, p@),
{
    let sv = str_chars(s);
    let pv = str_chars(p);
    occurs_at_exec(sv.as_slice(), pv.as_slice(), 0)
}

// ---------------------------------------------------------------------
// Number rendering
// ---------------------------------------------------------------------

pub open spec fn digit_char(d: nat) -> char
    recommends
        d < 10,
{
    (('0' as u32) + d) as char
}

/// Decimal rendering of a natural number (`format!("{n}")`).
pub open spec fn decimal(n: nat) -> Seq<char>
    decreases n,
{
    if n < 10 {
        seq![digit_char(n)]
    } else {
        decimal(n / 10).push(digit_char(n % 10))
    }
}

pub fn digit(d: u64) -> (c: char)
    requires
        d < 10,
    ensures
        c == digit_char(d as nat),
{
    let u: u8 = 48 + (d as u8);
    u as char
}

/// Appends the decimal rendering of `n`.
pub fn push_decimal(out: &mut String, n: u64)
    ensures
        final(out)@ == old(out)@ + decimal(n as nat),
    decreases n,
{
    if n < 10 {
        push_char(out, digit(n));
        assert(decimal(n as nat) =~= seq![digit_char(n as nat)]);
    } else {
        push_decimal(out, n / 10);
        push_char(out, digit(n % 10));
    }
}

pub open spec fn hex_digit(d: nat) -> char
    recommends
        d < 16,
{
    if d < 10 {
        digit_char(d)
    } else {
        (('a' as u32) + (d - 10)) as char
    }
}

/// Two lowercase hex digits of one byte (`format!("{b:02x}")`).
pub open spec fn hex_byte(b: u8) -> Seq<char> {
    seq![hex_digit((b / 16) as nat), hex_digit((b % 16) as nat)]
}

/// Lowercase hex of a byte sequence, two digits per byte.
pub open spec fn hex_bytes(bytes: Seq<u8>) -> Seq<char>
    decreases bytes.len(),
{
    if bytes.len() == 0 {
        Seq::empty()
    } else {
        hex_bytes(bytes.drop_last()) + hex_byte(bytes.last())
    }
}

pub open spec fn is_lower_hex_char(c: char) -> bool {
    ('0' <= c && c <= '9') || ('a' <= c && c <= 'f')
}

pub fn hex_digit_exec(d: u8) -> (c: char)
    requires
        d < 16,
    ensures
        c == hex_digit(d as nat),
{
    if d < 10 {
        digit(d as u64)
    } else {
        let u: u8 = 97 + (d - 10);
        u as char
    }
}

pub proof fn lemma_hex_bytes_len(bytes: Seq<u8>)
    ensures
        hex_bytes(bytes).len() == 2 * bytes.len(),
        forall|k: int| 0 <= k < hex_bytes(bytes).len() ==> is_lower_hex_char(#[trigger] hex_bytes(bytes)[k]),
    decreases bytes.len(),
{
    if bytes.len() > 0 {
        lemma_hex_bytes_len(bytes.drop_last());
        let b = bytes.last();
        assert(b / 16 < 16);
        assert(is_lower_hex_char(hex_digit((b / 16) as nat)));
        assert(is_lower_hex_char(hex_digit((b % 16) as nat)));
        let prev = hex_bytes(bytes.drop_last());
        assert forall|k: int| 0 <= k < hex_bytes(bytes).len() implies is_lower_hex_char(#[trigger] hex_bytes(bytes)[k]) by {
            if k < prev.len() {
                assert(hex_bytes(bytes)[k] == prev[k]);
            }
        }
    }
}

/// Lowercase hex encoding of `bytes`.
pub fn to_hex(bytes: &[u8]) -> (s: String)
    ensures
        s@ == hex_bytes(bytes@),
{
    let mut s = String::new();
    let mut i: usize = 0;
    while i < bytes.len()
        invariant
            i <= bytes@.len(),
            s@ == hex_bytes(bytes@.take(i as int)),
        decreases bytes@.len() - i,
    {
        let b = bytes[i];
        push_char(&mut s, hex_digit_exec(b / 16));
        push_char(&mut s, hex_digit_exec(b % 16));
        proof {
            assert(bytes@.take(i + 1).drop_last() =~= bytes@.take(i as int));
        }
        i = i + 1;
        assert(s@ =~= hex_bytes(bytes@.take(i as int)));
    }
    assert(bytes@.take(bytes@.len() as int) =~= bytes@);
    s
}

} // verus!

verus! {

/// `parts` joined with `sep` between consecutive elements (`[T]::join`).
pub open spec fn join(parts: Seq<Seq<char>>, sep: Seq<char>) -> Seq<char>
    decreases parts.len(),
{
    if parts.len() == 0 {
        Seq::empty()
    } else if parts.len() == 1 {
        parts[0]
    } else {
        join(parts.drop_last(), sep) + sep + parts.last()
    }
}

pub proof fn lemma_join_step(parts: Seq<Seq<char>>, sep: Seq<char>, i: int)
    requires
        0 <= i < parts.len(),
    ensures
        join(parts.take(i + 1), sep) == if i == 0 {
            parts[0]
        } else {
            join(parts.take(i), sep) + sep + parts[i]
        },
{
    assert(parts.take(i + 1).drop_last() =~= parts.take(i));
    if i == 0 {
        assert(parts.take(1).len() == 1);
    }
}

/// Appends the views of `parts` joined by `sep`.
pub fn push_joined(out: &mut String, parts: &Vec<&str>, sep: &str)
    ensures
        final(out)@ == old(out)@ + join(parts@.map_values(|p: &str| p@), sep@),
{
    let ghost views = parts@.map_values(|p: &str| p@);
    let mut i: usize = 0;
    while i < parts.len()
        invariant
            i <= parts@.len(),
            views == parts@.map_values(|p: &str| p@),
            out@ == old(out)@ + join(views.take(i as int), sep@),
        decreases parts@.len() - i,
    {
        proof {
            lemma_join_step(views, sep@, i as int);
        }
        if i > 0 {
            push_str(out, sep);
        }
        push_str(out, parts[i]);
        i = i + 1;
    }
    assert(views.take(parts@.len() as int) =~= views);
}

} // verus!

verus! {

/// `f` applied to every element of `s`, results concatenated in order.
pub open spec fn concat_map<T>(s: Seq<T>, f: spec_fn(T) -> Seq<char>) -> Seq<char>
    decreases s.len(),
{
    if s.len() == 0 {
        Seq::empty()
    } else {
        concat_map(s.drop_last(), f) + f(s.last())
    }
}

pub proof fn lemma_concat_map_step<T>(s: Seq<T>, i: int, f: spec_fn(T) -> Seq<char>)
    requires
        0 <= i < s.len(),
    ensures
        concat_map(s.take(i + 1), f) == concat_map(s.take(i), f) + f(s[i]),
{
    assert(s.take(i + 1).drop_last() =~= s.take(i));
}

/// `f` applied to every element of `s`, results concatenated in order.
pub open spec fn flat_map<T, U>(s: Seq<T>, f: spec_fn(T) -> Seq<U>) -> Seq<U>
    decreases s.len(),
{
    if s.len() == 0 {
        Seq::empty()
    } else {
        flat_map(s.drop_last(), f) + f(s.last())
    }
}

pub proof fn lemma_flat_map_step<T, U>(s: Seq<T>, i: int, f: spec_fn(T) -> Seq<U>)
    requires
        0 <= i < s.len(),
    ensures
        flat_map(s.take(i + 1), f) == flat_map(s.take(i), f) + f(s[i]),
{
    assert(s.take(i + 1).drop_last() =~= s.take(i));
}

/// `f(0) + f(1) + ... + f(n - 1)`.
pub open spec fn flat_map_upto<U>(n: nat, f: spec_fn(int) -> Seq<U>) -> Seq<U>
    decreases n,
{
    if n == 0 {
        Seq::empty()
    } else {
        flat_map_upto((n - 1) as nat, f) + f(n - 1)
    }
}

/// `d` extended, in order, by every element of `s` not already present
/// (first occurrence wins).
pub open spec fn add_distinct<T>(d: Seq<T>, s: Seq<T>) -> Seq<T>
    decreases s.len(),
{
    if s.len() == 0 {
        d
    } else {
        let d2 = add_distinct(d, s.drop_last());
        if d2.contains(s.last()) {
            d2
        } else {
            d2.push(s.last())
        }
    }
}

pub proof fn lemma_add_distinct_step<T>(d: Seq<T>, s: Seq<T>, i: int)
    requires
        0 <= i < s.len(),
    ensures
        add_distinct(d, s.take(i + 1)) == {
            let d2 = add_distinct(d, s.take(i));
            if d2.contains(s[i]) {
                d2
            } else {
                d2.push(s[i])
            }
        },
{
    assert(s.take(i + 1).drop_last() =~= s.take(i));
}

pub proof fn lemma_add_distinct_concat<T>(d: Seq<T>, x: Seq<T>, y: Seq<T>)
    ensures
        add_distinct(d, x + y) == add_distinct(add_distinct(d, x), y),
    decreases y.len(),
{
    if y.len() == 0 {
        assert(x + y =~= x);
    } else {
        lemma_add_distinct_concat(d, x, y.drop_last());
        assert((x + y).drop_last() =~= x + y.drop_last());
    }
}

/// Every element of `add_distinct(d, s)` is unique if `d`'s are.
pub proof fn lemma_add_distinct_unique<T>(d: Seq<T>, s: Seq<T>)
    requires
        d.no_duplicates(),
    ensures
        add_distinct(d, s).no_duplicates(),
        forall|x: T| #[trigger] add_distinct(d, s).contains(x) <==> (d.contains(x) || s.contains(x)),
    decreases s.len(),
{
    if s.len() > 0 {
        lemma_add_distinct_unique(d, s.drop_last());
        let d2 = add_distinct(d, s.drop_last());
        assert forall|x: T| #[trigger] add_distinct(d, s).contains(x) <==> (d.contains(x) || s.contains(x)) by {
            if s.contains(x) && !s.drop_last().contains(x) {
                let k = choose|k: int| 0 <= k < s.len() && s[k] == x;
                if k < s.len() - 1 {
                    assert(s.drop_last()[k] == x);
                }
                assert(x == s.last());
            }
            if s.drop_last().contains(x) {
                let k = choose|k: int| 0 <= k < s.drop_last().len() && s.drop_last()[k] == x;
                assert(s[k] == x);
            }
            if !d2.contains(s.last()) {
                if x == s.last() {
                    assert(d2.push(s.last())[d2.len() as int] == x);
                }
                if d2.push(s.last()).contains(x) && !d2.contains(x) {
                    let j = choose|j: int| 0 <= j < d2.push(s.last()).len() && d2.push(s.last())[j] == x;
                    if j < d2.len() {
                        assert(d2[j] == x);
                    }
                }
                if d2.contains(x) {
                    let j = choose|j: int| 0 <= j < d2.len() && d2[j] == x;
                    assert(d2.push(s.last())[j] == x);
                }
            }
        }
        if !d2.contains(s.last()) {
            assert(d2.push(s.last()).no_duplicates()) by {
                assert forall|i: int, j: int| 0 <= i < j < d2.push(s.last()).len() implies d2.push(s.last())[i] != d2.push(s.last())[j] by {
                    if j == d2.len() {
                        assert(d2[i] == d2.push(s.last())[i]);
                    }
                }
            }
        }
    }
}

} // verus!

verus! {

/// Position of the first occurrence of `x` in `s`, or `-1`.
pub open spec fn first_pos<T>(s: Seq<T>, x: T) -> int
    decreases s.len(),
{
    if s.len() == 0 {
        -1
    } else if s[0] == x {
        0
    } else {
        let p = first_pos(s.drop_first(), x);
        if p < 0 {
            -1
        } else {
            p + 1
        }
    }
}

pub proof fn lemma_first_pos<T>(s: Seq<T>, x: T)
    ensures
        first_pos(s, x) >= 0 <==> s.contains(x),
        first_pos(s, x) >= 0 ==> first_pos(s, x) < s.len() && s[first_pos(s, x)] == x
            && forall|k: int| 0 <= k < first_pos(s, x) ==> s[k] != x,
    decreases s.len(),
{
    if s.len() > 0 && s[0] != x {
        lemma_first_pos(s.drop_first(), x);
        if s.contains(x) {
            let k = choose|k: int| 0 <= k < s.len() && s[k] == x;
            assert(k > 0);
            assert(s.drop_first()[k - 1] == x);
        }
        if s.drop_first().contains(x) {
            let k = choose|k: int| 0 <= k < s.drop_first().len() && s.drop_first()[k] == x;
            assert(s[k + 1] == x);
        }
        let p = first_pos(s, x);
        if p >= 0 {
            assert forall|k: int| 0 <= k < p implies s[k] != x by {
                if k > 0 {
                    assert(s[k] == s.drop_first()[k - 1]);
                }
            }
        }
    } else if s.len() > 0 {
        assert(s[0] == x);
        assert(s.contains(x));
    }
}

pub proof fn lemma_first_pos_unique<T>(s: Seq<T>, x: T, i: int)
    requires
        0 <= i < s.len(),
        s[i] == x,
        forall|k: int| 0 <= k < i ==> s[k] != x,
    ensures
        first_pos(s, x) == i,
{
    lemma_first_pos(s, x);
    assert(s.contains(x));
}

} // verus!

verus! {

/// Lowercase hexadecimal rendering of a natural number, no leading zeros
/// (`format!("{n:x}")`).
pub open spec fn hex_nat(n: nat) -> Seq<char>
    decreases n,
{
    if n < 16 {
        seq![hex_digit(n)]
    } else {
        hex_nat(n / 16).push(hex_digit(n % 16))
    }
}

pub fn push_hex_u32(out: &mut String, n: u32)
    ensures
        final(out)@ == old(out)@ + hex_nat(n as nat),
    decreases n,
{
    if n < 16 {
        push_char(out, hex_digit_exec(n as u8));
        assert(hex_nat(n as nat) =~= seq![hex_digit(n as nat)]);
    } else {
        push_hex_u32(out, n / 16);
        push_char(out, hex_digit_exec((n % 16) as u8));
    }
}

/// `char::escape_default` of one character: `\t`, `\r`, `\n`, `\'`, `\"`,
/// `\\`; printable ASCII kept; everything else as `\u{hex}`.
pub open spec fn escape_default_char(c: char) -> Seq<char> {
    if c == '\t' {
        seq!['\\', 't']
    } else if c == '\r' {
        seq!['\\', 'r']
    } else if c == '\n' {
        seq!['\\', 'n']
    } else if c == '\'' {
        seq!['\\', '\'']
    } else if c == '"' {
        seq!['\\', '"']
    } else if c == '\\' {
        seq!['\\', '\\']
    } else if ' ' <= c && c <= '~' {
        seq![c]
    } else {
        seq!['\\', 'u', '{'] + hex_nat((c as u32) as nat) + seq!['}']
    }
}

/// Appends `escape_default_char` of each character of `v` (`str::escape_default`).
pub fn push_escape_default(out: &mut String, v: &[char])
    ensures
        final(out)@ == old(out)@ + map_chars(v@, |c: char| escape_default_char(c)),
{
    let ghost f = |c: char| escape_default_char(c);
    let mut i: usize = 0;
    while i < v.len()
        invariant
            i <= v@.len(),
            f == (|c: char| escape_default_char(c)),
            out@ == old(out)@ + map_chars(v@.take(i as int), f),
        decreases v@.len() - i,
    {
        let c = v[i];
        proof {
            lemma_map_chars_step(v@, i as int, f);
        }
        if c == '\t' {
            push_char(out, '\\');
            push_char(out, 't');
        } else if c == '\r' {
            push_char(out, '\\');
            push_char(out, 'r');
        } else if c == '\n' {
            push_char(out, '\\');
            push_char(out, 'n');
        } else if c == '\'' {
            push_char(out, '\\');
            push_char(out, '\'');
        } else if c == '"' {
            push_char(out, '\\');
            push_char(out, '"');
        } else if c == '\\' {
            push_char(out, '\\');
            push_char(out, '\\');
        } else if ' ' <= c && c <= '~' {
            push_char(out, c);
        } else {
            push_char(out, '\\');
            push_char(out, 'u');
            push_char(out, '{');
            push_hex_u32(out, c as u32);
            push_char(out, '}');
        }
        assert(out@ =~= old(out)@ + map_chars(v@.take(i + 1), f));
        i = i + 1;
    }
    assert(v@.take(v@.len() as int) =~= v@);
}

/// `s` split at every `c` (`str::split`): always at least one piece.
pub open spec fn split_on(s: Seq<char>, c: char) -> Seq<Seq<char>>
    decreases s.len(),
{
    if s.len() == 0 {
        seq![Seq::empty()]
    } else {
        let prev = split_on(s.drop_last(), c);
        if s.last() == c {
            prev.push(Seq::empty())
        } else {
            prev.update(prev.len() - 1, prev.last().push(s.last()))
        }
    }
}

pub proof fn lemma_split_on_nonempty(s: Seq<char>, c: char)
    ensures
        split_on(s, c).len() >= 1,
    decreases s.len(),
{
    if s.len() > 0 {
        lemma_split_on_nonempty(s.drop_last(), c);
    }
}

/// One trailing `\r` removed.
pub open spec fn strip_cr(line: Seq<char>) -> Seq<char> {
    if line.len() > 0 && line.last() == '\r' {
        line.drop_last()
    } else {
        line
    }
}

/// `str::lines`: split at `\n`; every piece that a `\n` ended loses one
/// trailing `\r`; a final empty piece is dropped, a final non-empty piece
/// (no line ending after it) is kept as it is.
pub open spec fn lines(s: Seq<char>) -> Seq<Seq<char>> {
    let pieces = split_on(s, '\n');
    let ended = pieces.drop_last().map_values(|l: Seq<char>| strip_cr(l));
    if pieces.last().len() == 0 {
        ended
    } else {
        ended.push(pieces.last())
    }
}

/// The lines of `v`, as character vectors.
pub fn split_lines(v: &[char]) -> (r: Vec<Vec<char>>)
    ensures
        r@.map_values(|l: Vec<char>| l@) == lines(v@),
{
    let mut pieces: Vec<Vec<char>> = Vec::new();
    pieces.push(Vec::new());
    let mut i: usize = 0;
    while i < v.len()
        invariant
            i <= v@.len(),
            pieces@.len() >= 1,
            pieces@.map_values(|l: Vec<char>| l@) == split_on(v@.take(i as int), '\n'),
        decreases v@.len() - i,
    {
        let c = v[i];
        let ghost prev = pieces@.map_values(|l: Vec<char>| l@);
        assert(v@.take(i + 1).drop_last() =~= v@.take(i as int));
        if c == '\n' {
            pieces.push(Vec::new());
            assert(pieces@.map_values(|l: Vec<char>| l@) =~= prev.push(Seq::<char>::empty()));
        } else {
            let mut cur = pieces.pop().unwrap();
            cur.push(c);
            pieces.push(cur);
            assert(pieces@.map_values(|l: Vec<char>| l@) =~= prev.update(prev.len() - 1, prev.last().push(c)));
        }
        i = i + 1;
    }
    assert(v@.take(v@.len() as int) =~= v@);
    let ghost pv = pieces@.map_values(|l: Vec<char>| l@);
    let tail = pieces.pop().unwrap();
    assert(pieces@.map_values(|l: Vec<char>| l@) =~= pv.drop_last());
    let ghost kept = pieces@.map_values(|l: Vec<char>| l@);
    let mut out: Vec<Vec<char>> = Vec::new();
    let mut k: usize = 0;
    while k < pieces.len()
        invariant
            k <= pieces@.len(),
            kept == pieces@.map_values(|l: Vec<char>| l@),
            out@.len() == k,
            forall|j: int| 0 <= j < k ==> (#[trigger] out@[j])@ == strip_cr(kept[j]),
        decreases pieces@.len() - k,
    {
        let mut line = pieces[k].clone();
        if line.len() > 0 && line[line.len() - 1] == '\r' {
            line.pop();
        }
        assert(line@ =~= strip_cr(kept[k as int]));
        out.push(line);
        k = k + 1;
    }
    let ghost ended = out@.map_values(|l: Vec<char>| l@);
    assert(ended =~= pv.drop_last().map_values(|l: Seq<char>| strip_cr(l)));
    if tail.len() > 0 {
        out.push(tail);
        assert(out@.map_values(|l: Vec<char>| l@) =~= ended.push(pv.last()));
    }
    out
}

} // verus!
