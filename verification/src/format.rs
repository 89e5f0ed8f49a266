//! The Kroki-family diagram formats the render loop accepts.
//!
//! Only formats a stock Kroki container renders with no headless-browser
//! companion are listed (`mermaid`, `bpmn`, `excalidraw`, `diagramsnet` are
//! deliberately absent: a companion-free Kroki answers them with `503`).
//! The set is closed: a `DiagramFormat` is one of the listed formats, and
//! text only becomes one through [`DiagramFormat::parse_slug`] /
//! [`std::str::FromStr`].
use vstd::prelude::*;

use crate::text::{ascii_lower, chars_eq, is_ws, join, push_joined, push_str, str_chars, to_ascii_lower, trim, trim_chars, trim_end_index, trim_start_index};

verus! {

/// A diagram source language the render loop can hand to a Kroki backend.
#[derive(Debug, Clone, Copy, PartialEq, Eq, Hash, Structural)]
pub enum DiagramFormat {
    PlantUml,
    C4PlantUml,
    GraphViz,
    D2,
    VegaLite,
    Ditaa,
    Nomnoml,
    WaveDrom,
    Vega,
    BlockDiag,
    ActDiag,
    SeqDiag,
    NwDiag,
    PacketDiag,
    RackDiag,
    Erd,
    Umlet,
    Pikchr,
    Goat,
    ByteField,
    Dbml,
    TikZ,
    SvgBob,
    WireViz,
    Structurizr,
    Symbolator,
}

/// Number of supported formats.
pub const FORMAT_COUNT: usize = 26;

/// The Kroki path segment of each format: `POST {base}/{slug}/{output}`.
pub open spec fn slug_of(f: DiagramFormat) -> Seq<char> {
    match f {
        DiagramFormat::PlantUml => "plantuml"@,
        DiagramFormat::C4PlantUml => "c4plantuml"@,
        DiagramFormat::GraphViz => "graphviz"@,
        DiagramFormat::D2 => "d2"@,
        DiagramFormat::VegaLite => "vegalite"@,
        DiagramFormat::Ditaa => "ditaa"@,
        DiagramFormat::Nomnoml => "nomnoml"@,
        DiagramFormat::WaveDrom => "wavedrom"@,
        DiagramFormat::Vega => "vega"@,
        DiagramFormat::BlockDiag => "blockdiag"@,
        DiagramFormat::ActDiag => "actdiag"@,
        DiagramFormat::SeqDiag => "seqdiag"@,
        DiagramFormat::NwDiag => "nwdiag"@,
        DiagramFormat::PacketDiag => "packetdiag"@,
        DiagramFormat::RackDiag => "rackdiag"@,
        DiagramFormat::Erd => "erd"@,
        DiagramFormat::Umlet => "umlet"@,
        DiagramFormat::Pikchr => "pikchr"@,
        DiagramFormat::Goat => "goat"@,
        DiagramFormat::ByteField => "bytefield"@,
        DiagramFormat::Dbml => "dbml"@,
        DiagramFormat::TikZ => "tikz"@,
        DiagramFormat::SvgBob => "svgbob"@,
        DiagramFormat::WireViz => "wireviz"@,
        DiagramFormat::Structurizr => "structurizr"@,
        DiagramFormat::Symbolator => "symbolator"@,
    }
}

/// The enumeration order of [`DiagramFormat::ALL`].
pub open spec fn format_at(i: int) -> DiagramFormat {
    if i == 0 { DiagramFormat::PlantUml }
    else if i == 1 { DiagramFormat::C4PlantUml }
    else if i == 2 { DiagramFormat::GraphViz }
    else if i == 3 { DiagramFormat::D2 }
    else if i == 4 { DiagramFormat::VegaLite }
    else if i == 5 { DiagramFormat::Ditaa }
    else if i == 6 { DiagramFormat::Nomnoml }
    else if i == 7 { DiagramFormat::WaveDrom }
    else if i == 8 { DiagramFormat::Vega }
    else if i == 9 { DiagramFormat::BlockDiag }
    else if i == 10 { DiagramFormat::ActDiag }
    else if i == 11 { DiagramFormat::SeqDiag }
    else if i == 12 { DiagramFormat::NwDiag }
    else if i == 13 { DiagramFormat::PacketDiag }
    else if i == 14 { DiagramFormat::RackDiag }
    else if i == 15 { DiagramFormat::Erd }
    else if i == 16 { DiagramFormat::Umlet }
    else if i == 17 { DiagramFormat::Pikchr }
    else if i == 18 { DiagramFormat::Goat }
    else if i == 19 { DiagramFormat::ByteField }
    else if i == 20 { DiagramFormat::Dbml }
    else if i == 21 { DiagramFormat::TikZ }
    else if i == 22 { DiagramFormat::SvgBob }
    else if i == 23 { DiagramFormat::WireViz }
    else if i == 24 { DiagramFormat::Structurizr }
    else { DiagramFormat::Symbolator }
}

/// Position of a format in the enumeration order.
pub open spec fn format_index(f: DiagramFormat) -> int {
    match f {
        DiagramFormat::PlantUml => 0,
        DiagramFormat::C4PlantUml => 1,
        DiagramFormat::GraphViz => 2,
        DiagramFormat::D2 => 3,
        DiagramFormat::VegaLite => 4,
        DiagramFormat::Ditaa => 5,
        DiagramFormat::Nomnoml => 6,
        DiagramFormat::WaveDrom => 7,
        DiagramFormat::Vega => 8,
        DiagramFormat::BlockDiag => 9,
        DiagramFormat::ActDiag => 10,
        DiagramFormat::SeqDiag => 11,
        DiagramFormat::NwDiag => 12,
        DiagramFormat::PacketDiag => 13,
        DiagramFormat::RackDiag => 14,
        DiagramFormat::Erd => 15,
        DiagramFormat::Umlet => 16,
        DiagramFormat::Pikchr => 17,
        DiagramFormat::Goat => 18,
        DiagramFormat::ByteField => 19,
        DiagramFormat::Dbml => 20,
        DiagramFormat::TikZ => 21,
        DiagramFormat::SvgBob => 22,
        DiagramFormat::WireViz => 23,
        DiagramFormat::Structurizr => 24,
        DiagramFormat::Symbolator => 25,
    }
}

/// Every format occupies exactly one position of the enumeration.
pub proof fn lemma_format_index(f: DiagramFormat)
    ensures
        0 <= format_index(f) < 26,
        format_at(format_index(f)) == f,
{
}

/// The normalised form `FromStr` matches slugs against: trimmed, ASCII
/// lower-cased.
pub open spec fn normalize_format_name(s: Seq<char>) -> Seq<char> {
    ascii_lower(trim(s))
}

/// The format a name denotes, if any.
pub open spec fn parse_format_spec(s: Seq<char>) -> Option<DiagramFormat> {
    if exists|f: DiagramFormat| slug_of(f) == normalize_format_name(s) {
        Some(choose|f: DiagramFormat| slug_of(f) == normalize_format_name(s))
    } else {
        None
    }
}

/// Every `DiagramFormat` variant, in declaration order.
pub fn all_formats() -> (v: Vec<DiagramFormat>)
    ensures
        v@.len() == 26,
        forall|i: int| 0 <= i < 26 ==> v@[i] == format_at(i),
{
    vec![
        DiagramFormat::PlantUml,
        DiagramFormat::C4PlantUml,
        DiagramFormat::GraphViz,
        DiagramFormat::D2,
        DiagramFormat::VegaLite,
        DiagramFormat::Ditaa,
        DiagramFormat::Nomnoml,
        DiagramFormat::WaveDrom,
        DiagramFormat::Vega,
        DiagramFormat::BlockDiag,
        DiagramFormat::ActDiag,
        DiagramFormat::SeqDiag,
        DiagramFormat::NwDiag,
        DiagramFormat::PacketDiag,
        DiagramFormat::RackDiag,
        DiagramFormat::Erd,
        DiagramFormat::Umlet,
        DiagramFormat::Pikchr,
        DiagramFormat::Goat,
        DiagramFormat::ByteField,
        DiagramFormat::Dbml,
        DiagramFormat::TikZ,
        DiagramFormat::SvgBob,
        DiagramFormat::WireViz,
        DiagramFormat::Structurizr,
        DiagramFormat::Symbolator,
    ]
}

impl DiagramFormat {
    /// The path segment Kroki's HTTP API expects: `POST {base}/{slug}/{output}`.
    pub fn kroki_slug(self) -> (r: &'static str)
        ensures
            r@ == slug_of(self),
    {
        match self {
            DiagramFormat::PlantUml => "plantuml",
            DiagramFormat::C4PlantUml => "c4plantuml",
            DiagramFormat::GraphViz => "graphviz",
            DiagramFormat::D2 => "d2",
            DiagramFormat::VegaLite => "vegalite",
            DiagramFormat::Ditaa => "ditaa",
            DiagramFormat::Nomnoml => "nomnoml",
            DiagramFormat::WaveDrom => "wavedrom",
            DiagramFormat::Vega => "vega",
            DiagramFormat::BlockDiag => "blockdiag",
            DiagramFormat::ActDiag => "actdiag",
            DiagramFormat::SeqDiag => "seqdiag",
            DiagramFormat::NwDiag => "nwdiag",
            DiagramFormat::PacketDiag => "packetdiag",
            DiagramFormat::RackDiag => "rackdiag",
            DiagramFormat::Erd => "erd",
            DiagramFormat::Umlet => "umlet",
            DiagramFormat::Pikchr => "pikchr",
            DiagramFormat::Goat => "goat",
            DiagramFormat::ByteField => "bytefield",
            DiagramFormat::Dbml => "dbml",
            DiagramFormat::TikZ => "tikz",
            DiagramFormat::SvgBob => "svgbob",
            DiagramFormat::WireViz => "wireviz",
            DiagramFormat::Structurizr => "structurizr",
            DiagramFormat::Symbolator => "symbolator",
        }
    }

    /// Parse a format name: surrounding whitespace is ignored and matching is
    /// ASCII case-insensitive. Unknown and companion-only names are rejected
    /// with the name as it was given.
    pub fn parse_slug(s: &str) -> (r: Result<DiagramFormat, UnsupportedFormat>)
        ensures
            match r {
                Ok(f) => parse_format_spec(s@) == Some(f),
                Err(e) => parse_format_spec(s@) is None && e.0@ == s@,
            },
    {
        let raw = str_chars(s);
        let trimmed = trim_chars(raw.as_slice());
        let norm = to_ascii_lower(trimmed.as_slice());
        let all = all_formats();
        let mut i: usize = 0;
        while i < all.len()
            invariant
                all@.len() == 26,
                forall|k: int| 0 <= k < 26 ==> all@[k] == format_at(k),
                i <= 26,
                norm@ == normalize_format_name(s@),
                forall|k: int| 0 <= k < i ==> slug_of(format_at(k)) != norm@,
            decreases 26 - i,
        {
            let f = all[i];
            let slug = str_chars(f.kroki_slug());
            if chars_eq(slug.as_slice(), norm.as_slice()) {
                proof {
                    lemma_slugs_distinct();
                }
                return Ok(f);
            }
            i = i + 1;
        }
        proof {
            assert forall|f: DiagramFormat| slug_of(f) != normalize_format_name(s@) by {
                lemma_format_index(f);
            }
        }
        Err(UnsupportedFormat(s.to_owned()))
    }
}

/// A short fingerprint of a slug: its length and first two characters.
pub open spec fn slug_key(s: Seq<char>) -> (nat, char, char) {
    (s.len(), s[0], s[1])
}

/// The fingerprint each format's slug has.
pub open spec fn format_key(f: DiagramFormat) -> (nat, char, char) {
    match f {
        DiagramFormat::PlantUml => (8, 'p', 'l'),
        DiagramFormat::C4PlantUml => (10, 'c', '4'),
        DiagramFormat::GraphViz => (8, 'g', 'r'),
        DiagramFormat::D2 => (2, 'd', '2'),
        DiagramFormat::VegaLite => (8, 'v', 'e'),
        DiagramFormat::Ditaa => (5, 'd', 'i'),
        DiagramFormat::Nomnoml => (7, 'n', 'o'),
        DiagramFormat::WaveDrom => (8, 'w', 'a'),
        DiagramFormat::Vega => (4, 'v', 'e'),
        DiagramFormat::BlockDiag => (9, 'b', 'l'),
        DiagramFormat::ActDiag => (7, 'a', 'c'),
        DiagramFormat::SeqDiag => (7, 's', 'e'),
        DiagramFormat::NwDiag => (6, 'n', 'w'),
        DiagramFormat::PacketDiag => (10, 'p', 'a'),
        DiagramFormat::RackDiag => (8, 'r', 'a'),
        DiagramFormat::Erd => (3, 'e', 'r'),
        DiagramFormat::Umlet => (5, 'u', 'm'),
        DiagramFormat::Pikchr => (6, 'p', 'i'),
        DiagramFormat::Goat => (4, 'g', 'o'),
        DiagramFormat::ByteField => (9, 'b', 'y'),
        DiagramFormat::Dbml => (4, 'd', 'b'),
        DiagramFormat::TikZ => (4, 't', 'i'),
        DiagramFormat::SvgBob => (6, 's', 'v'),
        DiagramFormat::WireViz => (7, 'w', 'i'),
        DiagramFormat::Structurizr => (11, 's', 't'),
        DiagramFormat::Symbolator => (10, 's', 'y'),
    }
}

/// Distinct formats have distinct slugs.
pub proof fn lemma_slugs_distinct()
    ensures
        forall|a: DiagramFormat, b: DiagramFormat| slug_of(a) == slug_of(b) ==> a == b,
{
    reveal_strlit("plantuml");
    reveal_strlit("c4plantuml");
    reveal_strlit("graphviz");
    reveal_strlit("d2");
    reveal_strlit("vegalite");
    reveal_strlit("ditaa");
    reveal_strlit("nomnoml");
    reveal_strlit("wavedrom");
    reveal_strlit("vega");
    reveal_strlit("blockdiag");
    reveal_strlit("actdiag");
    reveal_strlit("seqdiag");
    reveal_strlit("nwdiag");
    reveal_strlit("packetdiag");
    reveal_strlit("rackdiag");
    reveal_strlit("erd");
    reveal_strlit("umlet");
    reveal_strlit("pikchr");
    reveal_strlit("goat");
    reveal_strlit("bytefield");
    reveal_strlit("dbml");
    reveal_strlit("tikz");
    reveal_strlit("svgbob");
    reveal_strlit("wireviz");
    reveal_strlit("structurizr");
    reveal_strlit("symbolator");
    assert forall|f: DiagramFormat| slug_key(#[trigger] slug_of(f)) == format_key(f) by {
        match f { _ => {} }
    }
    assert forall|a: DiagramFormat, b: DiagramFormat| slug_of(a) == slug_of(b) implies a == b by {
        assert(slug_key(slug_of(a)) == format_key(a));
        assert(slug_key(slug_of(b)) == format_key(b));
    }
}

/// Unknown or companion-only format name.
#[derive(Debug)]
pub struct UnsupportedFormat(pub String);

/// `format!("{:?}", s)`: the Debug rendering of a string (quoted, escaped).
pub uninterp spec fn debug_quoted(s: Seq<char>) -> Seq<char>;

/// Debug rendering of a string slice (std `<str as Debug>::fmt`).
#[verifier::external_body]
pub(crate) fn debug_quote(s: &str) -> (r: String)
    ensures
        r@ == debug_quoted(s@),
{
    format!("{:?}", s)
}

/// Every supported slug, in enumeration order.
pub open spec fn all_slugs() -> Seq<Seq<char>> {
    Seq::new(26, |i: int| slug_of(format_at(i)))
}

/// The human-readable rejection message of an unsupported name.
pub open spec fn unsupported_message(name: Seq<char>) -> Seq<char> {
    "unsupported diagram format "@ + debug_quoted(name) + "; kr0ki P0 supports: "@ + join(
        all_slugs(),
        ", "@,
    )
}

impl UnsupportedFormat {
    /// The rejection message: the offending name (Debug-quoted) and the full
    /// list of supported slugs.
    pub fn message(&self) -> (r: String)
        ensures
            r@ == unsupported_message(self.0@),
    {
        let all = all_formats();
        let mut slugs: Vec<&str> = Vec::new();
        let mut i: usize = 0;
        while i < all.len()
            invariant
                all@.len() == 26,
                forall|k: int| 0 <= k < 26 ==> all@[k] == format_at(k),
                i <= 26,
                slugs@.len() == i,
                forall|k: int| 0 <= k < i ==> (#[trigger] slugs@[k])@ == slug_of(format_at(k)),
            decreases 26 - i,
        {
            slugs.push(all[i].kroki_slug());
            i = i + 1;
        }
        let mut out = String::new();
        push_str(&mut out, "unsupported diagram format ");
        let q = debug_quote(self.0.as_str());
        push_str(&mut out, q.as_str());
        push_str(&mut out, "; kr0ki P0 supports: ");
        push_joined(&mut out, &slugs, ", ");
        assert(slugs@.map_values(|p: &str| p@) =~= all_slugs());
        out
    }
}

impl std::str::FromStr for DiagramFormat {
    type Err = UnsupportedFormat;

    fn from_str(s: &str) -> (r: Result<Self, Self::Err>)
        ensures
            match r {
                Ok(f) => parse_format_spec(s@) == Some(f),
                Err(e) => parse_format_spec(s@) is None && e.0@ == s@,
            },
    {
        DiagramFormat::parse_slug(s)
    }
}

/// Text without whitespace at either end is its own trim.
pub proof fn lemma_trim_unchanged(s: Seq<char>)
    requires
        s.len() > 0,
        !is_ws(s[0]),
        !is_ws(s.last()),
    ensures
        trim(s) == s,
{
    assert(trim_start_index(s) == 0);
    assert(trim_end_index(s) == s.len());
    assert(s.subrange(0, s.len() as int) =~= s);
}

/// Text without ASCII capitals is its own ASCII lower-casing.
pub proof fn lemma_lower_unchanged(s: Seq<char>)
    requires
        forall|k: int| 0 <= k < s.len() ==> !('A' <= #[trigger] s[k] && s[k] <= 'Z'),
    ensures
        ascii_lower(s) == s,
{
    assert(ascii_lower(s) =~= s);
}

/// Law: every format's own slug parses back to that format.
pub proof fn law_slug_round_trips(f: DiagramFormat)
    ensures
        parse_format_spec(slug_of(f)) == Some(f),
{
    reveal_strlit("plantuml");
    reveal_strlit("c4plantuml");
    reveal_strlit("graphviz");
    reveal_strlit("d2");
    reveal_strlit("vegalite");
    reveal_strlit("ditaa");
    reveal_strlit("nomnoml");
    reveal_strlit("wavedrom");
    reveal_strlit("vega");
    reveal_strlit("blockdiag");
    reveal_strlit("actdiag");
    reveal_strlit("seqdiag");
    reveal_strlit("nwdiag");
    reveal_strlit("packetdiag");
    reveal_strlit("rackdiag");
    reveal_strlit("erd");
    reveal_strlit("umlet");
    reveal_strlit("pikchr");
    reveal_strlit("goat");
    reveal_strlit("bytefield");
    reveal_strlit("dbml");
    reveal_strlit("tikz");
    reveal_strlit("svgbob");
    reveal_strlit("wireviz");
    reveal_strlit("structurizr");
    reveal_strlit("symbolator");
    let s = slug_of(f);
    lemma_trim_unchanged(s);
    lemma_lower_unchanged(s);
    lemma_slugs_distinct();
    assert(normalize_format_name(s) == s);
}

/// Law: no two formats share a slug, so every format is reachable by name.
pub proof fn law_slugs_unique(a: DiagramFormat, b: DiagramFormat)
    ensures
        slug_of(a) == slug_of(b) <==> a == b,
{
    lemma_slugs_distinct();
}

/// The companion-only formats (`mermaid`, `bpmn`, `excalidraw`,
/// `diagramsnet`) are no format's slug, so their names, in any case and
/// with any surrounding whitespace, are refused; and every slug is written
/// in lower case, so it names its format as it stands.
pub proof fn law_companion_formats_refused(f: DiagramFormat, s: Seq<char>)
    ensures
        slug_of(f) != "mermaid"@ && slug_of(f) != "bpmn"@ && slug_of(f) != "excalidraw"@
            && slug_of(f) != "diagramsnet"@,
        (normalize_format_name(s) == "mermaid"@ || normalize_format_name(s) == "bpmn"@
            || normalize_format_name(s) == "excalidraw"@ || normalize_format_name(s) == "diagramsnet"@)
            ==> parse_format_spec(s) is None,
        forall|k: int| 0 <= k < slug_of(f).len() ==> !('A' <= #[trigger] slug_of(f)[k] && slug_of(f)[k] <= 'Z'),
{
    lemma_not_companion(f);
    assert forall|g: DiagramFormat| slug_of(g) != normalize_format_name(s) || !(normalize_format_name(s) == "mermaid"@
        || normalize_format_name(s) == "bpmn"@ || normalize_format_name(s) == "excalidraw"@
        || normalize_format_name(s) == "diagramsnet"@) by {
        lemma_not_companion(g);
    }
    lemma_slug_lowercase(f);
}

proof fn lemma_not_companion(f: DiagramFormat)
    ensures
        slug_of(f) != "mermaid"@ && slug_of(f) != "bpmn"@ && slug_of(f) != "excalidraw"@
            && slug_of(f) != "diagramsnet"@,
{
    reveal_strlit("mermaid");
    reveal_strlit("bpmn");
    reveal_strlit("excalidraw");
    reveal_strlit("diagramsnet");
    match f {
        DiagramFormat::PlantUml => {
            reveal_strlit("plantuml");
            assert("plantuml"@[0] != "mermaid"@[0]);
            assert("plantuml"@[0] != "bpmn"@[0]);
            assert("plantuml"@[0] != "excalidraw"@[0]);
            assert("plantuml"@[0] != "diagramsnet"@[0]);
        },
        DiagramFormat::C4PlantUml => {
            reveal_strlit("c4plantuml");
            assert("c4plantuml"@[0] != "mermaid"@[0]);
            assert("c4plantuml"@[0] != "bpmn"@[0]);
            assert("c4plantuml"@[0] != "excalidraw"@[0]);
            assert("c4plantuml"@[0] != "diagramsnet"@[0]);
        },
        DiagramFormat::GraphViz => {
            reveal_strlit("graphviz");
            assert("graphviz"@[0] != "mermaid"@[0]);
            assert("graphviz"@[0] != "bpmn"@[0]);
            assert("graphviz"@[0] != "excalidraw"@[0]);
            assert("graphviz"@[0] != "diagramsnet"@[0]);
        },
        DiagramFormat::D2 => {
            reveal_strlit("d2");
            assert("d2"@[0] != "mermaid"@[0]);
            assert("d2"@[0] != "bpmn"@[0]);
            assert("d2"@[0] != "excalidraw"@[0]);
            assert("d2"@[1] != "diagramsnet"@[1]);
        },
        DiagramFormat::VegaLite => {
            reveal_strlit("vegalite");
            assert("vegalite"@[0] != "mermaid"@[0]);
            assert("vegalite"@[0] != "bpmn"@[0]);
            assert("vegalite"@[0] != "excalidraw"@[0]);
            assert("vegalite"@[0] != "diagramsnet"@[0]);
        },
        DiagramFormat::Ditaa => {
            reveal_strlit("ditaa");
            assert("ditaa"@[0] != "mermaid"@[0]);
            assert("ditaa"@[0] != "bpmn"@[0]);
            assert("ditaa"@[0] != "excalidraw"@[0]);
            assert("ditaa"@[2] != "diagramsnet"@[2]);
        },
        DiagramFormat::Nomnoml => {
            reveal_strlit("nomnoml");
            assert("nomnoml"@[0] != "mermaid"@[0]);
            assert("nomnoml"@[0] != "bpmn"@[0]);
            assert("nomnoml"@[0] != "excalidraw"@[0]);
            assert("nomnoml"@[0] != "diagramsnet"@[0]);
        },
        DiagramFormat::WaveDrom => {
            reveal_strlit("wavedrom");
            assert("wavedrom"@[0] != "mermaid"@[0]);
            assert("wavedrom"@[0] != "bpmn"@[0]);
            assert("wavedrom"@[0] != "excalidraw"@[0]);
            assert("wavedrom"@[0] != "diagramsnet"@[0]);
        },
        DiagramFormat::Vega => {
            reveal_strlit("vega");
            assert("vega"@[0] != "mermaid"@[0]);
            assert("vega"@[0] != "bpmn"@[0]);
            assert("vega"@[0] != "excalidraw"@[0]);
            assert("vega"@[0] != "diagramsnet"@[0]);
        },
        DiagramFormat::BlockDiag => {
            reveal_strlit("blockdiag");
            assert("blockdiag"@[0] != "mermaid"@[0]);
            assert("blockdiag"@[1] != "bpmn"@[1]);
            assert("blockdiag"@[0] != "excalidraw"@[0]);
            assert("blockdiag"@[0] != "diagramsnet"@[0]);
        },
        DiagramFormat::ActDiag => {
            reveal_strlit("actdiag");
            assert("actdiag"@[0] != "mermaid"@[0]);
            assert("actdiag"@[0] != "bpmn"@[0]);
            assert("actdiag"@[0] != "excalidraw"@[0]);
            assert("actdiag"@[0] != "diagramsnet"@[0]);
        },
        DiagramFormat::SeqDiag => {
            reveal_strlit("seqdiag");
            assert("seqdiag"@[0] != "mermaid"@[0]);
            assert("seqdiag"@[0] != "bpmn"@[0]);
            assert("seqdiag"@[0] != "excalidraw"@[0]);
            assert("seqdiag"@[0] != "diagramsnet"@[0]);
        },
        DiagramFormat::NwDiag => {
            reveal_strlit("nwdiag");
            assert("nwdiag"@[0] != "mermaid"@[0]);
            assert("nwdiag"@[0] != "bpmn"@[0]);
            assert("nwdiag"@[0] != "excalidraw"@[0]);
            assert("nwdiag"@[0] != "diagramsnet"@[0]);
        },
        DiagramFormat::PacketDiag => {
            reveal_strlit("packetdiag");
            assert("packetdiag"@[0] != "mermaid"@[0]);
            assert("packetdiag"@[0] != "bpmn"@[0]);
            assert("packetdiag"@[0] != "excalidraw"@[0]);
            assert("packetdiag"@[0] != "diagramsnet"@[0]);
        },
        DiagramFormat::RackDiag => {
            reveal_strlit("rackdiag");
            assert("rackdiag"@[0] != "mermaid"@[0]);
            assert("rackdiag"@[0] != "bpmn"@[0]);
            assert("rackdiag"@[0] != "excalidraw"@[0]);
            assert("rackdiag"@[0] != "diagramsnet"@[0]);
        },
        DiagramFormat::Erd => {
            reveal_strlit("erd");
            assert("erd"@[0] != "mermaid"@[0]);
            assert("erd"@[0] != "bpmn"@[0]);
            assert("erd"@[1] != "excalidraw"@[1]);
            assert("erd"@[0] != "diagramsnet"@[0]);
        },
        DiagramFormat::Umlet => {
            reveal_strlit("umlet");
            assert("umlet"@[0] != "mermaid"@[0]);
            assert("umlet"@[0] != "bpmn"@[0]);
            assert("umlet"@[0] != "excalidraw"@[0]);
            assert("umlet"@[0] != "diagramsnet"@[0]);
        },
        DiagramFormat::Pikchr => {
            reveal_strlit("pikchr");
            assert("pikchr"@[0] != "mermaid"@[0]);
            assert("pikchr"@[0] != "bpmn"@[0]);
            assert("pikchr"@[0] != "excalidraw"@[0]);
            assert("pikchr"@[0] != "diagramsnet"@[0]);
        },
        DiagramFormat::Goat => {
            reveal_strlit("goat");
            assert("goat"@[0] != "mermaid"@[0]);
            assert("goat"@[0] != "bpmn"@[0]);
            assert("goat"@[0] != "excalidraw"@[0]);
            assert("goat"@[0] != "diagramsnet"@[0]);
        },
        DiagramFormat::ByteField => {
            reveal_strlit("bytefield");
            assert("bytefield"@[0] != "mermaid"@[0]);
            assert("bytefield"@[1] != "bpmn"@[1]);
            assert("bytefield"@[0] != "excalidraw"@[0]);
            assert("bytefield"@[0] != "diagramsnet"@[0]);
        },
        DiagramFormat::Dbml => {
            reveal_strlit("dbml");
            assert("dbml"@[0] != "mermaid"@[0]);
            assert("dbml"@[0] != "bpmn"@[0]);
            assert("dbml"@[0] != "excalidraw"@[0]);
            assert("dbml"@[1] != "diagramsnet"@[1]);
        },
        DiagramFormat::TikZ => {
            reveal_strlit("tikz");
            assert("tikz"@[0] != "mermaid"@[0]);
            assert("tikz"@[0] != "bpmn"@[0]);
            assert("tikz"@[0] != "excalidraw"@[0]);
            assert("tikz"@[0] != "diagramsnet"@[0]);
        },
        DiagramFormat::SvgBob => {
            reveal_strlit("svgbob");
            assert("svgbob"@[0] != "mermaid"@[0]);
            assert("svgbob"@[0] != "bpmn"@[0]);
            assert("svgbob"@[0] != "excalidraw"@[0]);
            assert("svgbob"@[0] != "diagramsnet"@[0]);
        },
        DiagramFormat::WireViz => {
            reveal_strlit("wireviz");
            assert("wireviz"@[0] != "mermaid"@[0]);
            assert("wireviz"@[0] != "bpmn"@[0]);
            assert("wireviz"@[0] != "excalidraw"@[0]);
            assert("wireviz"@[0] != "diagramsnet"@[0]);
        },
        DiagramFormat::Structurizr => {
            reveal_strlit("structurizr");
            assert("structurizr"@[0] != "mermaid"@[0]);
            assert("structurizr"@[0] != "bpmn"@[0]);
            assert("structurizr"@[0] != "excalidraw"@[0]);
            assert("structurizr"@[0] != "diagramsnet"@[0]);
        },
        DiagramFormat::Symbolator => {
            reveal_strlit("symbolator");
            assert("symbolator"@[0] != "mermaid"@[0]);
            assert("symbolator"@[0] != "bpmn"@[0]);
            assert("symbolator"@[0] != "excalidraw"@[0]);
            assert("symbolator"@[0] != "diagramsnet"@[0]);
        },
    }
}

proof fn lemma_slug_lowercase(f: DiagramFormat)
    ensures
        forall|k: int| 0 <= k < slug_of(f).len() ==> !('A' <= #[trigger] slug_of(f)[k] && slug_of(f)[k] <= 'Z'),
{
    match f {
        DiagramFormat::PlantUml => reveal_strlit("plantuml"),
        DiagramFormat::C4PlantUml => reveal_strlit("c4plantuml"),
        DiagramFormat::GraphViz => reveal_strlit("graphviz"),
        DiagramFormat::D2 => reveal_strlit("d2"),
        DiagramFormat::VegaLite => reveal_strlit("vegalite"),
        DiagramFormat::Ditaa => reveal_strlit("ditaa"),
        DiagramFormat::Nomnoml => reveal_strlit("nomnoml"),
        DiagramFormat::WaveDrom => reveal_strlit("wavedrom"),
        DiagramFormat::Vega => reveal_strlit("vega"),
        DiagramFormat::BlockDiag => reveal_strlit("blockdiag"),
        DiagramFormat::ActDiag => reveal_strlit("actdiag"),
        DiagramFormat::SeqDiag => reveal_strlit("seqdiag"),
        DiagramFormat::NwDiag => reveal_strlit("nwdiag"),
        DiagramFormat::PacketDiag => reveal_strlit("packetdiag"),
        DiagramFormat::RackDiag => reveal_strlit("rackdiag"),
        DiagramFormat::Erd => reveal_strlit("erd"),
        DiagramFormat::Umlet => reveal_strlit("umlet"),
        DiagramFormat::Pikchr => reveal_strlit("pikchr"),
        DiagramFormat::Goat => reveal_strlit("goat"),
        DiagramFormat::ByteField => reveal_strlit("bytefield"),
        DiagramFormat::Dbml => reveal_strlit("dbml"),
        DiagramFormat::TikZ => reveal_strlit("tikz"),
        DiagramFormat::SvgBob => reveal_strlit("svgbob"),
        DiagramFormat::WireViz => reveal_strlit("wireviz"),
        DiagramFormat::Structurizr => reveal_strlit("structurizr"),
        DiagramFormat::Symbolator => reveal_strlit("symbolator"),
    }
}

} // verus!
