//! SVG rasterized to PNG in-process (`usvg` parse, `tiny-skia` pixmap,
//! `resvg` render, PNG encode), for formats whose backend only draws SVG.
use vstd::prelude::*;

use crate::text::push_str;

verus! {

#[verifier::external_type_specification]
#[verifier::external_body]
pub struct ExSvgTree(usvg::Tree);

#[verifier::external_type_specification]
#[verifier::external_body]
pub struct ExPixmap(tiny_skia::Pixmap);

/// Why an SVG could not be flattened.
#[derive(Debug, Clone, PartialEq, Eq)]
pub enum FlattenError {
    InvalidSvg(String),
    ZeroSized,
    Encode(String),
}

/// The message of a flatten error.
pub open spec fn flatten_message(e: FlattenError) -> Seq<char> {
    match e {
        FlattenError::InvalidSvg(m) => "invalid SVG: "@ + m@,
        FlattenError::ZeroSized => "SVG has zero-sized viewport"@,
        FlattenError::Encode(m) => "PNG encode failed: "@ + m@,
    }
}

impl FlattenError {
    /// The error's message.
    pub fn message(&self) -> (r: String)
        ensures
            r@ == flatten_message(*self),
    {
        let mut s = String::new();
        match self {
            FlattenError::InvalidSvg(m) => {
                push_str(&mut s, "invalid SVG: ");
                push_str(&mut s, m.as_str());
            },
            FlattenError::ZeroSized => push_str(&mut s, "SVG has zero-sized viewport"),
            FlattenError::Encode(m) => {
                push_str(&mut s, "PNG encode failed: ");
                push_str(&mut s, m.as_str());
            },
        }
        s
    }
}

/// Whether `usvg` accepts `data` as an SVG document under default options.
pub uninterp spec fn svg_parses(data: Seq<u8>) -> bool;

/// The intrinsic pixel size `(width, height)` of the SVG document `data`
/// as `usvg` parses it (`Tree::size` rounded by `Size::to_int_size`).
pub uninterp spec fn svg_int_size(data: Seq<u8>) -> (u32, u32);

/// Whether `tiny_skia::Pixmap::new` gives a pixmap of this size: the size
/// is nonzero and its byte length is representable.
pub uninterp spec fn pixmap_fits(width: u32, height: u32) -> bool;


/// A parsed SVG document, with the bytes it was parsed from.
pub struct SvgTree {
    tree: usvg::Tree,
    source: Ghost<Seq<u8>>,
}

impl SvgTree {
    pub closed spec fn source(&self) -> Seq<u8> {
        self.source@
    }
}

/// A pixmap, with its size and the document drawn into it, if any.
pub struct Canvas {
    pixmap: tiny_skia::Pixmap,
    size: Ghost<(u32, u32)>,
    drawn: Ghost<Option<Seq<u8>>>,
}

impl Canvas {
    pub closed spec fn size(&self) -> (u32, u32) {
        self.size@
    }

    pub closed spec fn drawn(&self) -> Option<Seq<u8>> {
        self.drawn@
    }
}

/// `usvg::Tree::from_data` with default options; the error as text.
#[verifier::external_body]
fn parse_svg(svg: &[u8]) -> (r: Result<SvgTree, String>)
    ensures
        r is Ok <==> svg_parses(svg@),
        r matches Ok(t) ==> t.source() == svg@,
{
    match usvg::Tree::from_data(svg, &usvg::Options::default()) {
        Ok(tree) => Ok(SvgTree { tree, source: Ghost(svg@) }),
        Err(e) => Err(e.to_string()),
    }
}

/// `usvg::Tree::size` rounded by `Size::to_int_size`, as (width, height).
#[verifier::external_body]
fn tree_int_size(tree: &SvgTree) -> (r: (u32, u32))
    ensures
        r == svg_int_size(tree.source()),
{
    let size = tree.tree.size().to_int_size();
    (size.width(), size.height())
}

/// `tiny_skia::Pixmap::new`: a transparent pixmap, or `None` for a zero
/// width or height or a size whose byte length overflows.
#[verifier::external_body]
fn new_pixmap(width: u32, height: u32) -> (r: Option<Canvas>)
    ensures
        r is Some <==> pixmap_fits(width, height),
        width == 0 || height == 0 ==> r is None,
        r matches Some(c) ==> c.size() == (width, height) && c.drawn() is None,
{
    match tiny_skia::Pixmap::new(width, height) {
        Some(pixmap) => Some(Canvas { pixmap, size: Ghost((width, height)), drawn: Ghost(None) }),
        None => None,
    }
}

/// `resvg::render` of the tree into a blank pixmap with the identity
/// transform.
#[verifier::external_body]
fn render_tree(tree: &SvgTree, canvas: &mut Canvas)
    requires
        old(canvas).drawn() is None,
    ensures
        final(canvas).size() == old(canvas).size(),
        final(canvas).drawn() == Some(tree.source()),
{
    resvg::render(&tree.tree, tiny_skia::Transform::default(), &mut canvas.pixmap.as_mut());
    canvas.drawn = Ghost(Some(tree.source@));
}

/// The 8-byte PNG file signature.
pub open spec fn png_signature() -> Seq<u8> {
    seq![0x89u8, 0x50u8, 0x4eu8, 0x47u8, 0x0du8, 0x0au8, 0x1au8, 0x0au8]
}

/// `Pixmap::encode_png`: PNG data, which begins with the PNG signature; the
/// error as text. The pixels are not stated: what `resvg` drew can depend on
/// files an `<image>` element names (usvg's default resolver reads them from
/// disk), so no name is given to the encoded bytes.
#[verifier::external_body]
fn encode_png(canvas: &Canvas) -> (r: Result<Vec<u8>, String>)
    requires
        canvas.drawn() is Some,
    ensures
        r matches Ok(bytes) ==> bytes@.len() >= 8 && bytes@.take(8) == png_signature(),
{
    canvas.pixmap.encode_png().map_err(|e| e.to_string())
}

/// What flattening the SVG document `svg` may give: which error comes is
/// decided by the bytes (an unparseable document, then a size no pixmap
/// takes); a PNG begins with the PNG signature. The pixels themselves are
/// left open: images an SVG names are read from disk.
pub open spec fn flatten_outcome(svg: Seq<u8>, r: Result<Vec<u8>, FlattenError>) -> bool {
    let (w, h) = svg_int_size(svg);
    match r {
        Ok(png) => {
            &&& svg_parses(svg)
            &&& pixmap_fits(w, h)
            &&& png@.len() >= 8 && png@.take(8) == png_signature()
        },
        Err(FlattenError::InvalidSvg(_)) => !svg_parses(svg),
        Err(FlattenError::ZeroSized) => svg_parses(svg) && !pixmap_fits(w, h),
        Err(FlattenError::Encode(_)) => svg_parses(svg) && pixmap_fits(w, h),
    }
}

/// Renders `svg` to PNG bytes at the SVG's own intrinsic pixel size (see
/// [`flatten_outcome`]).
pub fn svg_to_png(svg: &[u8]) -> (r: Result<Vec<u8>, FlattenError>)
    ensures
        flatten_outcome(svg@, r),
{
    let tree = match parse_svg(svg) {
        Ok(t) => t,
        Err(m) => {
            return Err(FlattenError::InvalidSvg(m));
        },
    };
    let (width, height) = tree_int_size(&tree);
    let mut canvas = match new_pixmap(width, height) {
        Some(c) => c,
        None => {
            return Err(FlattenError::ZeroSized);
        },
    };
    render_tree(&tree, &mut canvas);
    match encode_png(&canvas) {
        Ok(bytes) => Ok(bytes),
        Err(m) => Err(FlattenError::Encode(m)),
    }
}

} // verus!
