//! The in-memory RGBA raster, and the two ways of obtaining one from a source
//! file's bytes: raster decoding and vector rasterization.

use vstd::prelude::*;
use crate::naming::{extension_of, file_extension};
use crate::policy::{raise, IconError, Warning};
use crate::sizes::in_range;

verus! {

/// Errors of the `image` crate.
#[verifier::external_type_specification]
#[verifier::external_body]
pub struct ExImageError(image::ImageError);

/// The file formats known to the `image` crate.
#[verifier::external_type_specification]
pub struct ExImageFormat(image::ImageFormat);

/// A parsed vector document.
#[verifier::external_type_specification]
#[verifier::external_body]
pub struct ExSvgTree(usvg::Tree);

/// Parsing options for vector documents: resource directory and fonts.
#[verifier::external_type_specification]
#[verifier::external_body]
pub struct ExSvgOptions(usvg::Options);

/// Errors of the vector-document parser.
#[verifier::external_type_specification]
#[verifier::external_body]
pub struct ExSvgError(usvg::Error);

/// A premultiplied RGBA canvas that vector documents are rendered into.
#[verifier::external_type_specification]
#[verifier::external_body]
pub struct ExPixmap(tiny_skia::Pixmap);

/// A picture as rows of RGBA8 pixels, four bytes per pixel, top row first.
pub struct Raster {
    pub width: u32,
    pub height: u32,
    pub pixels: Vec<u8>,
}

impl Raster {
    /// The raster has pixels, and exactly four bytes for each of them.
    pub open spec fn wf(&self) -> bool {
        &&& self.width > 0
        &&& self.height > 0
        &&& self.pixels@.len() == 4 * self.width * self.height
    }

    /// A raster of the given dimensions over `pixels`, if they fit it exactly.
    pub fn new(width: u32, height: u32, pixels: Vec<u8>) -> (r: Option<Raster>)
        ensures
            r is Some <==> (width > 0 && height > 0 && pixels@.len() == 4 * width * height),
            r is Some ==> r->0.wf() && r->0.width == width && r->0.height == height && r->0.pixels@ == pixels@,
    {
        if width == 0 || height == 0 {
            return None;
        }
        let n = pixels.len();
        let w = width as usize;
        let h = height as usize;
        if n / 4 / w < h || n % 4 != 0 {
            proof {
                lemma_not_exact(n as int, w as int, h as int);
            }
            return None;
        }
        proof {
            lemma_fits(n as int, w as int, h as int);
        }
        if 4 * w * h == n {
            Some(Raster { width, height, pixels })
        } else {
            None
        }
    }
}

/// Where `n` falls short of `4 * w * h` pixels' bytes, or is no multiple of 4,
/// it is not exactly that many.
proof fn lemma_not_exact(n: int, w: int, h: int)
    requires
        n >= 0,
        w > 0,
        h > 0,
        n / 4 / w < h || n % 4 != 0,
    ensures
        n != 4 * w * h,
{
    if n == 4 * w * h {
        assert(4 * w * h == 4 * (w * h)) by (nonlinear_arith);
        assert(4 * w * h == (w * h) * 4) by (nonlinear_arith);
        vstd::arithmetic::div_mod::lemma_div_multiples_vanish(w * h, 4);
        vstd::arithmetic::div_mod::lemma_mod_multiples_basic(w * h, 4);
        vstd::arithmetic::div_mod::lemma_div_multiples_vanish(h, w);
    }
}

/// Where `n` holds at least `4 * w * h`, the product stays within `n`.
proof fn lemma_fits(n: int, w: int, h: int)
    requires
        n >= 0,
        w > 0,
        h > 0,
        n / 4 / w >= h,
    ensures
        4 * w <= 4 * w * h <= n,
{
    assert(4 * w * h <= n) by (nonlinear_arith)
        requires n >= 0, w > 0, h > 0, n / 4 / w >= h;
    assert(4 * w <= 4 * w * h) by (nonlinear_arith)
        requires w > 0, h > 0;
}

/// `c` with ASCII capitals turned to small letters.
pub open spec fn ascii_lower(c: char) -> char {
    if 'A' <= c && c <= 'Z' { ((c as u32) + 32) as char } else { c }
}

/// The image format that an extension names, ignoring ASCII letter case.
pub open spec fn format_of(ext: Seq<char>) -> Option<image::ImageFormat> {
    let e = ext.map_values(|c: char| ascii_lower(c));
    if e == seq!['a', 'v', 'i', 'f'] {
        Some(image::ImageFormat::Avif)
    } else if e == seq!['j', 'p', 'g'] || e == seq!['j', 'p', 'e', 'g'] {
        Some(image::ImageFormat::Jpeg)
    } else if e == seq!['p', 'n', 'g'] {
        Some(image::ImageFormat::Png)
    } else if e == seq!['g', 'i', 'f'] {
        Some(image::ImageFormat::Gif)
    } else if e == seq!['w', 'e', 'b', 'p'] {
        Some(image::ImageFormat::WebP)
    } else if e == seq!['t', 'i', 'f'] || e == seq!['t', 'i', 'f', 'f'] {
        Some(image::ImageFormat::Tiff)
    } else if e == seq!['t', 'g', 'a'] {
        Some(image::ImageFormat::Tga)
    } else if e == seq!['d', 'd', 's'] {
        Some(image::ImageFormat::Dds)
    } else if e == seq!['b', 'm', 'p'] {
        Some(image::ImageFormat::Bmp)
    } else if e == seq!['i', 'c', 'o'] {
        Some(image::ImageFormat::Ico)
    } else if e == seq!['h', 'd', 'r'] {
        Some(image::ImageFormat::Hdr)
    } else if e == seq!['e', 'x', 'r'] {
        Some(image::ImageFormat::OpenExr)
    } else if e == seq!['p', 'b', 'm'] || e == seq!['p', 'a', 'm'] || e == seq!['p', 'p', 'm'] || e == seq!['p', 'g', 'm'] {
        Some(image::ImageFormat::Pnm)
    } else if e == seq!['f', 'f'] || e == seq!['f', 'a', 'r', 'b', 'f', 'e', 'l', 'd'] {
        Some(image::ImageFormat::Farbfeld)
    } else if e == seq!['q', 'o', 'i'] {
        Some(image::ImageFormat::Qoi)
    } else {
        None
    }
}

/// Relies on `image::ImageFormat::from_extension`: a fixed table of
/// extensions, compared after ASCII lower-casing.
#[verifier::external_body]
fn format_for_extension(ext: &str) -> (r: Option<image::ImageFormat>)
    ensures
        r == format_of(ext@),
{
    image::ImageFormat::from_extension(ext)
}

/// The picture that the `image` crate decodes from `bytes` in `format`, as
/// width, height and RGBA8 buffer; `None` where decoding fails.
pub uninterp spec fn decoded_rgba(bytes: Seq<u8>, format: image::ImageFormat) -> Option<(u32, u32, Seq<u8>)>;

/// Relies on `image::load_from_memory_with_format` and `into_rgba8`: decodes
/// `bytes` as `format` and converts the picture to RGBA8, whose buffer holds
/// at least four bytes per pixel.
#[verifier::external_body]
fn decode_image(bytes: &[u8], format: image::ImageFormat) -> (r: Result<Raster, image::ImageError>)
    ensures
        r is Ok <==> decoded_rgba(bytes@, format) is Some,
        r is Ok ==> decoded_rgba(bytes@, format) == Some((r->Ok_0.width, r->Ok_0.height, r->Ok_0.pixels@)),
        r is Ok ==> r->Ok_0.pixels@.len() >= 4 * r->Ok_0.width * r->Ok_0.height,
{
    match image::load_from_memory_with_format(bytes, format) {
        Ok(im) => {
            let rgba = im.into_rgba8();
            let (width, height) = rgba.dimensions();
            Ok(Raster { width, height, pixels: rgba.into_raw() })
        },
        Err(e) => Err(e),
    }
}

/// The picture decoded from a file named `name` holding `bytes`, in the
/// format that its extension names.
pub open spec fn decoded_from(bytes: Seq<u8>, name: Seq<char>) -> Option<(u32, u32, Seq<u8>)> {
    match extension_of(name) {
        Some(ext) => match format_of(ext) {
            Some(f) => decoded_rgba(bytes, f),
            None => None,
        },
        None => None,
    }
}

/// The file decodes to a picture with pixels.
pub open spec fn decodes(bytes: Seq<u8>, name: Seq<char>) -> bool {
    match decoded_from(bytes, name) {
        Some(d) => d.0 > 0 && d.1 > 0,
        None => false,
    }
}

/// `r` is the picture decoded from the file: its dimensions, and the first
/// four bytes per pixel of its RGBA8 buffer.
pub open spec fn is_decoded(bytes: Seq<u8>, name: Seq<char>, r: Raster) -> bool {
    let d = decoded_from(bytes, name)->0;
    &&& r.width == d.0
    &&& r.height == d.1
    &&& r.pixels@ == d.2.subrange(0, 4 * d.0 * d.1)
}

/// Decodes a raster source file named `name` from its bytes, in the format
/// that its extension names.
pub fn decode_raster(bytes: &[u8], name: &str) -> (r: Result<Raster, IconError>)
    ensures
        r is Ok <==> decodes(bytes@, name@),
        r is Ok ==> r->Ok_0.wf() && is_decoded(bytes@, name@, r->Ok_0),
        r is Err ==> r->Err_0 is DecodeError || r->Err_0 is EmptyImage,
{
    let format = match file_extension(name) {
        Some(ext) => format_for_extension(ext.as_str()),
        None => None,
    };
    let format = match format {
        Some(f) => f,
        None => return Err(IconError::DecodeError(String::from_str("the image format could not be determined"))),
    };
    let mut raster = match decode_image(bytes, format) {
        Ok(r) => r,
        Err(e) => return Err(IconError::DecodeError(e.to_string())),
    };
    if raster.width == 0 || raster.height == 0 {
        return Err(IconError::EmptyImage);
    }
    let w = raster.width as usize;
    let h = raster.height as usize;
    let n = raster.pixels.len();
    proof {
        assert(4 * w <= 4 * w * h) by (nonlinear_arith)
            requires w > 0, h > 0;
    }
    assert(4 * w * h <= n);
    let len = 4 * w * h;
    raster.pixels.truncate(len);
    Ok(raster)
}

/// Relies on `usvg::Tree::from_data`: parses a vector document, plain or
/// gzip-compressed, with the given options.
#[verifier::external_body]
fn parse_svg(data: &[u8], options: &usvg::Options) -> (r: Result<usvg::Tree, usvg::Error>) {
    usvg::Tree::from_data(data, &options.to_ref())
}

/// Relies on `usvg::Size::to_screen_size` of the document's size: its natural
/// width and height in whole pixels, each rounded and at least one.
#[verifier::external_body]
fn natural_size(tree: &usvg::Tree) -> (r: (u32, u32))
    ensures
        r.0 >= 1,
        r.1 >= 1,
{
    let size = tree.svg_node().size.to_screen_size();
    (size.width(), size.height())
}

/// Relies on `tiny_skia::Pixmap::new`: a transparent canvas of the given
/// dimensions, or `None` when one is zero or the canvas is too large; edges
/// of 1 to 256 pixels always fit.
#[verifier::external_body]
fn new_pixmap(width: u32, height: u32) -> (r: Option<tiny_skia::Pixmap>)
    ensures
        width == 0 || height == 0 ==> r is None,
        in_range(width) && in_range(height) ==> r is Some,
{
    tiny_skia::Pixmap::new(width, height)
}

/// Relies on `resvg::render`: draws the document scaled to fit a square of
/// edge `size`, onto `pixmap`; any edge of at least one pixel is accepted.
#[verifier::external_body]
fn render_svg(tree: &usvg::Tree, size: u32, pixmap: &mut tiny_skia::Pixmap) -> (r: Option<()>)
    ensures
        size >= 1 ==> r is Some,
{
    resvg::render(tree, usvg::FitTo::Size(size, size), tiny_skia::Transform::default(), pixmap.as_mut())
}

/// Relies on `tiny_skia::Pixmap::pixel`: the premultiplied red, green, blue
/// and alpha of the pixel at column `x`, row `y`, if it lies on the canvas.
#[verifier::external_body]
fn pixel_at(pixmap: &tiny_skia::Pixmap, x: u32, y: u32) -> (r: Option<(u8, u8, u8, u8)>) {
    match pixmap.pixel(x, y) {
        Some(p) => Some((p.red(), p.green(), p.blue(), p.alpha())),
        None => None,
    }
}

/// Checks a vector document's natural size: one that is not square raises
/// `NonSquareInput`, which stops the conversion under `strict`.
pub fn check_natural_size(width: u32, height: u32, strict: bool, ledger: &mut Vec<Warning>) -> (r: Result<(), IconError>)
    ensures
        width != height && strict ==> r == Err::<(), IconError>(IconError::AbortedByWarning(Warning::NonSquareInput))
            && final(ledger)@ == old(ledger)@,
        width != height && !strict ==> r is Ok && final(ledger)@ == old(ledger)@.push(Warning::NonSquareInput),
        width == height ==> r is Ok && final(ledger)@ == old(ledger)@,
{
    if width != height {
        raise(ledger, Warning::NonSquareInput, strict)
    } else {
        Ok(())
    }
}

/// Parses a vector document and rasterizes it once, as a square of edge
/// `size` (the largest icon size requested). A document that is not square
/// raises `NonSquareInput`, which stops the conversion under `strict`.
pub fn rasterize_vector(
    data: &[u8],
    options: &usvg::Options,
    size: u32,
    strict: bool,
    ledger: &mut Vec<Warning>,
) -> (r: Result<Raster, IconError>)
    requires
        in_range(size),
    ensures
        r is Ok ==> r->Ok_0.wf() && r->Ok_0.width == size && r->Ok_0.height == size,
        r is Err ==> r->Err_0 is SvgParseError || r->Err_0 is RasterizeError
            || r->Err_0 == IconError::AbortedByWarning(Warning::NonSquareInput),
        r is Err && r->Err_0 is AbortedByWarning ==> strict,
        final(ledger)@ == old(ledger)@ || (!strict && final(ledger)@ == old(ledger)@.push(Warning::NonSquareInput)),
{
    let tree = match parse_svg(data, options) {
        Ok(t) => t,
        Err(e) => return Err(IconError::SvgParseError(e.to_string())),
    };
    let (natural_width, natural_height) = natural_size(&tree);
    check_natural_size(natural_width, natural_height, strict, ledger)?;
    let mut pixmap = match new_pixmap(size, size) {
        Some(p) => p,
        None => return Err(IconError::RasterizeError),
    };
    if render_svg(&tree, size, &mut pixmap).is_none() {
        return Err(IconError::RasterizeError);
    }
    assert(size * size <= 256 * 256) by (nonlinear_arith)
        requires size <= 256;
    let count: u32 = size * size;
    let mut pixels: Vec<u8> = Vec::new();
    let mut i: u32 = 0;
    while i < count
        invariant
            in_range(size),
            count == size * size,
            i <= count,
            pixels@.len() == 4 * i,
            ledger@ == old(ledger)@ || (!strict && ledger@ == old(ledger)@.push(Warning::NonSquareInput)),
        decreases count - i,
    {
        let x = i % size;
        let y = i / size;
        match pixel_at(&pixmap, x, y) {
            Some((red, green, blue, alpha)) => {
                pixels.push(red);
                pixels.push(green);
                pixels.push(blue);
                pixels.push(alpha);
            },
            None => return Err(IconError::RasterizeError),
        }
        i = i + 1;
    }
    assert(4 * count == 4 * size * size) by (nonlinear_arith)
        requires count == size * size;
    Ok(Raster { width: size, height: size, pixels })
}

} // verus!
