//! Resampling to each icon size, frame encoding, and packing of the frames
//! into one icon container.

use vstd::prelude::*;
use crate::filter::{backend_filter, ResampleFilter};
use crate::policy::{check_decoded, decoded_failure, decoded_warnings, IconError, Warning};
use crate::raster::Raster;
use crate::sizes::{in_range, strictly_ascending};

verus! {

/// One encoded picture of an icon container.
#[verifier::external_type_specification]
#[verifier::external_body]
pub struct ExIcoFrame<'a>(image::codecs::ico::IcoFrame<'a>);

/// The RGBA8 pixels that the `image` crate's resampler makes of a
/// `width` by `height` picture when it scales it to a `size` by `size` square
/// with `filter`.
pub uninterp spec fn resampled(
    pixels: Seq<u8>,
    width: u32,
    height: u32,
    size: u32,
    filter: image::imageops::FilterType,
) -> Seq<u8>;

/// Relies on `image::imageops::resize`: scales the picture to a `size` by
/// `size` square, whose buffer holds four bytes for each pixel.
#[verifier::external_body]
fn resample(src: &Raster, size: u32, filter: image::imageops::FilterType) -> (r: Raster)
    requires
        src.wf(),
        in_range(size),
    ensures
        r.width == size,
        r.height == size,
        r.pixels@.len() == 4 * size * size,
        r.pixels@ == resampled(src.pixels@, src.width, src.height, size, filter),
{
    let buf: image::RgbaImage = image::ImageBuffer::from_raw(src.width, src.height, src.pixels.clone()).unwrap();
    let out = image::imageops::resize(&buf, size, size, filter);
    let (width, height) = out.dimensions();
    Raster { width, height, pixels: out.into_raw() }
}

/// Scales `src` to a `size` by `size` square with the chosen filter,
/// stretching a source that is not square.
pub fn resize_to(src: &Raster, size: u32, filter: ResampleFilter) -> (r: Raster)
    requires
        src.wf(),
        in_range(size),
    ensures
        r.wf(),
        r.width == size,
        r.height == size,
        r.pixels@ == resampled(src.pixels@, src.width, src.height, size, backend_filter(filter)),
{
    resample(src, size, image::imageops::FilterType::from(filter))
}

/// `r` is `src` resampled with `filter` to a `size` by `size` square.
pub open spec fn is_frame_raster(src: &Raster, size: u32, filter: ResampleFilter, r: &Raster) -> bool {
    &&& r.wf()
    &&& r.width == size
    &&& r.height == size
    &&& r.pixels@ == resampled(src.pixels@, src.width, src.height, size, backend_filter(filter))
}

/// Scales `src` to every size of `sizes`, in order.
pub fn resize_all(src: &Raster, sizes: &Vec<u32>, filter: ResampleFilter) -> (r: Vec<Raster>)
    requires
        src.wf(),
        forall|i: int| 0 <= i < sizes@.len() ==> in_range(#[trigger] sizes@[i]),
    ensures
        r@.len() == sizes@.len(),
        forall|i: int| 0 <= i < sizes@.len() ==> is_frame_raster(src, sizes@[i], filter, #[trigger] &r@[i]),
{
    let mut out: Vec<Raster> = Vec::new();
    let mut i: usize = 0;
    while i < sizes.len()
        invariant
            src.wf(),
            forall|i: int| 0 <= i < sizes@.len() ==> in_range(#[trigger] sizes@[i]),
            i <= sizes@.len(),
            out@.len() == i,
            forall|k: int| 0 <= k < i ==> is_frame_raster(src, sizes@[k], filter, #[trigger] &out@[k]),
        decreases sizes@.len() - i,
    {
        let r = resize_to(src, sizes[i], filter);
        out.push(r);
        i = i + 1;
    }
    out
}

/// The PNG stream that the `image` crate's PNG encoder writes for an RGBA8
/// picture of the given dimensions.
pub uninterp spec fn png_of(pixels: Seq<u8>, width: u32, height: u32) -> Seq<u8>;

/// Relies on `image::codecs::png::PngEncoder::write_image`, writing RGBA8 into
/// memory: it encodes every picture whose edges are 1 to 256 pixels.
#[verifier::external_body]
fn png_encode(pixels: &[u8], width: u32, height: u32) -> (r: Result<Vec<u8>, image::ImageError>)
    requires
        pixels@.len() == 4 * width * height,
    ensures
        in_range(width) && in_range(height) ==> r is Ok,
        r is Ok ==> r->Ok_0@ == png_of(pixels@, width, height),
{
    let mut out: Vec<u8> = Vec::new();
    let encoder = image::codecs::png::PngEncoder::new(&mut out);
    match image::ImageEncoder::write_image(encoder, pixels, width, height, image::ColorType::Rgba8) {
        Ok(()) => Ok(out),
        Err(e) => Err(e),
    }
}

/// One compressed picture of an icon: its dimensions and its PNG stream.
pub struct Frame {
    pub width: u32,
    pub height: u32,
    pub png: Vec<u8>,
}

/// A frame as plain values: width, height and PNG stream.
pub open spec fn frame_view(f: Frame) -> (u32, u32, Seq<u8>) {
    (f.width, f.height, f.png@)
}

/// The frame made of `r`: its dimensions and the PNG stream of its pixels.
pub open spec fn is_frame_of(r: &Raster, f: &Frame) -> bool {
    &&& f.width == r.width
    &&& f.height == r.height
    &&& f.png@ == png_of(r.pixels@, r.width, r.height)
}

/// Compresses one raster into an icon frame; a container holds only frames
/// whose edges are 1 to 256 pixels.
pub fn encode_frame(r: &Raster) -> (f: Result<Frame, IconError>)
    requires
        r.wf(),
    ensures
        (in_range(r.width) && in_range(r.height)) <==> f is Ok,
        f is Ok ==> is_frame_of(r, &f->Ok_0),
        f is Err ==> f->Err_0 is FrameEncodeError,
{
    if !(1 <= r.width && r.width <= 256 && 1 <= r.height && r.height <= 256) {
        return Err(IconError::FrameEncodeError(String::from_str("icon frames must be 1 to 256 pixels wide and high")));
    }
    match png_encode(r.pixels.as_slice(), r.width, r.height) {
        Ok(png) => Ok(Frame { width: r.width, height: r.height, png }),
        Err(e) => Err(IconError::FrameEncodeError(e.to_string())),
    }
}

/// The frame of size `size` made of `src` with `filter`.
pub open spec fn frame_for(src: &Raster, size: u32, filter: ResampleFilter) -> (u32, u32, Seq<u8>) {
    (size, size, png_of(resampled(src.pixels@, src.width, src.height, size, backend_filter(filter)), size, size))
}

/// Resamples `src` to a `size` by `size` square and compresses it into a frame.
pub fn render_frame(src: &Raster, size: u32, filter: ResampleFilter) -> (f: Frame)
    requires
        src.wf(),
        in_range(size),
    ensures
        frame_view(f) == frame_for(src, size, filter),
{
    let r = resize_to(src, size, filter);
    match encode_frame(&r) {
        Ok(f) => f,
        Err(_) => {
            assert(false);
            Frame { width: size, height: size, png: Vec::new() }
        },
    }
}

/// The largest number of frames one container can index.
pub const MAX_FRAMES: usize = 65535;

/// The container starts with its header: two zero bytes, the icon type 1,
/// and the frame count, each as a little-endian 16-bit number.
pub open spec fn has_icon_header(bytes: Seq<u8>, count: nat) -> bool {
    &&& bytes.len() >= 6 + 16 * count
    &&& bytes[0] == 0
    &&& bytes[1] == 0
    &&& bytes[2] == 1
    &&& bytes[3] == 0
    &&& bytes[4] as nat == count % 256
    &&& bytes[5] as nat == count / 256
}

/// Directory entry `i` of the container starts with the width and height of
/// frame `i`, each as one byte (256 written as 0).
pub open spec fn has_entries(bytes: Seq<u8>, frames: Seq<(u32, u32, Seq<u8>)>) -> bool {
    forall|i: int|
        0 <= i < frames.len() ==> bytes[6 + 16 * i] as int == (#[trigger] frames[i]).0 % 256
            && bytes[7 + 16 * i] as int == frames[i].1 % 256
}

/// The container bytes that the `image` crate's icon encoder writes for the
/// given frames, each as width, height and PNG stream.
pub uninterp spec fn ico_of(frames: Seq<(u32, u32, Seq<u8>)>) -> Seq<u8>;

/// The frames of a slice, as plain values.
pub open spec fn frame_views(frames: Seq<Frame>) -> Seq<(u32, u32, Seq<u8>)> {
    frames.map_values(|f: Frame| frame_view(f))
}

/// The total length of the frames' PNG streams.
pub open spec fn png_total(frames: Seq<(u32, u32, Seq<u8>)>) -> int
    decreases frames.len(),
{
    if frames.len() == 0 {
        0
    } else {
        png_total(frames.drop_last()) + frames.last().2.len()
    }
}

/// The container's length: header, one 16-byte directory entry per frame,
/// and the PNG streams.
pub open spec fn container_len(frames: Seq<(u32, u32, Seq<u8>)>) -> int {
    6 + 16 * frames.len() + png_total(frames)
}

/// The container's offsets, kept as 32-bit numbers, can address all of it.
pub open spec fn container_fits(frames: Seq<(u32, u32, Seq<u8>)>) -> bool {
    container_len(frames) <= u32::MAX
}

/// Relies on `image::codecs::ico::IcoFrame::with_encoded` and
/// `IcoEncoder::encode_images`, writing into memory: frames of 1 to 256 pixels
/// are accepted; 1 to 65535 of them are written as the header, one 16-byte
/// directory entry per frame in order (width and height bytes first), and
/// the frames' data, with 32-bit offsets.
#[verifier::external_body]
fn write_container(frames: &[Frame]) -> (r: Result<Vec<u8>, image::ImageError>)
    requires
        forall|i: int| 0 <= i < frames@.len() ==> in_range(#[trigger] frames@[i].width) && in_range(frames@[i].height),
        container_fits(frame_views(frames@)),
    ensures
        (1 <= frames@.len() <= MAX_FRAMES) <==> r is Ok,
        r is Ok ==> r->Ok_0@ == ico_of(frame_views(frames@)),
        r is Ok ==> has_icon_header(r->Ok_0@, frames@.len()),
        r is Ok ==> has_entries(r->Ok_0@, frame_views(frames@)),
{
    let ico: Result<Vec<image::codecs::ico::IcoFrame<'static>>, image::ImageError> = frames
        .iter()
        .map(|f| image::codecs::ico::IcoFrame::with_encoded(f.png.clone(), f.width, f.height, image::ColorType::Rgba8))
        .collect();
    let mut out: Vec<u8> = Vec::new();
    match image::codecs::ico::IcoEncoder::new(&mut out).encode_images(&ico?) {
        Ok(()) => Ok(out),
        Err(e) => Err(e),
    }
}

/// Packs the frames, in order, into one icon container.
pub fn pack_icon(frames: &Vec<Frame>) -> (r: Result<Vec<u8>, IconError>)
    ensures
        (1 <= frames@.len() <= MAX_FRAMES
            && (forall|i: int| 0 <= i < frames@.len() ==> in_range(#[trigger] frames@[i].width) && in_range(frames@[i].height))
            && container_fits(frame_views(frames@))) <==> r is Ok,
        r is Ok ==> r->Ok_0@ == ico_of(frame_views(frames@)),
        r is Ok ==> has_icon_header(r->Ok_0@, frames@.len()),
        r is Ok ==> has_entries(r->Ok_0@, frame_views(frames@)),
        r is Err ==> r->Err_0 is ContainerWriteError,
{
    let ghost views = frame_views(frames@);
    let mut total: u64 = 6;
    let mut i: usize = 0;
    assert(views.take(0) =~= Seq::<(u32, u32, Seq<u8>)>::empty());
    assert(container_len(views.take(0)) == 6);
    while i < frames.len()
        invariant
            i <= frames@.len(),
            views == frame_views(frames@),
            forall|k: int| #![trigger frames@[k]] 0 <= k < i ==> in_range(frames@[k].width) && in_range(frames@[k].height),
            total as int == container_len(views.take(i as int)),
            total <= u32::MAX,
        decreases frames@.len() - i,
    {
        let w = frames[i].width;
        let h = frames[i].height;
        if !(1 <= w && w <= 256 && 1 <= h && h <= 256) {
            return Err(IconError::ContainerWriteError(String::from_str("icon frames must be 1 to 256 pixels wide and high")));
        }
        assert(in_range(frames@[i as int].width) && in_range(frames@[i as int].height));
        let len = frames[i].png.len();
        assert(views.take(i as int + 1).drop_last() =~= views.take(i as int));
        assert(views.take(i as int + 1).last() == frame_view(frames@[i as int]));
        assert(container_len(views.take(i as int + 1)) == total + 16 + len);
        if total > 0xffff_ffff_u64 - 16 || len as u64 > 0xffff_ffff_u64 - 16 - total {
            proof {
                lemma_png_total_grows(views, i as int + 1, views.len() as int);
                assert(views.take(views.len() as int) =~= views);
            }
            return Err(IconError::ContainerWriteError(String::from_str("the icon would exceed the container's 4 GiB limit")));
        }
        total = total + 16 + len as u64;
        i = i + 1;
    }
    assert(views.take(views.len() as int) =~= views);
    match write_container(frames.as_slice()) {
        Ok(bytes) => Ok(bytes),
        Err(e) => Err(IconError::ContainerWriteError(e.to_string())),
    }
}

/// Adding frames never shortens the PNG total.
proof fn lemma_png_total_grows(s: Seq<(u32, u32, Seq<u8>)>, i: int, j: int)
    requires
        0 <= i <= j <= s.len(),
    ensures
        png_total(s.take(i)) <= png_total(s.take(j)),
        container_len(s.take(i)) <= container_len(s.take(j)),
    decreases j - i,
{
    if i < j {
        lemma_png_total_grows(s, i, j - 1);
        assert(s.take(j).drop_last() =~= s.take(j - 1));
    }
}

/// The frames of an icon made of `src` for `sizes` with `filter`, in order.
pub open spec fn icon_frames(src: &Raster, sizes: Seq<u32>, filter: ResampleFilter) -> Seq<(u32, u32, Seq<u8>)> {
    sizes.map_values(|s: u32| frame_for(src, s, filter))
}

/// A finished icon container and the warnings raised while making it.
pub struct Icon {
    pub bytes: Vec<u8>,
    pub warnings: Vec<Warning>,
}

/// Turns a decoded source into an icon container holding one frame per size
/// of the cleaned list `sizes`, in ascending order. A non-square source and
/// one narrower than the largest size raise warnings, fatal under `strict`.
pub fn build_icon(src: &Raster, sizes: &Vec<u32>, filter: ResampleFilter, strict: bool) -> (r: Result<Icon, IconError>)
    requires
        src.wf(),
        sizes@.len() > 0,
        strictly_ascending(sizes@),
        forall|i: int| 0 <= i < sizes@.len() ==> in_range(#[trigger] sizes@[i]),
    ensures
        decoded_failure(src.width, src.height, sizes@.last(), strict) is Some ==> r == Err::<Icon, IconError>(
            decoded_failure(src.width, src.height, sizes@.last(), strict)->0,
        ),
        decoded_failure(src.width, src.height, sizes@.last(), strict) is None ==> (r is Ok <==> container_fits(
            icon_frames(src, sizes@, filter),
        )),
        r is Ok ==> r->Ok_0.warnings@ == decoded_warnings(src.width, src.height, sizes@.last()),
        r is Ok ==> r->Ok_0.bytes@ == ico_of(icon_frames(src, sizes@, filter)),
        r is Ok ==> has_icon_header(r->Ok_0.bytes@, sizes@.len()),
        r is Ok ==> forall|i: int| 0 <= i < sizes@.len() ==> r->Ok_0.bytes@[6 + 16 * i] as int == (#[trigger] sizes@[i]) % 256
            && r->Ok_0.bytes@[7 + 16 * i] as int == sizes@[i] % 256,
        r is Err ==> r->Err_0 is AbortedByWarning || r->Err_0 is ContainerWriteError,
{
    let largest = sizes[sizes.len() - 1];
    let warnings = check_decoded(src.width, src.height, largest, strict)?;
    let mut frames: Vec<Frame> = Vec::new();
    let mut i: usize = 0;
    while i < sizes.len()
        invariant
            src.wf(),
            forall|k: int| 0 <= k < sizes@.len() ==> in_range(#[trigger] sizes@[k]),
            i <= sizes@.len(),
            frames@.len() == i,
            forall|k: int| 0 <= k < i ==> frame_view(#[trigger] frames@[k]) == frame_for(src, sizes@[k], filter),
        decreases sizes@.len() - i,
    {
        let f = render_frame(src, sizes[i], filter);
        frames.push(f);
        i = i + 1;
    }
    assert(frame_views(frames@) =~= icon_frames(src, sizes@, filter));
    assert(sizes@.len() <= 256) by {
        crate::sizes::lemma_ascending_in_range_len(sizes@);
    }
    assert forall|k: int| 0 <= k < frames@.len() implies in_range(#[trigger] frames@[k].width) && in_range(frames@[k].height) by {
        assert(frame_view(frames@[k]) == frame_for(src, sizes@[k], filter));
    }
    let bytes = match pack_icon(&frames) {
        Ok(b) => b,
        Err(e) => return Err(e),
    };
    assert forall|k: int| 0 <= k < sizes@.len() implies bytes@[6 + 16 * k] as int == (#[trigger] sizes@[k]) % 256
        && bytes@[7 + 16 * k] as int == sizes@[k] % 256 by {
        assert(frame_views(frames@)[k] == frame_for(src, sizes@[k], filter));
    }
    Ok(Icon { bytes, warnings })
}

/// Two builds from the same pixels, sizes and filter give the same container:
/// the bytes are a function of those inputs alone.
pub proof fn rebuild_gives_same_bytes(a: &Raster, b: &Raster, sizes: Seq<u32>, filter: ResampleFilter)
    requires
        a.width == b.width,
        a.height == b.height,
        a.pixels@ == b.pixels@,
    ensures
        ico_of(icon_frames(a, sizes, filter)) == ico_of(icon_frames(b, sizes, filter)),
{
    assert(icon_frames(a, sizes, filter) =~= icon_frames(b, sizes, filter));
}

} // verus!
