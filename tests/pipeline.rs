use icogen::filter::ResampleFilter;
use icogen::icon::{build_icon, encode_frame, pack_icon, render_frame, resize_all, resize_to};
use icogen::policy::{IconError, Warning};
use icogen::raster::{check_natural_size, decode_raster, rasterize_vector, Raster};

fn gradient(width: u32, height: u32) -> Raster {
    let mut pixels = Vec::new();
    for y in 0..height {
        for x in 0..width {
            pixels.push((x * 7 % 256) as u8);
            pixels.push((y * 5 % 256) as u8);
            pixels.push(((x + y) % 256) as u8);
            pixels.push(255);
        }
    }
    Raster::new(width, height, pixels).unwrap()
}

fn png_bytes(width: u32, height: u32) -> Vec<u8> {
    let img = image::RgbaImage::from_pixel(width, height, image::Rgba([10, 20, 30, 255]));
    let mut out = std::io::Cursor::new(Vec::new());
    image::DynamicImage::ImageRgba8(img).write_to(&mut out, image::ImageFormat::Png).unwrap();
    out.into_inner()
}

fn entry_sizes(bytes: &[u8]) -> Vec<u32> {
    let count = u16::from_le_bytes([bytes[4], bytes[5]]) as usize;
    (0..count)
        .map(|i| {
            let w = bytes[6 + 16 * i] as u32;
            if w == 0 { 256 } else { w }
        })
        .collect()
}

const SQUARE_SVG: &str = "<svg xmlns=\"http://www.w3.org/2000/svg\" width=\"64\" height=\"64\" viewBox=\"0 0 64 64\"><rect x=\"8\" y=\"8\" width=\"48\" height=\"48\" fill=\"#336699\"/></svg>";
const WIDE_SVG: &str = "<svg xmlns=\"http://www.w3.org/2000/svg\" width=\"80\" height=\"40\"><rect width=\"80\" height=\"40\" fill=\"red\"/></svg>";

#[test]
fn raster_new_checks_buffer_length() {
    assert!(Raster::new(2, 2, vec![0; 16]).is_some());
    assert!(Raster::new(2, 2, vec![0; 15]).is_none());
    assert!(Raster::new(0, 2, vec![]).is_none());
}

#[test]
fn decodes_png_by_extension() {
    let r = decode_raster(&png_bytes(3, 2), "pic.PNG").unwrap();
    assert_eq!((r.width, r.height), (3, 2));
    assert_eq!(r.pixels.len(), 24);
    assert_eq!(&r.pixels[0..4], &[10, 20, 30, 255]);
}

#[test]
fn garbage_is_a_decode_error() {
    assert!(matches!(decode_raster(b"not an image", "x.png"), Err(IconError::DecodeError(_))));
}

#[test]
fn unknown_extension_is_a_decode_error() {
    assert!(matches!(decode_raster(&png_bytes(2, 2), "x.unknownext"), Err(IconError::DecodeError(_))));
    assert!(matches!(decode_raster(&png_bytes(2, 2), "noextension"), Err(IconError::DecodeError(_))));
}

#[test]
fn resize_gives_exact_square() {
    let src = gradient(5, 3);
    let r = resize_to(&src, 8, ResampleFilter::Cubic);
    assert_eq!((r.width, r.height), (8, 8));
    assert_eq!(r.pixels.len(), 8 * 8 * 4);
}

#[test]
fn resize_all_follows_size_list() {
    let src = gradient(32, 32);
    let sizes = vec![1, 16, 20, 64];
    let out = resize_all(&src, &sizes, ResampleFilter::Lanczos);
    assert_eq!(out.len(), 4);
    for (r, s) in out.iter().zip(sizes.iter()) {
        assert_eq!((r.width, r.height), (*s, *s));
        assert_eq!(r.pixels.len() as u32, 4 * s * s);
    }
}

#[test]
fn resize_is_deterministic() {
    let src = gradient(40, 40);
    let a = resize_to(&src, 16, ResampleFilter::Gaussian);
    let b = resize_to(&src, 16, ResampleFilter::Gaussian);
    assert_eq!(a.pixels, b.pixels);
}

#[test]
fn frame_wider_than_container_allows_fails() {
    let wide = Raster::new(300, 1, vec![0; 1200]).unwrap();
    assert!(matches!(encode_frame(&wide), Err(IconError::FrameEncodeError(_))));
}

#[test]
fn packing_no_frames_fails() {
    assert!(matches!(pack_icon(&vec![]), Err(IconError::ContainerWriteError(_))));
}

#[test]
fn packing_writes_header_and_directory() {
    let src = gradient(8, 8);
    let frames = vec![render_frame(&src, 4, ResampleFilter::Nearest), render_frame(&src, 8, ResampleFilter::Nearest)];
    let bytes = pack_icon(&frames).unwrap();
    assert_eq!(&bytes[0..6], &[0, 0, 1, 0, 2, 0]);
    assert_eq!(entry_sizes(&bytes), vec![4, 8]);
}

#[test]
fn square_raster_with_upscale_warning() {
    let src = gradient(128, 128);
    let icon = build_icon(&src, &vec![16, 32, 256], ResampleFilter::Cubic, false).unwrap();
    assert_eq!(icon.warnings, vec![Warning::UpscaleRequested]);
    assert_eq!(&icon.bytes[0..6], &[0, 0, 1, 0, 3, 0]);
    assert_eq!(entry_sizes(&icon.bytes), vec![16, 32, 256]);
}

#[test]
fn strict_build_stops_on_upscale() {
    let src = gradient(128, 128);
    let r = build_icon(&src, &vec![16, 256], ResampleFilter::Cubic, true);
    assert!(matches!(r, Err(IconError::AbortedByWarning(Warning::UpscaleRequested))));
}

#[test]
fn strict_build_stops_on_non_square() {
    let src = gradient(64, 32);
    let r = build_icon(&src, &vec![16], ResampleFilter::Cubic, true);
    assert!(matches!(r, Err(IconError::AbortedByWarning(Warning::NonSquareInput))));
}

#[test]
fn building_twice_gives_identical_bytes() {
    let src = gradient(64, 64);
    let a = build_icon(&src, &vec![16, 32, 48], ResampleFilter::Cubic, false).unwrap();
    let b = build_icon(&src, &vec![16, 32, 48], ResampleFilter::Cubic, false).unwrap();
    assert_eq!(a.bytes, b.bytes);
}

#[test]
fn square_vector_source_strict() {
    let options = usvg::Options::default();
    let mut ledger = Vec::new();
    let raster = rasterize_vector(SQUARE_SVG.as_bytes(), &options, 64, true, &mut ledger).unwrap();
    assert_eq!((raster.width, raster.height), (64, 64));
    assert!(ledger.is_empty());
    let icon = build_icon(&raster, &vec![16, 64], ResampleFilter::Cubic, true).unwrap();
    assert!(icon.warnings.is_empty());
    assert_eq!(entry_sizes(&icon.bytes), vec![16, 64]);
}

#[test]
fn vector_rendered_at_largest_size() {
    let options = usvg::Options::default();
    let mut ledger = Vec::new();
    let raster = rasterize_vector(SQUARE_SVG.as_bytes(), &options, 128, false, &mut ledger).unwrap();
    assert_eq!((raster.width, raster.height), (128, 128));
    let center = (64 * 128 + 64) * 4;
    assert_eq!(&raster.pixels[center..center + 4], &[0x33, 0x66, 0x99, 255]);
    assert_eq!(&raster.pixels[0..4], &[0, 0, 0, 0]);
}

#[test]
fn wide_vector_source_warns() {
    let options = usvg::Options::default();
    let mut ledger = Vec::new();
    let raster = rasterize_vector(WIDE_SVG.as_bytes(), &options, 32, false, &mut ledger).unwrap();
    assert_eq!((raster.width, raster.height), (32, 32));
    assert_eq!(ledger, vec![Warning::NonSquareInput]);
}

#[test]
fn wide_vector_source_aborts_under_strict() {
    let options = usvg::Options::default();
    let mut ledger = Vec::new();
    let r = rasterize_vector(WIDE_SVG.as_bytes(), &options, 32, true, &mut ledger);
    assert!(matches!(r, Err(IconError::AbortedByWarning(Warning::NonSquareInput))));
    assert!(ledger.is_empty());
}

#[test]
fn malformed_vector_source_is_a_parse_error() {
    let options = usvg::Options::default();
    let mut ledger = Vec::new();
    let r = rasterize_vector(b"<svg", &options, 32, false, &mut ledger);
    assert!(matches!(r, Err(IconError::SvgParseError(_))));
}

#[test]
fn frame_is_png_of_raster() {
    let src = gradient(16, 16);
    let f = encode_frame(&src).unwrap();
    assert_eq!((f.width, f.height), (16, 16));
    assert_eq!(&f.png[0..8], &[0x89, b'P', b'N', b'G', 0x0d, 0x0a, 0x1a, 0x0a]);
    let back = decode_raster(&f.png, "frame.png").unwrap();
    assert_eq!(back.pixels, src.pixels);
}

#[test]
fn rendered_frame_has_requested_size() {
    let src = gradient(30, 20);
    let f = render_frame(&src, 24, ResampleFilter::Triangle);
    assert_eq!((f.width, f.height), (24, 24));
}

#[test]
fn natural_size_check_follows_strictness() {
    let mut ledger = Vec::new();
    assert!(check_natural_size(64, 64, true, &mut ledger).is_ok());
    assert!(ledger.is_empty());
    assert!(check_natural_size(80, 40, false, &mut ledger).is_ok());
    assert_eq!(ledger, vec![Warning::NonSquareInput]);
    let r = check_natural_size(80, 40, true, &mut ledger);
    assert_eq!(r, Err(IconError::AbortedByWarning(Warning::NonSquareInput)));
    assert_eq!(ledger.len(), 1);
}

#[test]
fn jpeg_extension_selects_jpeg_decoder() {
    assert!(matches!(decode_raster(&png_bytes(2, 2), "photo.JPG"), Err(IconError::DecodeError(_))));
}
