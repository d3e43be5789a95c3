use icogen::filter::ResampleFilter;
use image::imageops::FilterType as B;
use icogen::naming::{file_extension, file_stem, output_file_name, source_kind, SourceKind};
use icogen::sizes::{clean_sizes, largest};

#[test]
fn cleaning_sorts_dedups_and_drops_out_of_range() {
    let r = clean_sizes(&vec![64, 16, 300, 0, 16]);
    assert_eq!(r.kept, vec![16, 64]);
    assert_eq!(r.removed, vec![0, 300]);
}

#[test]
fn cleaning_keeps_range_edges() {
    let r = clean_sizes(&vec![257, 256, 1, 0, 256, 1]);
    assert_eq!(r.kept, vec![1, 256]);
    assert_eq!(r.removed, vec![0, 257]);
}

#[test]
fn cleaning_empty_list() {
    let r = clean_sizes(&vec![]);
    assert!(r.kept.is_empty());
    assert!(r.removed.is_empty());
}

#[test]
fn cleaning_default_sizes_keeps_them_all() {
    let defaults = vec![16, 20, 24, 32, 40, 48, 64, 96, 128, 256];
    let r = clean_sizes(&defaults);
    assert_eq!(r.kept, defaults);
    assert!(r.removed.is_empty());
}

#[test]
fn cleaning_is_order_insensitive() {
    let a = clean_sizes(&vec![48, 16, 32, 16]);
    let b = clean_sizes(&vec![16, 32, 48]);
    assert_eq!(a.kept, b.kept);
}

#[test]
fn dropped_sizes_are_sorted_with_repeats() {
    let r = clean_sizes(&vec![900, 0, 300, 0, 16]);
    assert_eq!(r.kept, vec![16]);
    assert_eq!(r.removed, vec![0, 0, 300, 900]);
}

#[test]
fn all_out_of_range_sizes_leave_nothing() {
    let r = clean_sizes(&vec![0, 500]);
    assert!(r.kept.is_empty());
    assert_eq!(r.removed, vec![0, 500]);
}

#[test]
fn largest_is_last_of_cleaned() {
    assert_eq!(largest(&vec![16, 32, 256]), 256);
}

#[test]
fn output_name_replaces_extension() {
    assert_eq!(output_file_name("logo.png"), "logo.ico");
    assert_eq!(output_file_name("archive.tar.gz"), "archive.tar.ico");
    assert_eq!(output_file_name("plain"), "plain.ico");
    assert_eq!(output_file_name(".hidden"), ".hidden.ico");
    assert_eq!(output_file_name("dot."), "dot.ico");
}

#[test]
fn stem_and_extension_follow_path_rules() {
    assert_eq!(file_stem("a.b.c"), "a.b");
    assert_eq!(file_extension("a.b.c"), Some("c".to_string()));
    assert_eq!(file_extension(".hidden"), None);
    assert_eq!(file_extension(".."), None);
    assert_eq!(file_stem(".."), "..");
    assert_eq!(file_extension("dot."), Some(String::new()));
    assert_eq!(file_stem("\u{e9}t\u{e9}.png"), "\u{e9}t\u{e9}");
}

#[test]
fn vector_sources_are_recognised_case_insensitively() {
    assert_eq!(source_kind("icon.svg"), SourceKind::Vector);
    assert_eq!(source_kind("ICON.SVG"), SourceKind::Vector);
    assert_eq!(source_kind("icon.SvG"), SourceKind::Vector);
    assert_eq!(source_kind("icon.png"), SourceKind::Raster);
    assert_eq!(source_kind("icon.svgz"), SourceKind::Raster);
    assert_eq!(source_kind("svg"), SourceKind::Raster);
    assert_eq!(source_kind(".svg"), SourceKind::Raster);
}

#[test]
fn default_filter_is_cubic() {
    assert_eq!(ResampleFilter::default(), ResampleFilter::Cubic);
}

#[test]
fn filters_map_to_backend_filters() {
    assert_eq!(B::from(ResampleFilter::Nearest), B::Nearest);
    assert_eq!(B::from(ResampleFilter::Triangle), B::Triangle);
    assert_eq!(B::from(ResampleFilter::Cubic), B::CatmullRom);
    assert_eq!(B::from(ResampleFilter::Gaussian), B::Gaussian);
    assert_eq!(B::from(ResampleFilter::Lanczos), B::Lanczos3);
}
