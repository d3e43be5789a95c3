//! File-name rules: the stem and extension of a source file name, the name of
//! the icon written for it, and whether the source is a vector document.

use vstd::prelude::*;

verus! {

/// The suffix given to every icon container's file name.
pub open spec fn icon_suffix() -> Seq<char> {
    seq!['.', 'i', 'c', 'o']
}

/// Index of the last `'.'` among the first `k` characters of `name`, or -1.
pub open spec fn last_dot_before(name: Seq<char>, k: int) -> int
    decreases k,
{
    if k <= 0 {
        -1
    } else if name[k - 1] == '.' {
        k - 1
    } else {
        last_dot_before(name, k - 1)
    }
}

/// Where a file name splits into stem and extension, or -1 when it has no
/// extension: at the last dot, unless that dot leads the name or the name is
/// `".."`.
pub open spec fn split_dot(name: Seq<char>) -> int {
    if name == seq!['.', '.'] {
        -1
    } else {
        let d = last_dot_before(name, name.len() as int);
        if d <= 0 { -1 } else { d }
    }
}

/// The file name without its extension.
pub open spec fn stem_of(name: Seq<char>) -> Seq<char> {
    let d = split_dot(name);
    if d < 0 { name } else { name.subrange(0, d) }
}

/// The extension of a file name, without its dot.
pub open spec fn extension_of(name: Seq<char>) -> Option<Seq<char>> {
    let d = split_dot(name);
    if d < 0 { None } else { Some(name.subrange(d + 1, name.len() as int)) }
}

/// `c`, once lower-cased, is the ASCII letter `lower`.
pub open spec fn folds_to(c: char, lower: char) -> bool {
    c == lower || c as u32 + 32 == lower as u32
}

/// The extension names the vector format, in any letter case.
pub open spec fn is_vector_extension(ext: Seq<char>) -> bool {
    &&& ext.len() == 3
    &&& folds_to(ext[0], 's')
    &&& folds_to(ext[1], 'v')
    &&& folds_to(ext[2], 'g')
}

/// How a source file is decoded.
#[derive(Clone, Copy, Debug, PartialEq, Eq, Structural)]
pub enum SourceKind {
    /// Decoded by the raster codecs.
    Raster,
    /// Parsed as a vector document and rasterized.
    Vector,
}

/// The kind of a source, judged by its file name.
pub open spec fn kind_of(name: Seq<char>) -> SourceKind {
    match extension_of(name) {
        Some(ext) => if is_vector_extension(ext) { SourceKind::Vector } else { SourceKind::Raster },
        None => SourceKind::Raster,
    }
}

/// Index of the dot that splits `name`, or `None` when it has no extension.
fn find_split_dot(name: &str) -> (r: Option<usize>)
    ensures
        r is None <==> split_dot(name@) < 0,
        r is Some ==> r->0 as int == split_dot(name@) && r->0 < name@.len(),
{
    let n = name.unicode_len();
    let mut k: usize = n;
    while k > 0 && name.get_char(k - 1) != '.'
        invariant
            k <= n == name@.len(),
            last_dot_before(name@, n as int) == last_dot_before(name@, k as int),
        decreases k,
    {
        k = k - 1;
    }
    let ghost d = last_dot_before(name@, n as int);
    assert(d == k as int - 1);
    if n == 2 && name.get_char(0) == '.' && name.get_char(1) == '.' {
        assert(name@ =~= seq!['.', '.']);
        return None;
    }
    assert(name@ != seq!['.', '.']) by {
        if name@ == seq!['.', '.'] {
            assert(name@[0] == '.' && name@[1] == '.');
        }
    }
    if k <= 1 {
        None
    } else {
        Some(k - 1)
    }
}

/// The stem of a file name: what comes before its extension.
pub fn file_stem(name: &str) -> (r: String)
    ensures
        r@ == stem_of(name@),
{
    match find_split_dot(name) {
        None => String::from_str(name),
        Some(d) => String::from_str(name.substring_char(0, d)),
    }
}

/// The extension of a file name, without its dot.
pub fn file_extension(name: &str) -> (r: Option<String>)
    ensures
        r is None <==> extension_of(name@) is None,
        r is Some ==> extension_of(name@) == Some(r->0@),
{
    let n = name.unicode_len();
    match find_split_dot(name) {
        None => None,
        Some(d) => Some(String::from_str(name.substring_char(d + 1, n))),
    }
}

/// The icon written for a source file: the source's stem with the container
/// extension.
pub fn output_file_name(name: &str) -> (r: String)
    ensures
        r@ == stem_of(name@) + icon_suffix(),
{
    let stem = file_stem(name);
    proof {
        reveal_strlit(".ico");
    }
    let r = stem.concat(".ico");
    assert(".ico"@ =~= icon_suffix());
    r
}

/// Whether an extension names the vector format, in any letter case.
fn vector_extension(ext: &str) -> (r: bool)
    ensures
        r == is_vector_extension(ext@),
{
    if ext.unicode_len() != 3 {
        return false;
    }
    let a = ext.get_char(0);
    let b = ext.get_char(1);
    let c = ext.get_char(2);
    (a == 's' || a == 'S') && (b == 'v' || b == 'V') && (c == 'g' || c == 'G')
}

/// How the source named `name` is decoded: as a vector document when its
/// extension is the vector format's, in any letter case; as a raster otherwise.
pub fn source_kind(name: &str) -> (r: SourceKind)
    ensures
        r == kind_of(name@),
{
    match file_extension(name) {
        Some(ext) => if vector_extension(ext.as_str()) {
            SourceKind::Vector
        } else {
            SourceKind::Raster
        },
        None => SourceKind::Raster,
    }
}

} // verus!
