//! The resampling filters offered to users, and their image-backend names.

use vstd::prelude::*;

verus! {

/// The resampling filter enumeration of the `image` crate.
#[verifier::external_type_specification]
pub struct ExImageFilterType(image::imageops::FilterType);

/// Image re-sampling filter types.
#[derive(Clone, Copy, Debug, PartialEq, Eq, Structural)]
pub enum ResampleFilter {
    /// Nearest-neighbour re-sampling
    Nearest,
    /// Linear (triangle) re-sampling
    Triangle,
    /// Cubic (Catmull-Rom) re-sampling
    Cubic,
    /// Gaussian re-sampling
    Gaussian,
    /// Lanczos re-sampling with window 3
    Lanczos,
}

/// The backend filter that each user-facing filter names.
pub open spec fn backend_filter(t: ResampleFilter) -> image::imageops::FilterType {
    match t {
        ResampleFilter::Nearest => image::imageops::FilterType::Nearest,
        ResampleFilter::Triangle => image::imageops::FilterType::Triangle,
        ResampleFilter::Cubic => image::imageops::FilterType::CatmullRom,
        ResampleFilter::Gaussian => image::imageops::FilterType::Gaussian,
        ResampleFilter::Lanczos => image::imageops::FilterType::Lanczos3,
    }
}

impl Default for ResampleFilter {
    /// Cubic re-sampling.
    fn default() -> (r: ResampleFilter)
        ensures
            r == ResampleFilter::Cubic,
    {
        ResampleFilter::Cubic
    }
}

impl From<ResampleFilter> for image::imageops::FilterType {
    fn from(t: ResampleFilter) -> (r: image::imageops::FilterType) {
        match t {
            ResampleFilter::Nearest => image::imageops::FilterType::Nearest,
            ResampleFilter::Triangle => image::imageops::FilterType::Triangle,
            ResampleFilter::Cubic => image::imageops::FilterType::CatmullRom,
            ResampleFilter::Gaussian => image::imageops::FilterType::Gaussian,
            ResampleFilter::Lanczos => image::imageops::FilterType::Lanczos3,
        }
    }
}

impl vstd::std_specs::convert::FromSpecImpl<ResampleFilter> for image::imageops::FilterType {
    open spec fn obeys_from_spec() -> bool {
        true
    }

    open spec fn from_spec(t: ResampleFilter) -> image::imageops::FilterType {
        backend_filter(t)
    }
}

} // verus!
