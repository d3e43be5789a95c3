//! Conversion of one raster or vector image into a multi-resolution icon
//! container: size-list cleaning, warning policy, decoding, resampling and
//! container packing.

pub mod filter;
pub mod icon;
pub mod naming;
pub mod policy;
pub mod raster;
pub mod sizes;
