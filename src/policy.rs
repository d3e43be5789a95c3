//! Warnings, errors, and the rule that decides when a warning stops the
//! conversion.

use vstd::prelude::*;
use crate::sizes::{clean_sizes, in_range, is_cleaned, is_sorted_removed, removed_of, CleanedSizes};

verus! {

/// An advisory condition met on the way; fatal under strict mode.
#[derive(Clone, Copy, Debug, PartialEq, Eq, Structural)]
pub enum Warning {
    /// The icon file that would be written already exists.
    OutputExists,
    /// Some requested sizes lay outside the supported range and were dropped.
    SizesClamped,
    /// The source is not square and will be stretched.
    NonSquareInput,
    /// A requested size is larger than the source.
    UpscaleRequested,
}

/// Why a conversion stopped.
#[derive(Clone, Debug, PartialEq, Eq)]
pub enum IconError {
    /// The source path is not an existing regular file.
    NotAFile,
    /// Strict mode turned this warning into a failure.
    AbortedByWarning(Warning),
    /// The raster source could not be decoded; the cause is attached.
    DecodeError(String),
    /// The decoded source has no pixels.
    EmptyImage,
    /// The vector source could not be parsed; the cause is attached.
    SvgParseError(String),
    /// The vector source could not be rendered.
    RasterizeError,
    /// A frame could not be encoded; the cause is attached.
    FrameEncodeError(String),
    /// The container could not be assembled; the cause is attached.
    ContainerWriteError(String),
}

/// Records `w`, or stops with it when `strict` is set.
pub fn raise(ledger: &mut Vec<Warning>, w: Warning, strict: bool) -> (r: Result<(), IconError>)
    ensures
        strict ==> r == Err::<(), IconError>(IconError::AbortedByWarning(w)) && final(ledger)@ == old(ledger)@,
        !strict ==> r is Ok && final(ledger)@ == old(ledger)@.push(w),
{
    if strict {
        Err(IconError::AbortedByWarning(w))
    } else {
        ledger.push(w);
        Ok(())
    }
}

/// `w` when `cond` holds, nothing otherwise.
pub open spec fn warn_if(cond: bool, w: Warning) -> Seq<Warning> {
    if cond { seq![w] } else { seq![] }
}

/// The warnings of a validation that went through, in the order they are met.
pub open spec fn validation_warnings(output_exists: bool, removed: Seq<u32>) -> Seq<Warning> {
    warn_if(output_exists, Warning::OutputExists) + warn_if(removed.len() > 0, Warning::SizesClamped)
}

/// The failure a validation ends in, if any.
pub open spec fn validation_failure(
    source_is_file: bool,
    output_exists: bool,
    sizes: Seq<u32>,
    strict: bool,
) -> Option<IconError> {
    if !source_is_file {
        Some(IconError::NotAFile)
    } else if strict && output_exists {
        Some(IconError::AbortedByWarning(Warning::OutputExists))
    } else if strict && removed_of(sizes).len() > 0 {
        Some(IconError::AbortedByWarning(Warning::SizesClamped))
    } else {
        None
    }
}

/// What validation hands on: the cleaned sizes, the dropped requests, and the
/// warnings raised. Empty `sizes` means there is nothing to convert.
pub struct Plan {
    pub sizes: Vec<u32>,
    pub removed: Vec<u32>,
    pub warnings: Vec<Warning>,
}

impl Plan {
    /// Whether any size is left to convert; with none, the conversion ends
    /// successfully without writing anything.
    pub fn has_work(&self) -> (r: bool)
        ensures
            r == (self.sizes@.len() > 0),
    {
        self.sizes.len() > 0
    }
}

/// Checks the request before any decoding: the source must be a file; an
/// existing output and dropped sizes are warnings, fatal under `strict`.
pub fn validate(source_is_file: bool, output_exists: bool, sizes: &Vec<u32>, strict: bool) -> (r: Result<Plan, IconError>)
    ensures
        validation_failure(source_is_file, output_exists, sizes@, strict) is Some ==> r == Err::<Plan, IconError>(
            validation_failure(source_is_file, output_exists, sizes@, strict)->0,
        ),
        validation_failure(source_is_file, output_exists, sizes@, strict) is None ==> r is Ok,
        r is Ok ==> is_cleaned(sizes@, r->Ok_0.sizes@),
        r is Ok ==> is_sorted_removed(sizes@, r->Ok_0.removed@),
        r is Ok ==> r->Ok_0.warnings@ == validation_warnings(output_exists, removed_of(sizes@)),
{
    if !source_is_file {
        return Err(IconError::NotAFile);
    }
    let mut warnings: Vec<Warning> = Vec::new();
    if output_exists {
        raise(&mut warnings, Warning::OutputExists, strict)?;
    }
    let CleanedSizes { kept, removed } = clean_sizes(sizes);
    if removed.len() > 0 {
        raise(&mut warnings, Warning::SizesClamped, strict)?;
    }
    assert(warnings@ =~= validation_warnings(output_exists, removed_of(sizes@)));
    Ok(Plan { sizes: kept, removed, warnings })
}

/// The warnings raised on a decoded source of the given dimensions, for a
/// cleaned size list whose largest value is `largest`.
pub open spec fn decoded_warnings(width: u32, height: u32, largest: u32) -> Seq<Warning> {
    warn_if(width != height, Warning::NonSquareInput) + warn_if(width < largest, Warning::UpscaleRequested)
}

/// The failure that checking a decoded source ends in, if any.
pub open spec fn decoded_failure(width: u32, height: u32, largest: u32, strict: bool) -> Option<IconError> {
    if strict && width != height {
        Some(IconError::AbortedByWarning(Warning::NonSquareInput))
    } else if strict && width < largest {
        Some(IconError::AbortedByWarning(Warning::UpscaleRequested))
    } else {
        None
    }
}

/// Checks a decoded source against the sizes asked of it: a non-square source
/// and one narrower than the largest size are warnings, fatal under `strict`.
pub fn check_decoded(width: u32, height: u32, largest: u32, strict: bool) -> (r: Result<Vec<Warning>, IconError>)
    ensures
        decoded_failure(width, height, largest, strict) is Some ==> r == Err::<Vec<Warning>, IconError>(
            decoded_failure(width, height, largest, strict)->0,
        ),
        decoded_failure(width, height, largest, strict) is None ==> r is Ok,
        r is Ok ==> r->Ok_0@ == decoded_warnings(width, height, largest),
{
    let mut warnings: Vec<Warning> = Vec::new();
    if width != height {
        raise(&mut warnings, Warning::NonSquareInput, strict)?;
    }
    if width < largest {
        raise(&mut warnings, Warning::UpscaleRequested, strict)?;
    }
    assert(warnings@ =~= decoded_warnings(width, height, largest));
    Ok(warnings)
}

/// Strict mode fails fast at validation: wherever validation would go on with
/// a warning, strict mode stops instead, on the first of those warnings.
pub proof fn strict_validation_escalates_first_warning(output_exists: bool, sizes: Seq<u32>)
    requires
        validation_warnings(output_exists, removed_of(sizes)).len() > 0,
    ensures
        validation_failure(true, output_exists, sizes, false) is None,
        validation_failure(true, output_exists, sizes, true) == Some(
            IconError::AbortedByWarning(validation_warnings(output_exists, removed_of(sizes))[0]),
        ),
{
}

/// Strict mode fails fast on a decoded source: wherever the check would go on
/// with a warning, strict mode stops instead, on the first of those warnings.
pub proof fn strict_decoding_escalates_first_warning(width: u32, height: u32, largest: u32)
    requires
        decoded_warnings(width, height, largest).len() > 0,
    ensures
        decoded_failure(width, height, largest, false) is None,
        decoded_failure(width, height, largest, true) == Some(
            IconError::AbortedByWarning(decoded_warnings(width, height, largest)[0]),
        ),
{
}

/// Whatever goes through under strict mode raised no warning.
pub proof fn strict_success_is_warning_free(output_exists: bool, sizes: Seq<u32>, width: u32, height: u32, largest: u32)
    ensures
        validation_failure(true, output_exists, sizes, true) is None ==> validation_warnings(output_exists, removed_of(sizes)).len() == 0,
        decoded_failure(width, height, largest, true) is None ==> decoded_warnings(width, height, largest).len() == 0,
{
}

/// Running again once the icon exists: outside strict mode the second
/// validation goes through like the first, with the same sizes, and its
/// warnings are the first run's preceded by the overwrite warning.
pub proof fn rerun_adds_only_overwrite_warning(sizes: Seq<u32>, kept1: Seq<u32>, kept2: Seq<u32>)
    requires
        is_cleaned(sizes, kept1),
        is_cleaned(sizes, kept2),
    ensures
        validation_failure(true, false, sizes, false) is None,
        validation_failure(true, true, sizes, false) is None,
        kept1 == kept2,
        validation_warnings(true, removed_of(sizes)) == seq![Warning::OutputExists] + validation_warnings(
            false,
            removed_of(sizes),
        ),
{
    crate::sizes::cleaning_ignores_order_and_repeats(sizes, sizes, kept1, kept2);
    assert(validation_warnings(true, removed_of(sizes)) =~= seq![Warning::OutputExists] + validation_warnings(
        false,
        removed_of(sizes),
    ));
}

/// A request whose sizes all lie out of range validates, outside strict mode,
/// to an empty size list with the dropped-sizes warning: nothing to convert.
pub proof fn all_out_of_range_is_a_no_op(output_exists: bool, sizes: Seq<u32>, kept: Seq<u32>)
    requires
        sizes.len() > 0,
        forall|i: int| 0 <= i < sizes.len() ==> !in_range(#[trigger] sizes[i]),
        is_cleaned(sizes, kept),
    ensures
        validation_failure(true, output_exists, sizes, false) is None,
        kept.len() == 0,
        validation_warnings(output_exists, removed_of(sizes)).last() == Warning::SizesClamped,
{
    crate::sizes::all_out_of_range_leaves_nothing(sizes, kept);
}

} // verus!
