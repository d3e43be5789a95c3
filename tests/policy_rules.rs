use icogen::policy::{check_decoded, raise, validate, IconError, Warning};

#[test]
fn missing_source_is_not_a_file() {
    let r = validate(false, false, &vec![16], false);
    assert!(matches!(r, Err(IconError::NotAFile)));
}

#[test]
fn existing_output_warns_then_continues() {
    let plan = validate(true, true, &vec![32, 16], false).unwrap();
    assert_eq!(plan.sizes, vec![16, 32]);
    assert!(plan.has_work());
    assert_eq!(plan.warnings, vec![Warning::OutputExists]);
}

#[test]
fn existing_output_aborts_under_strict() {
    let r = validate(true, true, &vec![16], true);
    assert_eq!(r.err(), Some(IconError::AbortedByWarning(Warning::OutputExists)));
}

#[test]
fn clamped_sizes_warn_with_the_dropped_values() {
    let plan = validate(true, false, &vec![64, 16, 300, 0, 16], false).unwrap();
    assert_eq!(plan.sizes, vec![16, 64]);
    assert_eq!(plan.removed, vec![0, 300]);
    assert_eq!(plan.warnings, vec![Warning::SizesClamped]);
}

#[test]
fn clamped_sizes_abort_under_strict() {
    let r = validate(true, false, &vec![16, 300], true);
    assert_eq!(r.err(), Some(IconError::AbortedByWarning(Warning::SizesClamped)));
}

#[test]
fn all_sizes_out_of_range_is_a_no_op() {
    let plan = validate(true, false, &vec![0, 500], false).unwrap();
    assert!(plan.sizes.is_empty());
    assert!(!plan.has_work());
    assert_eq!(plan.removed, vec![0, 500]);
    assert_eq!(plan.warnings, vec![Warning::SizesClamped]);
}

#[test]
fn second_run_differs_only_by_overwrite_warning() {
    let first = validate(true, false, &vec![16, 300, 32], false).unwrap();
    let second = validate(true, true, &vec![16, 300, 32], false).unwrap();
    assert_eq!(first.sizes, second.sizes);
    assert_eq!(first.warnings, vec![Warning::SizesClamped]);
    assert_eq!(second.warnings, vec![Warning::OutputExists, Warning::SizesClamped]);
}

#[test]
fn warnings_in_order_when_not_strict() {
    let w = check_decoded(100, 50, 128, false).unwrap();
    assert_eq!(w, vec![Warning::NonSquareInput, Warning::UpscaleRequested]);
}

#[test]
fn square_large_source_raises_nothing() {
    assert_eq!(check_decoded(256, 256, 256, true).unwrap(), vec![]);
}

#[test]
fn non_square_aborts_first_under_strict() {
    let r = check_decoded(100, 50, 128, true);
    assert_eq!(r.err(), Some(IconError::AbortedByWarning(Warning::NonSquareInput)));
}

#[test]
fn upscale_aborts_under_strict() {
    let r = check_decoded(128, 128, 256, true);
    assert_eq!(r.err(), Some(IconError::AbortedByWarning(Warning::UpscaleRequested)));
}

#[test]
fn raise_records_or_stops() {
    let mut ledger = vec![Warning::OutputExists];
    assert!(raise(&mut ledger, Warning::UpscaleRequested, false).is_ok());
    assert_eq!(ledger, vec![Warning::OutputExists, Warning::UpscaleRequested]);
    let r = raise(&mut ledger, Warning::NonSquareInput, true);
    assert_eq!(r, Err(IconError::AbortedByWarning(Warning::NonSquareInput)));
    assert_eq!(ledger.len(), 2);
}
