use loda_rust::prevent_flooding::{PreventFlooding, PreventFloodingError};
use loda_rust::register_value::RegisterValue;

fn values(terms: &[i64]) -> Vec<RegisterValue> {
    terms.iter().map(|term| RegisterValue::from_i64(*term)).collect()
}

#[test]
fn same_fingerprint_within_the_window_is_submitted_once() {
    let mut tracker = PreventFlooding::new(1000);
    assert_eq!(tracker.expiry_window(), 1000);
    let fingerprint = values(&[5, 4, -5]);
    let mut persisted = 0;
    for now in [5000u64, 5001, 5999] {
        if tracker.try_register(&fingerprint, now).is_ok() {
            persisted += 1;
        }
    }
    assert_eq!(persisted, 1);
    assert_eq!(
        tracker.try_register(&fingerprint, 5500),
        Err(PreventFloodingError::AlreadyRegistered)
    );
    assert_eq!(PreventFloodingError::AlreadyRegistered.to_string(), "Already registered");
}

#[test]
fn fingerprint_is_accepted_again_after_the_window() {
    let mut tracker = PreventFlooding::new(1000);
    let fingerprint = values(&[5, 4, -5]);
    assert_eq!(tracker.try_register(&fingerprint, 5000), Ok(()));
    assert!(!tracker.is_accepted(&fingerprint, 5999));
    assert!(tracker.is_accepted(&fingerprint, 6000));
    assert_eq!(tracker.try_register(&fingerprint, 6000), Ok(()));
    // The window now runs from the second accepted submission.
    assert_eq!(
        tracker.try_register(&fingerprint, 6999),
        Err(PreventFloodingError::AlreadyRegistered)
    );
    assert_eq!(tracker.try_register(&fingerprint, 7000), Ok(()));
    // A refused submission does not extend the window.
    assert_eq!(
        tracker.try_register(&fingerprint, 7999),
        Err(PreventFloodingError::AlreadyRegistered)
    );
    assert_eq!(tracker.try_register(&fingerprint, 8000), Ok(()));
}

#[test]
fn fingerprints_do_not_disturb_each_other() {
    let mut tracker = PreventFlooding::new(10);
    assert_eq!(tracker.try_register(&values(&[1, 2]), 100), Ok(()));
    assert_eq!(tracker.try_register(&values(&[1, 2, 3]), 101), Ok(()));
    assert_eq!(tracker.try_register(&values(&[2, 1]), 102), Ok(()));
    assert_eq!(tracker.try_register(&values(&[]), 103), Ok(()));
    assert_eq!(
        tracker.try_register(&values(&[1, 2]), 109),
        Err(PreventFloodingError::AlreadyRegistered)
    );
    assert_eq!(tracker.try_register(&values(&[1, 2]), 110), Ok(()));
    assert_eq!(
        tracker.try_register(&values(&[1, 2, 3]), 110),
        Err(PreventFloodingError::AlreadyRegistered)
    );
    assert_eq!(tracker.try_register(&values(&[]), 113), Ok(()));
}

#[test]
fn clock_that_runs_backwards_and_extreme_windows() {
    let mut tracker = PreventFlooding::new(10);
    let fingerprint = values(&[7]);
    assert_eq!(tracker.try_register(&fingerprint, 100), Ok(()));
    assert_eq!(
        tracker.try_register(&fingerprint, 50),
        Err(PreventFloodingError::AlreadyRegistered)
    );
    let mut forever = PreventFlooding::new(u64::MAX);
    assert_eq!(forever.try_register(&fingerprint, 1), Ok(()));
    assert_eq!(
        forever.try_register(&fingerprint, u64::MAX),
        Err(PreventFloodingError::AlreadyRegistered)
    );
    let mut never = PreventFlooding::new(0);
    assert_eq!(never.try_register(&fingerprint, 5), Ok(()));
    assert_eq!(never.try_register(&fingerprint, 5), Ok(()));
    assert_eq!(never.try_register(&fingerprint, 4), Err(PreventFloodingError::AlreadyRegistered));
}
