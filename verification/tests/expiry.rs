use poll_engine::expiry::{resolve, DEFAULT_EXPIRY_SECONDS};
use poll_engine::models::ValidationError;

const NOW: i64 = 1_700_000_000;

#[test]
fn timeout_in_past_rejected() {
    assert_eq!(
        resolve(NOW, Some(NOW - 1), None),
        Err(ValidationError::TimeoutInPast)
    );
    assert_eq!(
        resolve(NOW, Some(NOW - 1), Some(NOW + 100)),
        Err(ValidationError::TimeoutInPast)
    );
}

#[test]
fn timeout_now_accepted() {
    assert_eq!(resolve(NOW, Some(NOW), None), Ok((Some(NOW), None)));
}

#[test]
fn delete_precedes_timeout_rejected() {
    let t = NOW + 600;
    assert_eq!(
        resolve(NOW, Some(t), Some(t - 1)),
        Err(ValidationError::DeletePrecedesTimeout)
    );
}

#[test]
fn delete_equal_to_timeout_accepted() {
    let t = NOW + 600;
    assert_eq!(resolve(NOW, Some(t), Some(t)), Ok((Some(t), Some(t))));
}

#[test]
fn delete_compared_against_default_timeout() {
    let baseline = NOW + DEFAULT_EXPIRY_SECONDS;
    assert_eq!(
        resolve(NOW, None, Some(baseline - 1)),
        Err(ValidationError::DeletePrecedesTimeout)
    );
    assert_eq!(
        resolve(NOW, None, Some(baseline)),
        Ok((None, Some(baseline)))
    );
}

#[test]
fn overrides_returned_exactly() {
    assert_eq!(resolve(NOW, None, None), Ok((None, None)));
    assert_eq!(
        resolve(NOW, Some(NOW + 60), Some(NOW + 120)),
        Ok((Some(NOW + 60), Some(NOW + 120)))
    );
}
