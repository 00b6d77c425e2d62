use poll_engine::models::ValidationError;
use poll_engine::validate::are_poll_options_valid;

fn opts(names: &[&str]) -> Vec<String> {
    names.iter().map(|n| n.to_string()).collect()
}

#[test]
fn rejects_empty_list() {
    assert_eq!(
        are_poll_options_valid(&opts(&[])),
        Err(ValidationError::TooFewOptions)
    );
}

#[test]
fn rejects_single_option() {
    assert_eq!(
        are_poll_options_valid(&opts(&["only"])),
        Err(ValidationError::TooFewOptions)
    );
}

#[test]
fn rejects_eleven_options() {
    let names: Vec<String> = (0..11).map(|i| format!("option {}", i)).collect();
    assert_eq!(
        are_poll_options_valid(&names),
        Err(ValidationError::TooManyOptions)
    );
}

#[test]
fn accepts_two_options() {
    assert_eq!(are_poll_options_valid(&opts(&["yes", "no"])), Ok(()));
}

#[test]
fn accepts_ten_options() {
    let names: Vec<String> = (0..10).map(|i| format!("option {}", i)).collect();
    assert_eq!(are_poll_options_valid(&names), Ok(()));
}

#[test]
fn rejects_duplicate_options() {
    assert_eq!(
        are_poll_options_valid(&opts(&["a", "b", "a"])),
        Err(ValidationError::DuplicateOptionNames)
    );
}

#[test]
fn duplicates_are_case_sensitive() {
    assert_eq!(are_poll_options_valid(&opts(&["A", "a"])), Ok(()));
}

#[test]
fn rejects_empty_option_name() {
    assert_eq!(
        are_poll_options_valid(&opts(&["a", ""])),
        Err(ValidationError::EmptyOptionName)
    );
}

#[test]
fn empty_name_reported_before_duplicate() {
    assert_eq!(
        are_poll_options_valid(&opts(&["a", "", "a"])),
        Err(ValidationError::EmptyOptionName)
    );
}

#[test]
fn validation_reasons() {
    assert_eq!(
        ValidationError::TooFewOptions.reason(),
        "At least two poll options are required"
    );
    assert_eq!(
        ValidationError::TooManyOptions.reason(),
        "At most ten poll options are allowed"
    );
    assert_eq!(ValidationError::EmptyOptionName.reason(), "poll option is empty");
    assert_eq!(
        ValidationError::DuplicateOptionNames.reason(),
        "poll options are not unique"
    );
    assert_eq!(ValidationError::EmptyTitle.reason(), "title is empty");
    assert_eq!(
        ValidationError::TimeoutInPast.reason(),
        "timeout_at is in the past"
    );
    assert_eq!(
        ValidationError::DeletePrecedesTimeout.reason(),
        "delete_at is lower than timeout_at"
    );
}
