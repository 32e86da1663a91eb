use ctm::status::{classify_status, is_done, is_open, StatusClass};

#[test]
fn open_codes_are_ongoing_suspended_and_pending() {
    assert!(is_open(0));
    assert!(is_open(4));
    assert!(is_open(6));
    assert!(!is_open(1));
    assert!(!is_open(2));
    assert!(!is_open(3));
}

#[test]
fn done_is_code_one_only() {
    assert!(is_done(1));
    assert!(!is_done(0));
    assert!(!is_done(2));
}

#[test]
fn cancelled_and_unknown_codes_are_excluded() {
    assert_eq!(classify_status(2), StatusClass::Excluded);
    assert_eq!(classify_status(5), StatusClass::Excluded);
    assert_eq!(classify_status(-1), StatusClass::Excluded);
    assert_eq!(classify_status(0), StatusClass::Open);
    assert_eq!(classify_status(1), StatusClass::Done);
}
