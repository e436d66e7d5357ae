use dyndnsd::{default_duration, no, yes};

#[test]
fn setting_defaults() {
    assert!(yes());
    assert!(!no());
    assert_eq!(default_duration(), 60);
}
