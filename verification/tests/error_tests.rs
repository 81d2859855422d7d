use sunny_flowers::error::SunnyError;

#[test]
fn user_error_carries_user_text_only() {
    let e = SunnyError::user("bad input");
    assert_eq!(e.user_text().unwrap(), "bad input");
    assert!(e.log_text().is_none());
}

#[test]
fn log_error_carries_log_text_only() {
    let e = SunnyError::log("internal detail");
    assert!(e.user_text().is_none());
    assert_eq!(e.log_text().unwrap(), "internal detail");
}

#[test]
fn combined_error_carries_both() {
    let e = SunnyError::user_and_log("summary", "raw cause");
    assert_eq!(e.user_text().unwrap(), "summary");
    assert_eq!(e.log_text().unwrap(), "raw cause");
    assert!(matches!(e, SunnyError::UserAndLog { .. }));
}

#[test]
fn describe_renders_each_shape() {
    assert_eq!(SunnyError::user("a").describe(), "user: a");
    assert_eq!(SunnyError::log("b").describe(), "log: b");
    assert_eq!(SunnyError::user_and_log("a", "b").describe(), "user: a, log: b");
}
