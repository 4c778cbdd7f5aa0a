use inference_engine_rust::status::{
    check_status, check_status_with_error_message, classify_status, push_decimal, StatusError,
    STATUS_GENERAL_ERROR, STATUS_NOT_FOUND, STATUS_OK, STATUS_UNEXPECTED,
};

#[test]
fn ok_status_passes() {
    assert_eq!(classify_status(STATUS_OK), Ok(()));
    check_status(STATUS_OK);
    check_status_with_error_message(STATUS_OK, "anything");
}

#[test]
fn known_statuses_are_classified() {
    assert_eq!(classify_status(-1), Err(StatusError::GeneralError));
    assert_eq!(classify_status(-7), Err(StatusError::Unexpected));
    assert_eq!(classify_status(-5), Err(StatusError::NotFound));
    assert_eq!(STATUS_GENERAL_ERROR, -1);
    assert_eq!(STATUS_UNEXPECTED, -7);
    assert_eq!(STATUS_NOT_FOUND, -5);
}

#[test]
fn other_statuses_are_unknown() {
    assert_eq!(classify_status(-2), Err(StatusError::Unknown(-2)));
    assert_eq!(classify_status(3), Err(StatusError::Unknown(3)));
    assert_eq!(classify_status(i32::MIN), Err(StatusError::Unknown(i32::MIN)));
}

#[test]
fn messages_name_the_status() {
    assert_eq!(StatusError::GeneralError.message(), "GENERAL_ERROR");
    assert_eq!(StatusError::Unexpected.message(), "UNEXPECTED");
    assert_eq!(StatusError::NotFound.message(), "NOT_FOUND");
    assert_eq!(StatusError::Unknown(-12).message(), "Unknown return value = -12");
    assert_eq!(StatusError::Unknown(0).message(), "Unknown return value = 0");
    assert_eq!(StatusError::Unknown(1234567).message(), "Unknown return value = 1234567");
    assert_eq!(StatusError::Unknown(i32::MIN).message(), "Unknown return value = -2147483648");
    assert_eq!(StatusError::Unknown(i32::MAX).message(), "Unknown return value = 2147483647");
}

#[test]
fn invalid_executable_network_message() {
    let e = classify_status(-1).unwrap_err();
    assert_eq!(
        e.message_with("ExecutableNetwork object is invalid."),
        "GENERAL_ERROR: ExecutableNetwork object is invalid."
    );
}

#[test]
fn messages_with_context() {
    assert_eq!(classify_status(-7).unwrap_err().message_with("ctx"), "UNEXPECTED: ctx");
    assert_eq!(classify_status(-5).unwrap_err().message_with("ctx"), "NOT_FOUND: ctx");
    assert_eq!(classify_status(-3).unwrap_err().message_with("ctx"), "Unknown return value = -3");
    assert_eq!(StatusError::GeneralError.message_with(""), "GENERAL_ERROR: ");
}

#[test]
fn context_message_extends_plain_message() {
    for code in [-1, -5, -7] {
        let plain = classify_status(code).unwrap_err().message();
        let with = classify_status(code).unwrap_err().message_with("more");
        assert!(with.starts_with(&plain));
        assert_eq!(with, format!("{}: more", plain));
    }
}

#[test]
fn decimal_matches_display() {
    for n in [0, 1, 9, 10, 99, 100, -1, -10, 42, -42, 2147483647, -2147483648, 1000000000] {
        let mut s = String::from("x");
        push_decimal(&mut s, n);
        assert_eq!(s, format!("x{}", n));
    }
}
