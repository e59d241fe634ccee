use wantedly_ingest::routes::{echo_payload, hello_response, text_is_blank, AppError, EchoPayload};

#[test]
fn echo_returns_same_payload() {
    let req = EchoPayload {
        text: "Hello, World!".into(),
    };

    let res = echo_payload(req).expect("handler should not fail");

    assert_eq!(res.text, "Hello, World!".to_string());
}

#[test]
fn empty_text_returns_bad_request() {
    let req = EchoPayload { text: "   ".into() };

    let err = echo_payload(req).expect_err("should fail on empty text");

    match err {
        AppError::BadRequest(msg) => {
            assert_eq!(msg, "text must not be empty");
        }
        other => panic!("expected BadRequest, got: {:?}", other),
    }
}

#[test]
fn blank_text_is_only_white_space() {
    assert!(text_is_blank(""));
    assert!(text_is_blank(" \t\n\u{3000}"));
    assert!(!text_is_blank("  a "));
}

#[test]
fn app_error_message_is_its_text() {
    assert_eq!(AppError::Internal("boom".to_string()).message(), "boom");
    assert_eq!(hello_response().message, "hello from axum");
}
