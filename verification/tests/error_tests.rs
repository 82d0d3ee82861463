use api_sample::error::{ApiAppError, ApiErrorInfo, AppError};

fn reply_of(error: AppError) -> (u16, String, String, String) {
    let reply = ApiAppError::from(error).error_response();
    (reply.status, reply.content_type, reply.body.state, reply.body.message)
}

#[test]
fn new_error_info_holds_both_texts() {
    let info = ApiErrorInfo::new("register error", "duplicate sku");
    assert_eq!(info.state, "register error");
    assert_eq!(info.message, "duplicate sku");
}

#[test]
fn search_failure_is_not_found_with_its_message() {
    let (status, content_type, state, message) =
        reply_of(AppError::SearchError("no such product".to_string()));
    assert_eq!(status, 404);
    assert_eq!(content_type, "application/json");
    assert_eq!(state, "search error");
    assert_eq!(message, "no such product");
}

#[test]
fn register_conflict_is_bad_request_with_its_message() {
    let (status, content_type, state, message) =
        reply_of(AppError::RegisterError("duplicate sku".to_string()));
    assert_eq!(status, 400);
    assert_eq!(content_type, "application/json");
    assert_eq!(state, "register error");
    assert_eq!(message, "duplicate sku");
}

#[test]
fn refused_credentials_are_bad_request_with_their_message() {
    let (status, _, state, message) =
        reply_of(AppError::AuthenticateError("wrong password".to_string()));
    assert_eq!(status, 400);
    assert_eq!(state, "authenticate error");
    assert_eq!(message, "wrong password");
}

#[test]
fn internal_failure_is_answered_with_the_fixed_body() {
    let (status, content_type, state, message) =
        reply_of(AppError::InternalError("connection refused by db-7:5432".to_string()));
    assert_eq!(status, 500);
    assert_eq!(content_type, "application/json");
    assert_eq!(state, "stop service");
    assert_eq!(message, "Service is down.");
}

#[test]
fn internal_failure_never_shows_its_cause() {
    for cause in ["", "panic at line 3", "stop service", "SELECT * FROM users", "\u{0}\n\"x\""] {
        let (status, _, state, message) = reply_of(AppError::InternalError(cause.to_string()));
        assert_eq!(status, 500);
        assert_eq!(state, "stop service");
        assert_eq!(message, "Service is down.");
    }
}

#[test]
fn internal_failure_keeps_its_cause_for_the_log() {
    match ApiAppError::from(AppError::InternalError("disk full".to_string())) {
        ApiAppError::InternalError(AppError::InternalError(cause)) => assert_eq!(cause, "disk full"),
        other => panic!("unexpected classification: {:?}", other),
    }
}

#[test]
fn classification_keeps_the_kind() {
    assert!(matches!(
        ApiAppError::from(AppError::SearchError("m".to_string())),
        ApiAppError::SearchError(_)
    ));
    assert!(matches!(
        ApiAppError::from(AppError::RegisterError("m".to_string())),
        ApiAppError::RegisterError(_)
    ));
    assert!(matches!(
        ApiAppError::from(AppError::AuthenticateError("m".to_string())),
        ApiAppError::AuthenticateError(_)
    ));
}

#[test]
fn status_code_follows_the_category() {
    let info = || ApiErrorInfo::new("s", "m");
    assert_eq!(ApiAppError::NotAuthorizeError(info()).status_code(), 401);
    assert_eq!(ApiAppError::AuthenticateError(info()).status_code(), 400);
    assert_eq!(ApiAppError::RegisterError(info()).status_code(), 400);
    assert_eq!(ApiAppError::SearchError(info()).status_code(), 404);
    assert_eq!(
        ApiAppError::InternalError(AppError::InternalError("x".to_string())).status_code(),
        500
    );
}

#[test]
fn reply_keeps_the_body_of_the_error() {
    let reply =
        ApiAppError::NotAuthorizeError(ApiErrorInfo::new("authorization error", "why")).error_response();
    assert_eq!(reply.status, 401);
    assert_eq!(reply.body.state, "authorization error");
    assert_eq!(reply.body.message, "why");
}

#[test]
fn empty_and_unusual_messages_pass_through() {
    for message in ["", " ", "日本語のメッセージ", "a\"b\\c\n"] {
        let (status, _, state, got) = reply_of(AppError::SearchError(message.to_string()));
        assert_eq!(status, 404);
        assert_eq!(state, "search error");
        assert_eq!(got, message);
    }
}
