use session_auth::extract::{extract, user_from_header, RejectReason};
use session_auth::middleware::{authorize_request, reason_message, RequestDecision};
use session_auth::store::TokenStore;
use session_auth::token::generate_token;

fn reject_body(d: RequestDecision) -> (u16, String) {
    match d {
        RequestDecision::Forward(_) => panic!("request was forwarded"),
        RequestDecision::Reject { status, body } => (status, body),
    }
}

#[test]
fn wrong_user_and_unknown_token_get_the_same_response() {
    let mut store = TokenStore::with_ttl(30);
    let token = store.issue(5, 100); // owner is user 5
    let random_unknown = generate_token();

    let wrong_user = authorize_request(&store, Some("6"), Some(&token), 100);
    let unknown = authorize_request(&store, Some("6"), Some(&random_unknown), 100);

    let (status_a, body_a) = reject_body(wrong_user);
    let (status_b, body_b) = reject_body(unknown);
    assert_eq!(status_a, 401);
    assert_eq!(status_b, 401);
    assert_eq!(body_a, body_b);
    assert_eq!(body_a, "Token invalid");
}

#[test]
fn missing_authorization_header_gets_distinct_message() {
    let mut store = TokenStore::with_ttl(30);
    let _ = store.issue(5, 100);

    let d = authorize_request(&store, Some("5"), None, 100);
    let (status, body) = reject_body(d);
    assert_eq!(status, 401);
    assert_eq!(body, "not authorized, no token found in Authorization");
    assert_ne!(body, reason_message(RejectReason::InvalidToken));
    assert_ne!(body, reason_message(RejectReason::MissingOrInvalidUserId));
}

#[test]
fn valid_request_is_forwarded_with_identity() {
    let mut store = TokenStore::with_ttl(30);
    let token = store.issue(5, 100);
    match authorize_request(&store, Some("5"), Some(&token), 100) {
        RequestDecision::Forward(id) => {
            assert_eq!(id.user_id, 5);
            assert_eq!(id.token, token);
        },
        RequestDecision::Reject { .. } => panic!("valid request was rejected"),
    }
}

#[test]
fn missing_user_id_rejected_before_token_checks() {
    let store = TokenStore::with_ttl(30);
    assert_eq!(
        extract(&store, None, Some("whatever"), 100),
        Err(RejectReason::MissingOrInvalidUserId)
    );
    assert_eq!(
        extract(&store, Some("not-a-number"), Some("whatever"), 100),
        Err(RejectReason::MissingOrInvalidUserId)
    );
}

#[test]
fn missing_token_rejected_after_user_id() {
    let store = TokenStore::with_ttl(30);
    assert_eq!(extract(&store, Some("5"), None, 100), Err(RejectReason::MissingToken));
}

#[test]
fn expired_token_rejected_as_invalid() {
    let mut store = TokenStore::with_ttl(10);
    let token = store.issue(5, 100); // expires at 110
    assert_eq!(extract(&store, Some("5"), Some(&token), 120), Err(RejectReason::InvalidToken));
}

#[test]
fn extract_success_carries_token_and_user() {
    let mut store = TokenStore::with_ttl(30);
    let token = store.issue(8, 100);
    let id = extract(&store, Some("8"), Some(&token), 100).unwrap();
    assert_eq!(id.user_id, 8);
    assert_eq!(id.token, token);
}

#[test]
fn user_from_header_parses_claimed_id() {
    assert_eq!(user_from_header(Some("12")).unwrap().user_id, 12);
    assert_eq!(
        user_from_header(Some("12x")).unwrap_err(),
        RejectReason::MissingOrInvalidUserId
    );
    assert_eq!(user_from_header(None).unwrap_err(), RejectReason::MissingOrInvalidUserId);
}

#[test]
fn reason_messages_name_each_category() {
    assert_eq!(
        reason_message(RejectReason::MissingOrInvalidUserId),
        "No user_id specified in request"
    );
    assert_eq!(
        reason_message(RejectReason::MissingToken),
        "not authorized, no token found in Authorization"
    );
    assert_eq!(reason_message(RejectReason::InvalidToken), "Token invalid");
}
