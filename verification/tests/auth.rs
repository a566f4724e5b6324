use session_auth::store::{InvalidateError, TokenStore, DEFAULT_TTL_SECONDS};
use session_auth::token::{generate_token, TOKEN_LEN};
use std::collections::HashSet;

#[test]
fn can_create_token() {
    let a = generate_token();
    assert!(a.len() > 0);
}

#[test]
fn tokens_are_different() {
    let a = generate_token();
    let b = generate_token();
    let c = generate_token();
    assert_ne!(a, b);
    assert_ne!(b, c);
    assert_ne!(a, c);
}

#[test]
fn create_token_store() {
    let user_id = 2;
    let mut token_store = TokenStore::new();
    let user_token = token_store.validate_user(user_id);
    assert_eq!(token_store.check_token(&user_token).unwrap(), user_id);
}

#[test]
fn user_token_no_crossover() {
    let user_id_1 = 1;
    let user_id_2 = 2;
    let mut token_store = TokenStore::new();
    let user_token_1 = token_store.validate_user(user_id_1);
    let user_token_2 = token_store.validate_user(user_id_2);

    assert_ne!(token_store.check_token(&user_token_1).unwrap(), user_id_2);
    assert_ne!(token_store.check_token(&user_token_2).unwrap(), user_id_1);
    assert_eq!(token_store.check_token(&user_token_1).unwrap(), user_id_1);
    assert_eq!(token_store.check_token(&user_token_2).unwrap(), user_id_2);
}

#[test]
fn invalidate_token() {
    let mut token_store = TokenStore::new();
    let user_token = token_store.validate_user(2);

    assert!(token_store.check_token("badToken").is_none());
    let _ = token_store.invalidate_token(user_token.clone());
    assert!(token_store.check_token(&user_token).is_none());
}

#[test]
fn generated_tokens_unique_over_many_calls() {
    let mut seen: HashSet<String> = HashSet::new();
    for _ in 0..10_000 {
        let t = generate_token();
        assert!(seen.insert(t), "two generated tokens were equal");
    }
}

#[test]
fn generated_token_shape() {
    let t = generate_token();
    assert_eq!(t.chars().count(), TOKEN_LEN);
    assert!(t.chars().all(|c| c.is_ascii_alphanumeric()));
}

#[test]
fn issue_then_validate_returns_owner() {
    let mut store = TokenStore::with_ttl(30);
    let token = store.issue(7, 1_000);
    assert_eq!(store.validate(&token, 1_000), Some(7));
}

#[test]
fn issue_validate_invalidate_scenario() {
    let mut store = TokenStore::with_ttl(30);
    let t = store.issue(2, 100);
    assert_eq!(store.validate(&t, 100), Some(2));
    assert_eq!(store.invalidate(&t), Ok(2));
    assert_eq!(store.validate(&t, 100), None);
}

#[test]
fn two_users_validate_to_their_own_ids() {
    let mut store = TokenStore::with_ttl(30);
    let t1 = store.issue(1, 100);
    let t2 = store.issue(2, 100);
    assert_eq!(store.validate(&t1, 100), Some(1));
    assert_eq!(store.validate(&t2, 100), Some(2));
    assert_ne!(store.validate(&t1, 100), Some(2));
}

#[test]
fn invalidate_then_validate_returns_none() {
    let mut store = TokenStore::with_ttl(30);
    let t = store.issue(4, 50);
    assert_eq!(store.invalidate(&t), Ok(4));
    assert_eq!(store.validate(&t, 50), None);
    assert_eq!(store.validate(&t, 60), None);
}

#[test]
fn invalidate_unknown_token_fails() {
    let mut store = TokenStore::with_ttl(30);
    let _ = store.issue(4, 50);
    assert_eq!(
        store.invalidate("neverIssuedToken"),
        Err(InvalidateError::UnknownTokenOnInvalidate)
    );
}

#[test]
fn sweep_removes_exactly_the_expired_sessions() {
    let mut store = TokenStore::with_ttl(10);
    let t1 = store.issue(1, 100); // expires at 110
    let t2 = store.issue(2, 200); // expires at 210
    let removed = store.sweep_expired(150);
    assert_eq!(removed, 1);
    assert_eq!(store.validate(&t1, 150), None);
    assert_eq!(store.validate(&t2, 200), Some(2));
    assert_eq!(store.session_count(), 1);
}

#[test]
fn expired_but_unswept_session_does_not_validate() {
    let mut store = TokenStore::with_ttl(10);
    let t = store.issue(3, 100); // expires at 110
    assert_eq!(store.validate(&t, 109), Some(3));
    assert_eq!(store.validate(&t, 110), None);
    assert_eq!(store.validate(&t, 200), None);
    // still present until the sweeper runs
    assert_eq!(store.session_count(), 1);
}

#[test]
fn sweep_boundary_keeps_session_expiring_now() {
    let mut store = TokenStore::with_ttl(10);
    let _t = store.issue(1, 100); // expires at 110
    assert_eq!(store.sweep_expired(110), 0);
    assert_eq!(store.session_count(), 1);
    assert_eq!(store.sweep_expired(111), 1);
    assert_eq!(store.session_count(), 0);
}

#[test]
fn reissue_replaces_previous_session_of_same_user() {
    let mut store = TokenStore::with_ttl(30);
    let t1 = store.issue(9, 100);
    let t2 = store.issue(9, 120);
    assert_ne!(t1, t2);
    assert_eq!(store.validate(&t1, 120), None);
    assert_eq!(store.validate(&t2, 120), Some(9));
    assert_eq!(store.session_count(), 1);
}

#[test]
fn invalidate_user_removes_their_session() {
    let mut store = TokenStore::with_ttl(30);
    let t1 = store.issue(1, 100);
    let t2 = store.issue(2, 100);
    store.invalidate_user(1);
    assert_eq!(store.validate(&t1, 100), None);
    assert_eq!(store.validate(&t2, 100), Some(2));
    // no-op when the user holds no session
    store.invalidate_user(5);
    assert_eq!(store.session_count(), 1);
}

#[test]
fn default_ttl_bounds_session_life() {
    assert_eq!(DEFAULT_TTL_SECONDS, 30);
    let mut store = TokenStore::new();
    let t = store.issue(6, 1_000);
    assert_eq!(store.validate(&t, 1_029), Some(6));
    assert_eq!(store.validate(&t, 1_030), None);
}

#[test]
fn check_expiry_reports_removed_count() {
    let mut store = TokenStore::with_ttl(1);
    // issued at time 0, long expired against the real clock
    let _ = store.issue(1, 0);
    let removed = store.check_expiry();
    assert_eq!(removed, 1);
    assert_eq!(store.session_count(), 0);
}
