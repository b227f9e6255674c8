use presence_relay::credentials::{
    ApiKey, AuthToken, CredentialStore, ExpiryTime, TOKEN_WINDOW_SECS,
};
use presence_relay::error::AppError;

#[test]
fn issue_refuses_wrong_key() {
    let mut store = CredentialStore::new(ApiKey(7));
    let r = store.issue(&ApiKey(8), AuthToken(42), 100);
    assert_eq!(r, Err(AppError::Unauthorized));
    // the refused attempt stored nothing
    assert_eq!(store.validate(&AuthToken(42), 100), Err(AppError::Unauthorized));
}

#[test]
fn issue_accepts_configured_key() {
    let mut store = CredentialStore::new(ApiKey(7));
    let r = store.issue(&ApiKey(7), AuthToken(42), 100);
    assert_eq!(r, Ok(ExpiryTime(100 + TOKEN_WINDOW_SECS)));
}

#[test]
fn token_accepted_strictly_within_window() {
    let mut store = CredentialStore::new(ApiKey(7));
    store.issue(&ApiKey(7), AuthToken(42), 100).unwrap();
    assert_eq!(store.validate(&AuthToken(42), 100), Ok(()));
    assert_eq!(store.validate(&AuthToken(42), 109), Ok(()));
    assert_eq!(store.validate(&AuthToken(42), 110), Err(AppError::Unauthorized));
    assert_eq!(store.validate(&AuthToken(42), 200), Err(AppError::Unauthorized));
}

#[test]
fn validate_does_not_consume_the_token() {
    let mut store = CredentialStore::new(ApiKey(7));
    store.issue(&ApiKey(7), AuthToken(42), 100).unwrap();
    assert_eq!(store.validate(&AuthToken(42), 101), Ok(()));
    assert_eq!(store.validate(&AuthToken(42), 101), Ok(()));
    assert_eq!(store.validate(&AuthToken(42), 102), Ok(()));
}

#[test]
fn validate_refuses_unknown_token() {
    let mut store = CredentialStore::new(ApiKey(7));
    store.issue(&ApiKey(7), AuthToken(42), 100).unwrap();
    assert_eq!(store.validate(&AuthToken(43), 100), Err(AppError::Unauthorized));
}

#[test]
fn reissue_refreshes_the_expiry() {
    let mut store = CredentialStore::new(ApiKey(7));
    store.issue(&ApiKey(7), AuthToken(42), 100).unwrap();
    store.issue(&ApiKey(7), AuthToken(42), 105).unwrap();
    // past the first window, within the refreshed one
    assert_eq!(store.validate(&AuthToken(42), 112), Ok(()));
    assert_eq!(store.validate(&AuthToken(42), 115), Err(AppError::Unauthorized));
}

#[test]
fn issue_fresh_mints_a_version_four_token() {
    let mut store = CredentialStore::new(ApiKey(7));
    let (token, expiry) = store.issue_fresh(&ApiKey(7), 100).unwrap();
    assert_eq!(expiry, ExpiryTime(100 + TOKEN_WINDOW_SECS));
    assert_eq!((token.0 >> 76) & 0xf, 4);
    assert_eq!(store.validate(&token, 105), Ok(()));
}

#[test]
fn fresh_tokens_differ() {
    assert_ne!(AuthToken::new(), AuthToken::new());
}

#[test]
fn expiry_from_clock_is_not_already_expired() {
    let exp = ExpiryTime::new();
    assert!(!exp.is_expired());
}

#[test]
fn expiry_boundary_is_rejected() {
    let exp = ExpiryTime::issued_at(1000);
    assert!(!exp.is_expired_at(1009));
    assert!(exp.is_expired_at(1000 + TOKEN_WINDOW_SECS));
    assert!(exp.is_expired_at(2000));
}

#[test]
fn api_key_parses_uuid_text() {
    let key = ApiKey::try_from("00000000-0000-0000-0000-000000000001".to_string()).unwrap();
    assert_eq!(key, ApiKey(1));
    let key = ApiKey::try_from("ffffffff-ffff-ffff-ffff-ffffffffffff".to_string()).unwrap();
    assert_eq!(key, ApiKey(u128::MAX));
}

#[test]
fn api_key_rejects_bad_text() {
    let r = ApiKey::try_from("not-a-key".to_string());
    assert_eq!(r, Err(AppError::Error("invalid API key".to_string())));
    assert_eq!(r.unwrap_err().describe(), "error: invalid API key");
}
