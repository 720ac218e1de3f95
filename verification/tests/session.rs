use apiserver::credential::hash_password;
use apiserver::models::UserFromDBWithPassword;
use apiserver::session::{
    authenticate_with_store, check_revocation, credential_rejection_message, login,
    CredentialError, SessionStore, StoreError,
};
use apiserver::token::{validate_token, StorePolicy, TokenError};

const SECRET: &str = "server-signing-secret";

fn user_row(id: i64, email: &str, password: &str) -> UserFromDBWithPassword {
    UserFromDBWithPassword {
        id,
        email: email.to_owned(),
        password: hash_password(password).unwrap(),
        email_hash: None,
        active_photo_id: -1,
    }
}

#[test]
fn store_returns_what_was_set() {
    let mut store = SessionStore::new();
    assert!(store.get(1).is_none());
    store.set(1, b"token-one".to_vec());
    store.set(2, b"token-two".to_vec());
    assert_eq!(store.get(1).unwrap(), b"token-one");
    assert_eq!(store.get(2).unwrap(), b"token-two");
    assert!(store.get(3).is_none());
}

#[test]
fn store_overwrites_a_subjects_session() {
    let mut store = SessionStore::new();
    store.set(7, b"first".to_vec());
    store.set(7, b"second".to_vec());
    assert_eq!(store.get(7).unwrap(), b"second");
}

#[test]
fn login_with_unknown_email_is_not_found() {
    let mut store = SessionStore::new();
    let r = login(None, "whatever", SECRET, 1000, 600, &mut store);
    assert_eq!(r.unwrap_err(), CredentialError::NotFound);
}

#[test]
fn login_with_wrong_password_is_a_mismatch() {
    let mut store = SessionStore::new();
    let row = user_row(11, "a@example.com", "right password");
    let r = login(Some(&row), "wrong password", SECRET, 1000, 600, &mut store);
    assert_eq!(r.unwrap_err(), CredentialError::Mismatch);
    assert!(store.get(11).is_none(), "a failed login registers nothing");
}

#[test]
fn login_mints_and_registers_the_session() {
    let mut store = SessionStore::new();
    let row = user_row(11, "a@example.com", "right password");
    let success = login(Some(&row), "right password", SECRET, 1000, 600, &mut store).unwrap();
    assert_eq!(success.user_id, 11);
    assert_eq!(store.get(11).unwrap(), &success.token);
    let identity = validate_token(&success.token, SECRET, 1000).unwrap();
    assert_eq!(identity.subject_id, 11);
    assert_eq!(
        validate_token(&success.token, SECRET, 1600).unwrap_err(),
        TokenError::Expired
    );
}

#[test]
fn second_login_revokes_the_first_token_in_strict_mode() {
    let mut store = SessionStore::new();
    let row = user_row(21, "b@example.com", "pw-of-subject");
    let first = login(Some(&row), "pw-of-subject", SECRET, 1000, 600, &mut store).unwrap();
    let second = login(Some(&row), "pw-of-subject", SECRET, 1001, 600, &mut store).unwrap();
    assert_ne!(first.token, second.token);

    let strict_old = authenticate_with_store(Some(&first.token), &store, SECRET, 1002);
    assert_eq!(strict_old.unwrap_err(), TokenError::Revoked);
    let strict_new = authenticate_with_store(Some(&second.token), &store, SECRET, 1002);
    assert_eq!(strict_new.unwrap().subject_id, 21);

    let by_signature = validate_token(&first.token, SECRET, 1002);
    assert_eq!(
        by_signature.unwrap().subject_id,
        21,
        "signature-only mode still accepts the old token until it expires"
    );
}

#[test]
fn strict_mode_rejects_unregistered_subjects() {
    let store = SessionStore::new();
    let row = user_row(31, "c@example.com", "pw");
    let mut side_store = SessionStore::new();
    let s = login(Some(&row), "pw", SECRET, 1000, 600, &mut side_store).unwrap();
    let r = authenticate_with_store(Some(&s.token), &store, SECRET, 1001);
    assert_eq!(r.unwrap_err(), TokenError::Revoked);
}

#[test]
fn strict_mode_reports_missing_tokens() {
    let store = SessionStore::new();
    let r = authenticate_with_store(None, &store, SECRET, 0);
    assert_eq!(r.unwrap_err(), TokenError::Missing);
}

#[test]
fn store_failure_policy_is_explicit() {
    let presented = b"some-token".to_vec();
    let open = check_revocation(&presented, Err(StoreError), StorePolicy::FailOpen);
    assert!(open.is_ok());
    let closed = check_revocation(&presented, Err(StoreError), StorePolicy::FailClosed);
    assert_eq!(closed.unwrap_err(), TokenError::Revoked);
}

#[test]
fn revocation_check_compares_the_registered_token() {
    let presented = b"some-token".to_vec();
    let same = b"some-token".to_vec();
    let other = b"other-token".to_vec();
    assert!(check_revocation(&presented, Ok(Some(&same)), StorePolicy::FailClosed).is_ok());
    assert_eq!(
        check_revocation(&presented, Ok(Some(&other)), StorePolicy::FailOpen).unwrap_err(),
        TokenError::Revoked
    );
    assert_eq!(
        check_revocation(&presented, Ok(None), StorePolicy::FailOpen).unwrap_err(),
        TokenError::Revoked
    );
}

#[test]
fn every_credential_rejection_reads_identically() {
    let not_found = credential_rejection_message(&CredentialError::NotFound);
    let mismatch = credential_rejection_message(&CredentialError::Mismatch);
    assert_eq!(not_found, mismatch);
    assert_eq!(not_found, "Invalid credentials");
}
