use apiserver::account::{register_user, validate_signin, validate_signup, SigninData, SignupData};
use apiserver::credential::verify_password;
use apiserver::models::{UserFromDB, UserFromDBWithPassword};
use apiserver::session::{credential_rejection_message, login, SessionStore};
use apiserver::snowflake::Snowflake;
use apiserver::token::{authenticate, TokenError};

const SECRET: &str = "server-signing-secret";

fn signup(email: &str, password: &str) -> SignupData {
    SignupData { email: email.to_owned(), password: password.to_owned() }
}

#[test]
fn signup_validation_accepts_a_proper_request() {
    assert!(validate_signup(&signup("user@example.com", "longenough")).is_ok());
}

#[test]
fn signup_validation_rejects_a_bad_email() {
    let errs = validate_signup(&signup("not-an-email", "longenough")).unwrap_err();
    assert_eq!(errs, ["Invalid email"]);
    let errs = validate_signup(&signup("", "longenough")).unwrap_err();
    assert_eq!(errs, ["Invalid email"]);
}

#[test]
fn signup_validation_rejects_a_bad_password_length() {
    let errs = validate_signup(&signup("user@example.com", "short")).unwrap_err();
    assert_eq!(errs, ["Password should be between 6 and 20 length"]);
    let errs = validate_signup(&signup("user@example.com", &"x".repeat(21))).unwrap_err();
    assert_eq!(errs, ["Password should be between 6 and 20 length"]);
    assert!(validate_signup(&signup("user@example.com", "sixsix")).is_ok());
    assert!(validate_signup(&signup("user@example.com", &"x".repeat(20))).is_ok());
}

#[test]
fn signup_validation_speaks_of_the_password_first() {
    let errs = validate_signup(&signup("not-an-email", "short")).unwrap_err();
    assert_eq!(errs, ["Password should be between 6 and 20 length"]);
}

#[test]
fn signin_validation_mirrors_signup() {
    let ok = SigninData { email: "user@example.com".to_owned(), password: "longenough".to_owned() };
    assert!(validate_signin(&ok).is_ok());
    let bad = SigninData { email: "nope".to_owned(), password: "longenough".to_owned() };
    assert_eq!(validate_signin(&bad).unwrap_err(), ["Invalid email"]);
}

#[test]
fn registration_refuses_a_taken_email() {
    let mut sf = Snowflake::new(1).unwrap();
    let taken = UserFromDB {
        id: 500,
        email: "user@example.com".to_owned(),
        email_hash: None,
        active_photo_id: -1,
    };
    let r = register_user(&signup("user@example.com", "longenough"), Some(&taken), &mut sf);
    assert!(matches!(r, Err(apiserver::account::SignupError::EmailTaken)));
    assert_eq!(sf.counter, 0, "no identifier is spent on a refused signup");
}

#[test]
fn registration_produces_a_consistent_row() {
    let mut sf = Snowflake::new(1).unwrap();
    let record = register_user(&signup("user@example.com", "longenough"), None, &mut sf).unwrap();
    assert_eq!(record.email, "user@example.com");
    assert_eq!(record.email_hash, hex::encode(md5::compute("user@example.com").0));
    assert!(verify_password("longenough", &record.password_hash));
    assert!(!verify_password("wrong-password", &record.password_hash));
    assert_eq!(record.id & 0x1fff, 0, "a fresh generator starts its sequence at zero");
    assert_eq!(sf.counter, 1);
}

#[test]
fn login_round_trip_against_protected_requests() {
    // The whole path a client walks: signup, a failed login with an unknown
    // email, a failed login with the wrong password, a successful login, a
    // protected request with the fresh token, and the same token after the
    // TTL has elapsed.
    let mut sf = Snowflake::new(9).unwrap();
    let mut store = SessionStore::new();
    let data = signup("person@example.com", "the-password");
    let record = register_user(&data, None, &mut sf).unwrap();
    let row = UserFromDBWithPassword {
        id: record.id as i64,
        email: record.email.clone(),
        password: record.password_hash.clone(),
        email_hash: Some(record.email_hash.clone()),
        active_photo_id: -1,
    };

    let now = 1_700_000_000u64;
    let ttl = 3600u64;

    let unknown = login(None, "the-password", SECRET, now, ttl, &mut store).unwrap_err();
    let wrong = login(Some(&row), "not-the-password", SECRET, now, ttl, &mut store).unwrap_err();
    assert_eq!(
        credential_rejection_message(&unknown),
        credential_rejection_message(&wrong),
        "both rejections answer with one identical shape"
    );

    let success = login(Some(&row), "the-password", SECRET, now, ttl, &mut store).unwrap();
    assert_eq!(success.user_id, row.id);

    let identity = authenticate(Some(&success.token), SECRET, now + 1).unwrap();
    assert_eq!(identity.subject_id, record.id);

    let late = authenticate(Some(&success.token), SECRET, now + ttl);
    assert_eq!(late.unwrap_err(), TokenError::Expired);
}
