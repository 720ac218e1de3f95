use vstd::prelude::*;
use crate::credential::{
    bcrypt_matches, derive_lookup_hash, hash_password, hex_chars_of, md5_of,
};
use crate::models::UserFromDB;
use crate::snowflake::{counter_after, id_of, Snowflake};

verus! {

/// What a signup request carries.
#[derive(Debug)]
pub struct SignupData {
    pub email: String,
    pub password: String,
}

/// What a signin request carries.
#[derive(Debug)]
pub struct SigninData {
    pub email: String,
    pub password: String,
}

/// What a successful login response carries back to the client, mirrored
/// into a cookie pair and a JSON body at the boundary.
#[derive(Debug)]
pub struct LoginResponse {
    pub access_token: String,
    pub user_id: i64,
}

/// The row a successful signup asks the relational store to insert.
#[derive(Debug)]
pub struct NewUserRecord {
    pub id: u64,
    pub email: String,
    pub password_hash: String,
    pub email_hash: String,
}

/// Why a signup attempt was refused before any row was written.
#[derive(Debug)]
pub enum SignupError {
    /// The request data failed validation; the messages go back verbatim.
    Validation(Vec<String>),
    /// A user with the same email already exists.
    EmailTaken,
    /// The identifier generator could not read the clock.
    IdGeneration,
    /// The hashing library failed internally.
    Hashing,
}

/// What validator's email check answers for a string: the HTML5 email
/// shape, a function of the characters alone.
pub uninterp spec fn is_valid_email(email: Seq<char>) -> bool;

/// Relies on validator's ValidateEmail for str: deterministic in the
/// string's characters.
#[verifier::external_body]
fn email_is_valid(email: &str) -> (r: bool)
    ensures
        r == is_valid_email(email@),
{
    validator::ValidateEmail::validate_email(&email)
}

/// The password length rule: between 6 and 20 characters.
pub open spec fn password_len_ok(password: Seq<char>) -> bool {
    6 <= password.len() <= 20
}

/// Whether a signup request is acceptable at all.
pub open spec fn signup_data_valid(data: &SignupData) -> bool {
    is_valid_email(data.email@) && password_len_ok(data.password@)
}

/// Checks a signup request: a password outside the length rule answers
/// with its own message, an invalid email with the generic one, and a bad
/// password speaks first when both are wrong.
pub fn validate_signup(data: &SignupData) -> (r: Result<(), Vec<String>>)
    ensures
        r is Ok <==> signup_data_valid(data),
        r matches Err(msgs) ==> msgs@.len() == 1 && (if !password_len_ok(data.password@) {
            msgs@[0]@ == "Password should be between 6 and 20 length"@
        } else {
            msgs@[0]@ == "Invalid email"@
        }),
{
    let password_len = data.password.as_str().unicode_len();
    let password_ok = 6 <= password_len && password_len <= 20;
    let email_ok = email_is_valid(data.email.as_str());
    if password_ok && email_ok {
        Ok(())
    } else {
        let mut msgs: Vec<String> = Vec::new();
        if !password_ok {
            msgs.push("Password should be between 6 and 20 length".to_owned());
        } else {
            msgs.push("Invalid email".to_owned());
        }
        Err(msgs)
    }
}

/// Checks a signin request by the same rules as a signup: the email shape
/// and the password length, with the same messages.
pub fn validate_signin(data: &SigninData) -> (r: Result<(), Vec<String>>)
    ensures
        r is Ok <==> is_valid_email(data.email@) && password_len_ok(data.password@),
        r matches Err(msgs) ==> msgs@.len() == 1 && (if !password_len_ok(data.password@) {
            msgs@[0]@ == "Password should be between 6 and 20 length"@
        } else {
            msgs@[0]@ == "Invalid email"@
        }),
{
    let password_len = data.password.as_str().unicode_len();
    let password_ok = 6 <= password_len && password_len <= 20;
    let email_ok = email_is_valid(data.email.as_str());
    if password_ok && email_ok {
        Ok(())
    } else {
        let mut msgs: Vec<String> = Vec::new();
        if !password_ok {
            msgs.push("Password should be between 6 and 20 length".to_owned());
        } else {
            msgs.push("Invalid email".to_owned());
        }
        Err(msgs)
    }
}

/// The signup step between reading and writing the store: validation, the
/// duplicate-email gate, a fresh identifier, the non-secret email digest
/// and the password hash, assembled into the row to insert.
pub fn register_user(
    data: &SignupData,
    existing: Option<&UserFromDB>,
    generator: &mut Snowflake,
) -> (r: Result<NewUserRecord, SignupError>)
    requires
        old(generator).wf(),
    ensures
        final(generator).wf(),
        final(generator).machine_id == old(generator).machine_id,
        !signup_data_valid(data) ==> (r matches Err(e) && (e matches SignupError::Validation(msgs)
            && msgs@.len() == 1) && *final(generator) == *old(generator)),
        signup_data_valid(data) && existing is Some ==> (r matches Err(e) && e is EmailTaken
            && *final(generator) == *old(generator)),
        signup_data_valid(data) && existing is None ==> (r matches Err(e) ==> (e is IdGeneration
            || e is Hashing)),
        r matches Ok(rec) ==> ({
            &&& signup_data_valid(data)
            &&& existing is None
            &&& rec.email@ == data.email@
            &&& rec.email_hash@ == hex_chars_of(md5_of(vstd::utf8::encode_utf8(data.email@)))
            &&& bcrypt_matches(vstd::utf8::encode_utf8(data.password@), rec.password_hash@)
            &&& exists|s: u64|
                rec.id == id_of(s, old(generator).machine_id, old(generator).counter)
            &&& final(generator).counter == counter_after(old(generator).counter, 1)
        }),
{
    match validate_signup(data) {
        Err(msgs) => {
            return Err(SignupError::Validation(msgs));
        },
        Ok(()) => {},
    }
    if existing.is_some() {
        return Err(SignupError::EmailTaken);
    }
    let id = match generator.generate_id() {
        Ok(id) => id,
        Err(_) => {
            return Err(SignupError::IdGeneration);
        },
    };
    let email_hash = derive_lookup_hash(data.email.as_str());
    let password_hash = match hash_password(data.password.as_str()) {
        Ok(h) => h,
        Err(_) => {
            return Err(SignupError::Hashing);
        },
    };
    Ok(NewUserRecord { id, email: data.email.clone(), password_hash, email_hash })
}

} // verus!
