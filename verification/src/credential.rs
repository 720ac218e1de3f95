use vstd::prelude::*;
use vstd::string::StringSliceAdditionalSpecFns;

verus! {

/// Work factor for the password hash: deliberately slow, fixed at process
/// scope so every stored credential resists offline brute force equally.
pub const BCRYPT_COST: u32 = 12;

/// The lowercase hex digit (as an ASCII byte) for one value below 16.
pub open spec fn hex_digit_byte(n: u8) -> u8
    recommends
        n < 16,
{
    if n < 10 {
        (0x30 + n) as u8
    } else {
        (0x57 + n) as u8
    }
}

/// Two lowercase hex digits for each input byte, high nibble first, as ASCII
/// bytes.
pub open spec fn hex_bytes_of(data: Seq<u8>) -> Seq<u8> {
    Seq::new(
        2 * data.len(),
        |i: int|
            if i % 2 == 0 {
                hex_digit_byte(data[i / 2] >> 4)
            } else {
                hex_digit_byte(data[i / 2] & 0x0f)
            },
    )
}

/// The same digits as characters, the form a hex string carries.
pub open spec fn hex_chars_of(data: Seq<u8>) -> Seq<char> {
    hex_bytes_of(data).map_values(|b: u8| b as char)
}

/// What md5::compute returns for the given input: a fixed 16-byte digest
/// that depends on the input bytes alone.
pub uninterp spec fn md5_of(data: Seq<u8>) -> Seq<u8>;

/// Whether bcrypt's verify path accepts the password against the stored
/// hash string: deterministic in the two arguments alone (the salt is read
/// back out of the hash string); a verification error counts as no match.
pub uninterp spec fn bcrypt_matches(password: Seq<u8>, hash: Seq<char>) -> bool;

/// Relies on md5::compute: the digest is 16 bytes and depends on the input
/// bytes alone.
#[verifier::external_body]
pub(crate) fn md5_digest(data: &[u8]) -> (r: Vec<u8>)
    ensures
        r@ == md5_of(data@),
        r@.len() == 16,
{
    md5::compute(data).0.to_vec()
}

/// Relies on hex::encode: two lowercase hex digits for each input byte,
/// high nibble first.
#[verifier::external_body]
fn hex_encode(data: &[u8]) -> (r: String)
    ensures
        r@ == hex_chars_of(data@),
{
    hex::encode(data)
}

/// Relies on bcrypt::hash: with a cost inside bcrypt's allowed range it
/// fails only when the salt cannot be drawn; a produced hash is the
/// 60-character bcrypt string that bcrypt::verify accepts against the very
/// password that was hashed (verify re-reads cost and salt from the string
/// and recomputes).
#[verifier::external_body]
fn bcrypt_hash(password: &[u8], cost: u32) -> (r: Option<String>)
    requires
        4 <= cost <= 31,
    ensures
        r matches Some(h) ==> bcrypt_matches(password@, h@) && h@.len() == 60,
{
    bcrypt::hash(password, cost).ok()
}

/// Relies on bcrypt::verify: deterministic in password and hash string; a
/// malformed hash makes it fail, which counts as no match.
#[verifier::external_body]
fn bcrypt_verify(password: &[u8], hash: &str) -> (r: bool)
    ensures
        r == bcrypt_matches(password@, hash@),
{
    bcrypt::verify(password, hash).unwrap_or(false)
}

/// Hashes a plaintext password with the fixed work factor. Never rejects an
/// input for its shape; it fails only on an internal failure of the hashing
/// library, and a fresh hash always matches the password it was made from.
pub fn hash_password(password: &str) -> (r: Result<String, String>)
    ensures
        r matches Ok(h) ==> bcrypt_matches(password.spec_bytes(), h@) && h@.len() == 60,
        r matches Err(m) ==> m@ == "Issue hashing the password"@,
{
    match bcrypt_hash(password.as_bytes(), BCRYPT_COST) {
        Some(h) => Ok(h),
        None => Err("Issue hashing the password".to_owned()),
    }
}

/// Checks a plaintext password against a stored hash through the hashing
/// library's own verify path; an error while verifying is answered exactly
/// like a wrong password.
pub fn verify_password(password: &str, hash: &str) -> (r: bool)
    ensures
        r == bcrypt_matches(password.spec_bytes(), hash@),
{
    bcrypt_verify(password.as_bytes(), hash)
}

/// Derives the non-secret lookup digest of an email: the lowercase hex form
/// of its md5, 32 characters. Used only for correlation, never as a
/// security boundary.
pub fn derive_lookup_hash(email: &str) -> (r: String)
    ensures
        r@ == hex_chars_of(md5_of(email.spec_bytes())),
        r@.len() == 32,
{
    let digest = md5_digest(email.as_bytes());
    hex_encode(digest.as_slice())
}

} // verus!
