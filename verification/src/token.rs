use vstd::prelude::*;
use vstd::bytes::{
    lemma_auto_spec_u64_to_from_le_bytes, spec_u64_from_le_bytes, spec_u64_to_le_bytes,
    u64_from_le_bytes, u64_to_le_bytes,
};
use vstd::string::StringSliceAdditionalSpecFns;
use crate::credential::{hex_bytes_of, hex_digit_byte, md5_of};

verus! {

/// The separator between the fields of a token: an ASCII full stop.
pub const FIELD_SEP: u8 = 46;

/// A subject identity as the auth guard publishes it into the processing
/// context of one request; never persisted.
#[derive(Clone, Copy, PartialEq, Eq, Structural, Debug)]
pub struct RequestIdentity {
    pub subject_id: u64,
}

/// Why a presented token was rejected. All variants collapse to one generic
/// unauthorized response at the boundary; the tag exists for diagnostics.
#[derive(Clone, Copy, PartialEq, Eq, Structural, Debug)]
pub enum TokenError {
    /// No token was presented.
    Missing,
    /// The payload cannot be decoded or the signature does not verify.
    Malformed,
    /// The token's expiry time has passed.
    Expired,
    /// The store's current token for the subject differs, or the store
    /// could not answer under a fail-closed policy.
    Revoked,
}

/// What to do when the session store cannot be read while a token is
/// checked in strict-revocation mode. A deployment must pick one of the
/// two explicitly.
#[derive(Clone, Copy, PartialEq, Eq, Structural, Debug)]
pub enum StorePolicy {
    /// A store failure leaves the token judged by its signature alone.
    FailOpen,
    /// A store failure rejects the token.
    FailClosed,
}

/// One 64-bit field of a token: sixteen lowercase hex digits (of the
/// value's little-endian bytes).
pub open spec fn hex64(x: u64) -> Seq<u8> {
    hex_bytes_of(spec_u64_to_le_bytes(x))
}

/// The signed part of a token: subject id, issue second and expiry second,
/// separated by full stops.
pub open spec fn payload_bytes(subject_id: u64, issued_at: u64, expires_at: u64) -> Seq<u8> {
    hex64(subject_id) + seq![FIELD_SEP] + hex64(issued_at) + seq![FIELD_SEP] + hex64(expires_at)
}

/// The signature over a payload: the hex digest of the server secret,
/// a separator and the payload.
pub open spec fn signature_bytes(secret: Seq<u8>, payload: Seq<u8>) -> Seq<u8> {
    hex_bytes_of(md5_of(secret + seq![FIELD_SEP] + payload))
}

/// A whole token: the payload followed by a separator and the signature.
/// 83 ASCII bytes in all.
pub open spec fn token_bytes(
    subject_id: u64,
    issued_at: u64,
    expires_at: u64,
    secret: Seq<u8>,
) -> Seq<u8> {
    payload_bytes(subject_id, issued_at, expires_at) + seq![FIELD_SEP] + signature_bytes(
        secret,
        payload_bytes(subject_id, issued_at, expires_at),
    )
}

/// Whether a byte is a lowercase hex digit.
pub open spec fn is_hex_digit(b: u8) -> bool {
    0x30 <= b <= 0x39 || 0x61 <= b <= 0x66
}

/// The value of a lowercase hex digit byte.
pub open spec fn hex_val(b: u8) -> u8
    recommends
        is_hex_digit(b),
{
    if b <= 0x39 {
        (b - 0x30) as u8
    } else {
        (b - 0x57) as u8
    }
}

/// Whether every byte of the sequence is a lowercase hex digit.
pub open spec fn nibbles_valid(s: Seq<u8>) -> bool {
    forall|i: int| 0 <= i < s.len() ==> is_hex_digit(#[trigger] s[i])
}

/// The bytes a hex digit sequence spells, two digits each.
pub open spec fn bytes_from_hex(s: Seq<u8>) -> Seq<u8> {
    Seq::new(s.len() / 2, |j: int| (hex_val(s[2 * j]) * 16 + hex_val(s[2 * j + 1])) as u8)
}

/// The 64-bit value sixteen hex digits spell.
pub open spec fn parse_hex64(s: Seq<u8>) -> u64
    recommends
        s.len() == 16,
        nibbles_valid(s),
{
    spec_u64_from_le_bytes(bytes_from_hex(s))
}

/// A hex digit spells back the value it was made from, and is a valid
/// lowercase digit.
proof fn lemma_hex_digit_roundtrip(n: u8)
    requires
        n < 16,
    ensures
        is_hex_digit(hex_digit_byte(n)),
        hex_val(hex_digit_byte(n)) == n,
{
}

/// Hex encoding of bytes decodes back to the same bytes, and every digit it
/// produces is a valid lowercase digit.
pub proof fn lemma_hex_bytes_roundtrip(data: Seq<u8>)
    ensures
        hex_bytes_of(data).len() == 2 * data.len(),
        nibbles_valid(hex_bytes_of(data)),
        bytes_from_hex(hex_bytes_of(data)) == data,
{
    let h = hex_bytes_of(data);
    assert forall|i: int| 0 <= i < h.len() implies is_hex_digit(#[trigger] h[i]) by {
        let b = data[i / 2];
        assert((b >> 4) < 16 && (b & 0x0f) < 16) by (bit_vector);
        if i % 2 == 0 {
            lemma_hex_digit_roundtrip(b >> 4);
        } else {
            lemma_hex_digit_roundtrip(b & 0x0f);
        }
    }
    assert forall|j: int| 0 <= j < data.len() implies bytes_from_hex(h)[j] == data[j] by {
        let b = data[j];
        assert((b >> 4) < 16 && (b & 0x0f) < 16) by (bit_vector);
        lemma_hex_digit_roundtrip(b >> 4);
        lemma_hex_digit_roundtrip(b & 0x0f);
        assert(h[2 * j] == hex_digit_byte(b >> 4));
        assert(h[2 * j + 1] == hex_digit_byte(b & 0x0f));
        assert((b >> 4) * 16 + (b & 0x0f) == b) by (bit_vector);
    }
    assert(bytes_from_hex(h) =~= data);
}

/// A token field spells back the value it encodes.
pub proof fn lemma_hex64_roundtrip(x: u64)
    ensures
        hex64(x).len() == 16,
        nibbles_valid(hex64(x)),
        parse_hex64(hex64(x)) == x,
{
    lemma_auto_spec_u64_to_from_le_bytes();
    lemma_hex_bytes_roundtrip(spec_u64_to_le_bytes(x));
}

/// The lowercase hex digit byte for one value below 16.
fn hex_digit(n: u8) -> (r: u8)
    requires
        n < 16,
    ensures
        r == hex_digit_byte(n),
{
    if n < 10 {
        0x30 + n
    } else {
        0x57 + n
    }
}

/// Appends every byte of `data` to `out`.
fn push_all(out: &mut Vec<u8>, data: &[u8])
    ensures
        final(out)@ == old(out)@ + data@,
{
    let n = data.len();
    let mut i: usize = 0;
    while i < n
        invariant
            n == data@.len(),
            i <= n,
            out@ == old(out)@ + data@.subrange(0, i as int),
        decreases n - i,
    {
        out.push(data[i]);
        proof {
            assert(out@ =~= old(out)@ + data@.subrange(0, i + 1 as int));
        }
        i = i + 1;
    }
    proof {
        assert(old(out)@ + data@.subrange(0, n as int) =~= old(out)@ + data@);
    }
}

/// Appends the hex encoding of `data` to `out`.
fn push_hex(out: &mut Vec<u8>, data: &[u8])
    ensures
        final(out)@ == old(out)@ + hex_bytes_of(data@),
{
    let n = data.len();
    let mut i: usize = 0;
    while i < n
        invariant
            n == data@.len(),
            i <= n,
            out@ == old(out)@ + hex_bytes_of(data@).subrange(0, 2 * i as int),
        decreases n - i,
    {
        let b = data[i];
        proof {
            assert((b >> 4) < 16 && (b & 0x0f) < 16) by (bit_vector);
        }
        out.push(hex_digit(b >> 4));
        out.push(hex_digit(b & 0x0f));
        proof {
            assert(out@ =~= old(out)@ + hex_bytes_of(data@).subrange(0, 2 * (i + 1 as int)));
        }
        i = i + 1;
    }
    proof {
        assert(old(out)@ + hex_bytes_of(data@).subrange(0, 2 * n as int) =~= old(out)@
            + hex_bytes_of(data@));
    }
}

/// Appends one 64-bit token field, sixteen hex digits, to `out`.
fn push_hex64(out: &mut Vec<u8>, x: u64)
    ensures
        final(out)@ == old(out)@ + hex64(x),
{
    let bytes = u64_to_le_bytes(x);
    push_hex(out, bytes.as_slice());
}

/// Mints the signed token for a subject: the payload carries the subject id,
/// the issue second and the expiry second, and the signature binds the
/// payload to the server secret.
pub fn issue_token(subject_id: u64, issued_at: u64, expires_at: u64, secret: &str) -> (t: Vec<u8>)
    ensures
        t@ == token_bytes(subject_id, issued_at, expires_at, secret.spec_bytes()),
{
    let mut payload: Vec<u8> = Vec::new();
    push_hex64(&mut payload, subject_id);
    payload.push(FIELD_SEP);
    push_hex64(&mut payload, issued_at);
    payload.push(FIELD_SEP);
    push_hex64(&mut payload, expires_at);
    proof {
        assert(payload@ =~= payload_bytes(subject_id, issued_at, expires_at));
    }

    let mut mac_input: Vec<u8> = Vec::new();
    push_all(&mut mac_input, secret.as_bytes());
    mac_input.push(FIELD_SEP);
    push_all(&mut mac_input, payload.as_slice());
    proof {
        assert(mac_input@ =~= secret.spec_bytes() + seq![FIELD_SEP] + payload@);
    }

    let digest = crate::credential::md5_digest(mac_input.as_slice());
    let mut t = payload;
    t.push(FIELD_SEP);
    push_hex(&mut t, digest.as_slice());
    proof {
        assert(t@ =~= token_bytes(subject_id, issued_at, expires_at, secret.spec_bytes()));
    }
    t
}

/// The shape a token must have before its fields mean anything: the three
/// fixed-width hex fields with their separators, and room for a signature.
pub open spec fn token_wf(t: Seq<u8>) -> bool {
    &&& t.len() >= 51
    &&& t[16] == FIELD_SEP
    &&& t[33] == FIELD_SEP
    &&& t[50] == FIELD_SEP
    &&& nibbles_valid(t.subrange(0, 16))
    &&& nibbles_valid(t.subrange(17, 33))
    &&& nibbles_valid(t.subrange(34, 50))
}

/// The subject id a well-formed token carries.
pub open spec fn token_subject(t: Seq<u8>) -> u64 {
    parse_hex64(t.subrange(0, 16))
}

/// The issue second a well-formed token carries.
pub open spec fn token_issued_at(t: Seq<u8>) -> u64 {
    parse_hex64(t.subrange(17, 33))
}

/// The expiry second a well-formed token carries.
pub open spec fn token_expires_at(t: Seq<u8>) -> u64 {
    parse_hex64(t.subrange(34, 50))
}

/// Whether the token's trailing bytes are exactly the signature that the
/// given secret derives over its payload.
pub open spec fn token_signed(t: Seq<u8>, secret: Seq<u8>) -> bool {
    t.subrange(51, t.len() as int) == signature_bytes(secret, t.subrange(0, 50))
}

/// The validation verdict for a presented token under a secret at one
/// moment: malformed unless it has the right shape and the signature the
/// secret derives; expired from its expiry second on; the subject identity
/// otherwise.
pub open spec fn validate_spec(t: Seq<u8>, secret: Seq<u8>, now: u64) -> Result<
    RequestIdentity,
    TokenError,
> {
    if !(token_wf(t) && token_signed(t, secret)) {
        Err(TokenError::Malformed)
    } else if now >= token_expires_at(t) {
        Err(TokenError::Expired)
    } else {
        Ok(RequestIdentity { subject_id: token_subject(t) })
    }
}

/// Whether a byte is a lowercase hex digit.
fn is_hex_digit_byte(b: u8) -> (r: bool)
    ensures
        r == is_hex_digit(b),
{
    (0x30 <= b && b <= 0x39) || (0x61 <= b && b <= 0x66)
}

/// Reads the sixteen hex digits of one token field; answers nothing exactly
/// when one of the sixteen bytes is not a lowercase hex digit.
fn parse_field(t: &[u8], start: usize) -> (r: Option<u64>)
    requires
        start + 16 <= t@.len(),
    ensures
        r is Some <==> nibbles_valid(t@.subrange(start as int, start + 16)),
        r matches Some(x) ==> x == parse_hex64(t@.subrange(start as int, start + 16)),
{
    let ghost s = t@.subrange(start as int, start + 16);
    let n = t.len();
    let mut bytes: Vec<u8> = Vec::new();
    let mut j: usize = 0;
    while j < 8
        invariant
            n == t@.len(),
            start + 16 <= n,
            j <= 8,
            s == t@.subrange(start as int, start + 16),
            bytes@ == bytes_from_hex(s).subrange(0, j as int),
            forall|k: int| 0 <= k < 2 * j ==> is_hex_digit(#[trigger] s[k]),
        decreases 8 - j,
    {
        let hi = t[start + 2 * j];
        let lo = t[start + 2 * j + 1];
        proof {
            assert(hi == s[2 * j]);
            assert(lo == s[2 * j + 1]);
        }
        if !is_hex_digit_byte(hi) || !is_hex_digit_byte(lo) {
            proof {
                assert(!nibbles_valid(s));
            }
            return None;
        }
        let hi_val = if hi <= 0x39 {
            hi - 0x30
        } else {
            hi - 0x57
        };
        let lo_val = if lo <= 0x39 {
            lo - 0x30
        } else {
            lo - 0x57
        };
        bytes.push(hi_val * 16 + lo_val);
        proof {
            assert(bytes@ =~= bytes_from_hex(s).subrange(0, j + 1));
        }
        j = j + 1;
    }
    proof {
        assert(bytes@ =~= bytes_from_hex(s));
        assert(nibbles_valid(s));
    }
    Some(u64_from_le_bytes(bytes.as_slice()))
}

/// Appends the bytes of `data` between `from` and `to` to `out`.
fn push_range(out: &mut Vec<u8>, data: &[u8], from: usize, to: usize)
    requires
        from <= to <= data@.len(),
    ensures
        final(out)@ == old(out)@ + data@.subrange(from as int, to as int),
{
    let mut i: usize = from;
    while i < to
        invariant
            from <= i <= to <= data@.len(),
            out@ == old(out)@ + data@.subrange(from as int, i as int),
        decreases to - i,
    {
        out.push(data[i]);
        proof {
            assert(out@ =~= old(out)@ + data@.subrange(from as int, i + 1 as int));
        }
        i = i + 1;
    }
}

/// Whether the bytes of `t` from `start` on are exactly the bytes of
/// `expected`.
fn tail_matches(t: &[u8], start: usize, expected: &Vec<u8>) -> (r: bool)
    requires
        start <= t@.len(),
    ensures
        r == (t@.subrange(start as int, t@.len() as int) == expected@),
{
    let n = t.len();
    if n - start != expected.len() {
        proof {
            assert(t@.subrange(start as int, t@.len() as int).len() != expected@.len());
        }
        return false;
    }
    let mut i: usize = start;
    while i < n
        invariant
            start <= i <= n,
            n == t@.len(),
            n - start == expected@.len(),
            forall|k: int| start <= k < i ==> t@[k] == expected@[k - start],
        decreases n - i,
    {
        if t[i] != expected[i - start] {
            proof {
                assert(t@.subrange(start as int, t@.len() as int)[i - start] != expected@[i
                    - start]);
            }
            return false;
        }
        i = i + 1;
    }
    proof {
        assert(t@.subrange(start as int, t@.len() as int) =~= expected@);
    }
    true
}

/// Checks a presented token against the secret and the clock: exactly the
/// verdict of `validate_spec`.
pub fn validate_token(t: &[u8], secret: &str, now: u64) -> (r: Result<RequestIdentity, TokenError>)
    ensures
        r == validate_spec(t@, secret.spec_bytes(), now),
{
    if t.len() < 51 {
        return Err(TokenError::Malformed);
    }
    if t[16] != FIELD_SEP || t[33] != FIELD_SEP || t[50] != FIELD_SEP {
        return Err(TokenError::Malformed);
    }
    let subject_id = match parse_field(t, 0) {
        Some(x) => x,
        None => {
            return Err(TokenError::Malformed);
        },
    };
    let issued_at = match parse_field(t, 17) {
        Some(x) => x,
        None => {
            return Err(TokenError::Malformed);
        },
    };
    let expires_at = match parse_field(t, 34) {
        Some(x) => x,
        None => {
            return Err(TokenError::Malformed);
        },
    };

    let mut mac_input: Vec<u8> = Vec::new();
    push_all(&mut mac_input, secret.as_bytes());
    mac_input.push(FIELD_SEP);
    push_range(&mut mac_input, t, 0, 50);
    proof {
        assert(mac_input@ =~= secret.spec_bytes() + seq![FIELD_SEP] + t@.subrange(0, 50));
    }
    let digest = crate::credential::md5_digest(mac_input.as_slice());
    let mut expected: Vec<u8> = Vec::new();
    push_hex(&mut expected, digest.as_slice());

    if !tail_matches(t, 51, &expected) {
        return Err(TokenError::Malformed);
    }
    if now >= expires_at {
        return Err(TokenError::Expired);
    }
    Ok(RequestIdentity { subject_id })
}

/// The auth guard's transport-agnostic gate: it receives the presented
/// token or its absence, and answers the identity it vouches for or why it
/// refuses.
pub fn authenticate(presented: Option<&Vec<u8>>, secret: &str, now: u64) -> (r: Result<
    RequestIdentity,
    TokenError,
>)
    ensures
        presented is None ==> r == Err::<RequestIdentity, TokenError>(TokenError::Missing),
        presented matches Some(t) ==> r == validate_spec(t@, secret.spec_bytes(), now),
{
    match presented {
        None => Err(TokenError::Missing),
        Some(t) => validate_token(t.as_slice(), secret, now),
    }
}

/// The boundary's answer for every refused token: whichever variant was
/// tagged internally, the client learns one generic word, so no detail of
/// which check failed leaks out.
pub fn token_rejection_message(e: &TokenError) -> (r: String)
    ensures
        r@ == "Unauthorized"@,
{
    match e {
        TokenError::Missing => "Unauthorized".to_owned(),
        TokenError::Malformed => "Unauthorized".to_owned(),
        TokenError::Expired => "Unauthorized".to_owned(),
        TokenError::Revoked => "Unauthorized".to_owned(),
    }
}

/// A freshly minted token is well formed, carries back exactly the fields
/// it was minted from, and bears the signature of the minting secret.
pub proof fn lemma_token_bytes_parse(subject_id: u64, issued_at: u64, expires_at: u64, secret: Seq<u8>)
    ensures
        ({
            let t = token_bytes(subject_id, issued_at, expires_at, secret);
            &&& token_wf(t)
            &&& token_signed(t, secret)
            &&& token_subject(t) == subject_id
            &&& token_issued_at(t) == issued_at
            &&& token_expires_at(t) == expires_at
            &&& t.subrange(0, 50) == payload_bytes(subject_id, issued_at, expires_at)
        }),
{
    lemma_hex64_roundtrip(subject_id);
    lemma_hex64_roundtrip(issued_at);
    lemma_hex64_roundtrip(expires_at);
    let t = token_bytes(subject_id, issued_at, expires_at, secret);
    let p = payload_bytes(subject_id, issued_at, expires_at);
    assert(t.subrange(0, 16) =~= hex64(subject_id));
    assert(t.subrange(17, 33) =~= hex64(issued_at));
    assert(t.subrange(34, 50) =~= hex64(expires_at));
    assert(t.subrange(0, 50) =~= p);
    assert(t.subrange(51, t.len() as int) =~= signature_bytes(secret, p));
}

/// Law: a token issued at some second with a given expiry validates under
/// the minting secret for every moment strictly before the expiry, and
/// fails as expired from the expiry moment on.
pub proof fn lemma_token_lifetime(
    subject_id: u64,
    issued_at: u64,
    expires_at: u64,
    secret: Seq<u8>,
    now: u64,
)
    ensures
        now < expires_at ==> validate_spec(
            token_bytes(subject_id, issued_at, expires_at, secret),
            secret,
            now,
        ) == Ok::<RequestIdentity, TokenError>(RequestIdentity { subject_id }),
        now >= expires_at ==> validate_spec(
            token_bytes(subject_id, issued_at, expires_at, secret),
            secret,
            now,
        ) == Err::<RequestIdentity, TokenError>(TokenError::Expired),
{
    lemma_token_bytes_parse(subject_id, issued_at, expires_at, secret);
}

/// Law: a token minted under one secret fails as malformed under a
/// checking secret that derives a different signature for its payload.
/// (Two secrets whose derived signatures collide on this payload are the
/// one case left out: the digest does not distinguish them.)
pub proof fn lemma_foreign_secret_rejected(
    subject_id: u64,
    issued_at: u64,
    expires_at: u64,
    minting_secret: Seq<u8>,
    checking_secret: Seq<u8>,
    now: u64,
)
    requires
        signature_bytes(checking_secret, payload_bytes(subject_id, issued_at, expires_at))
            != signature_bytes(minting_secret, payload_bytes(subject_id, issued_at, expires_at)),
    ensures
        validate_spec(
            token_bytes(subject_id, issued_at, expires_at, minting_secret),
            checking_secret,
            now,
        ) == Err::<RequestIdentity, TokenError>(TokenError::Malformed),
{
    lemma_token_bytes_parse(subject_id, issued_at, expires_at, minting_secret);
}

/// Tokens minted at different seconds are different byte strings, whatever
/// else they share.
pub proof fn lemma_distinct_issue_times_distinct_tokens(
    subject_id: u64,
    iat1: u64,
    exp1: u64,
    iat2: u64,
    exp2: u64,
    secret1: Seq<u8>,
    secret2: Seq<u8>,
)
    requires
        iat1 != iat2,
    ensures
        token_bytes(subject_id, iat1, exp1, secret1) != token_bytes(subject_id, iat2, exp2, secret2),
{
    lemma_token_bytes_parse(subject_id, iat1, exp1, secret1);
    lemma_token_bytes_parse(subject_id, iat2, exp2, secret2);
    let t1 = token_bytes(subject_id, iat1, exp1, secret1);
    let t2 = token_bytes(subject_id, iat2, exp2, secret2);
    assert(token_issued_at(t1) == iat1);
    assert(token_issued_at(t2) == iat2);
}

} // verus!
