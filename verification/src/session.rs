use vstd::prelude::*;
use crate::credential::{bcrypt_matches, verify_password};
use crate::models::UserFromDBWithPassword;
use crate::token::{
    issue_token, lemma_distinct_issue_times_distinct_tokens, lemma_token_bytes_parse,
    lemma_token_lifetime, token_bytes, validate_spec, validate_token, RequestIdentity, StorePolicy,
    TokenError,
};
use vstd::string::StringSliceAdditionalSpecFns;

verus! {

/// Why a login attempt was refused. The two causes collapse to one generic
/// response at the boundary so that account existence is not revealed; the
/// tag exists for diagnostics.
#[derive(Clone, Copy, PartialEq, Eq, Structural, Debug)]
pub enum CredentialError {
    /// No credential record exists for the email.
    NotFound,
    /// The password does not match the stored hash.
    Mismatch,
}

/// A transient failure of the external session store.
#[derive(Clone, Copy, PartialEq, Eq, Structural, Debug)]
pub struct StoreError;

/// What a successful login hands back: the minted token and the subject it
/// names.
#[derive(Debug)]
pub struct LoginSuccess {
    pub token: Vec<u8>,
    pub user_id: i64,
}

/// Whether no two entries carry the same subject key.
spec fn keys_unique(s: Seq<(u64, Vec<u8>)>) -> bool {
    forall|i: int, j: int| 0 <= i < j < s.len() ==> (#[trigger] s[i]).0 != (#[trigger] s[j]).0
}

/// The registry an entry list stands for, later entries winning.
spec fn entries_map(s: Seq<(u64, Vec<u8>)>) -> Map<u64, Seq<u8>>
    decreases s.len(),
{
    if s.len() == 0 {
        Map::empty()
    } else {
        entries_map(s.drop_last()).insert(s.last().0, s.last().1@)
    }
}

proof fn lemma_entries_map_contains(s: Seq<(u64, Vec<u8>)>, k: u64)
    ensures
        entries_map(s).contains_key(k) <==> exists|i: int|
            0 <= i < s.len() && (#[trigger] s[i]).0 == k,
    decreases s.len(),
{
    if s.len() > 0 {
        lemma_entries_map_contains(s.drop_last(), k);
        if s.last().0 == k {
            assert(s[s.len() - 1].0 == k);
        } else if entries_map(s).contains_key(k) {
            let i = choose|i: int| 0 <= i < s.drop_last().len() && (#[trigger] s.drop_last()[i]).0
                == k;
            assert(s[i].0 == k);
        } else if exists|i: int| 0 <= i < s.len() && (#[trigger] s[i]).0 == k {
            let i = choose|i: int| 0 <= i < s.len() && (#[trigger] s[i]).0 == k;
            assert(s.drop_last()[i].0 == k);
        }
    }
}

proof fn lemma_entries_map_value(s: Seq<(u64, Vec<u8>)>, i: int, k: u64)
    requires
        keys_unique(s),
        0 <= i < s.len(),
        s[i].0 == k,
    ensures
        entries_map(s).contains_key(k),
        entries_map(s)[k] == s[i].1@,
    decreases s.len(),
{
    if i == s.len() - 1 {
    } else {
        assert(keys_unique(s.drop_last())) by {
            assert(forall|x: int, y: int|
                0 <= x < y < s.drop_last().len() ==> (#[trigger] s.drop_last()[x]).0
                    != (#[trigger] s.drop_last()[y]).0);
        }
        assert(s.drop_last()[i].0 == k);
        lemma_entries_map_value(s.drop_last(), i, k);
        assert(s.last().0 != k);
    }
}

proof fn lemma_entries_map_update(s: Seq<(u64, Vec<u8>)>, i: int, p: (u64, Vec<u8>))
    requires
        keys_unique(s),
        0 <= i < s.len(),
        s[i].0 == p.0,
    ensures
        entries_map(s.update(i, p)) =~= entries_map(s).insert(p.0, p.1@),
        keys_unique(s.update(i, p)),
    decreases s.len(),
{
    let su = s.update(i, p);
    assert(keys_unique(su)) by {
        assert(forall|x: int|
            0 <= x < s.len() && x != i ==> (#[trigger] su[x]).0 == s[x].0);
    }
    if i == s.len() - 1 {
        assert(su.drop_last() =~= s.drop_last());
        assert(su.last() == p);
    } else {
        assert(keys_unique(s.drop_last())) by {
            assert(forall|x: int, y: int|
                0 <= x < y < s.drop_last().len() ==> (#[trigger] s.drop_last()[x]).0
                    != (#[trigger] s.drop_last()[y]).0);
        }
        assert(s.drop_last()[i].0 == p.0);
        lemma_entries_map_update(s.drop_last(), i, p);
        assert(su.drop_last() =~= s.drop_last().update(i, p));
        assert(su.last() == s.last());
        assert(s.last().0 != p.0);
    }
}

/// The in-process model of the revocable session store: one current token
/// for each subject, replaced wholesale by a newer login. The external
/// key-value registry in front of it keeps the same contract, keyed by the
/// subject.
pub struct SessionStore {
    entries: Vec<(u64, Vec<u8>)>,
}

impl View for SessionStore {
    type V = Map<u64, Seq<u8>>;

    closed spec fn view(&self) -> Map<u64, Seq<u8>> {
        entries_map(self.entries@)
    }
}

/// Finds the entry of a subject, if one is there.
fn find_entry(entries: &Vec<(u64, Vec<u8>)>, subject_id: u64) -> (r: Option<usize>)
    ensures
        r matches Some(i) ==> i < entries@.len() && entries@[i as int].0 == subject_id,
        r is None ==> forall|i: int|
            0 <= i < entries@.len() ==> (#[trigger] entries@[i]).0 != subject_id,
{
    let n = entries.len();
    let mut i: usize = 0;
    while i < n
        invariant
            i <= n,
            n == entries@.len(),
            forall|k: int| 0 <= k < i ==> (#[trigger] entries@[k]).0 != subject_id,
        decreases n - i,
    {
        if entries[i].0 == subject_id {
            return Some(i);
        }
        i = i + 1;
    }
    None
}

impl SessionStore {
    #[verifier::type_invariant]
    spec fn inv(self) -> bool {
        keys_unique(self.entries@)
    }

    /// An empty registry: no subject has a session.
    pub fn new() -> (s: SessionStore)
        ensures
            s@ == Map::<u64, Seq<u8>>::empty(),
    {
        SessionStore { entries: Vec::new() }
    }

    /// Registers `token` as the subject's current session, overwriting any
    /// previous one.
    pub fn set(&mut self, subject_id: u64, token: Vec<u8>)
        ensures
            final(self)@ == old(self)@.insert(subject_id, token@),
    {
        proof {
            use_type_invariant(&*self);
        }
        let mut entries: Vec<(u64, Vec<u8>)> = Vec::new();
        std::mem::swap(&mut entries, &mut self.entries);
        let ghost e0 = entries@;
        match find_entry(&entries, subject_id) {
            Some(i) => {
                entries[i] = (subject_id, token);
                proof {
                    lemma_entries_map_update(e0, i as int, entries@[i as int]);
                }
            },
            None => {
                entries.push((subject_id, token));
                proof {
                    assert(entries@.drop_last() =~= e0);
                    assert(keys_unique(entries@)) by {
                        assert(forall|x: int|
                            0 <= x < e0.len() ==> (#[trigger] entries@[x]).0 == e0[x].0);
                    }
                }
            },
        }
        self.entries = entries;
    }

    /// Answers the subject's current session token, or nothing when no
    /// session is registered for it.
    pub fn get(&self, subject_id: u64) -> (r: Option<&Vec<u8>>)
        ensures
            r is Some <==> self@.contains_key(subject_id),
            r matches Some(v) ==> self@.contains_key(subject_id) && v@ == self@[subject_id],
    {
        proof {
            use_type_invariant(&*self);
        }
        let n = self.entries.len();
        let mut i: usize = 0;
        while i < n
            invariant
                i <= n,
                n == self.entries@.len(),
                keys_unique(self.entries@),
                forall|k: int| 0 <= k < i ==> (#[trigger] self.entries@[k]).0 != subject_id,
            decreases n - i,
        {
            let e = &self.entries[i];
            if e.0 == subject_id {
                proof {
                    lemma_entries_map_value(self.entries@, i as int, subject_id);
                }
                return Some(&e.1);
            }
            i = i + 1;
        }
        proof {
            lemma_entries_map_contains(self.entries@, subject_id);
        }
        None
    }
}

/// Whether two byte strings are equal.
fn vec_bytes_equal(a: &Vec<u8>, b: &Vec<u8>) -> (r: bool)
    ensures
        r == (a@ == b@),
{
    let n = a.len();
    if n != b.len() {
        return false;
    }
    let mut i: usize = 0;
    while i < n
        invariant
            i <= n,
            n == a@.len() == b@.len(),
            forall|k: int| 0 <= k < i ==> a@[k] == b@[k],
        decreases n - i,
    {
        if a[i] != b[i] {
            return false;
        }
        i = i + 1;
    }
    proof {
        assert(a@ =~= b@);
    }
    true
}

/// In strict-revocation mode, a token that already carries a valid
/// signature passes only if it is the store's current token for its
/// subject. How a failed store read is treated is the deployment's explicit
/// policy choice: judged by signature alone, or rejected.
pub fn check_revocation(
    presented: &Vec<u8>,
    store_read: Result<Option<&Vec<u8>>, StoreError>,
    policy: StorePolicy,
) -> (r: Result<(), TokenError>)
    ensures
        store_read matches Ok(Some(current)) ==> r == (if current@ == presented@ {
            Ok::<(), TokenError>(())
        } else {
            Err::<(), TokenError>(TokenError::Revoked)
        }),
        store_read matches Ok(None) ==> r == Err::<(), TokenError>(TokenError::Revoked),
        store_read is Err ==> r == (if policy is FailOpen {
            Ok::<(), TokenError>(())
        } else {
            Err::<(), TokenError>(TokenError::Revoked)
        }),
{
    match store_read {
        Ok(Some(current)) => {
            if vec_bytes_equal(current, presented) {
                Ok(())
            } else {
                Err(TokenError::Revoked)
            }
        },
        Ok(None) => Err(TokenError::Revoked),
        Err(_) => {
            match policy {
                StorePolicy::FailOpen => Ok(()),
                StorePolicy::FailClosed => Err(TokenError::Revoked),
            }
        },
    }
}

/// The strict-revocation verdict over the registry's contents: the
/// signature verdict first, then the demand that the presented token is
/// the subject's current one.
pub open spec fn strict_validate_spec(
    t: Seq<u8>,
    sessions: Map<u64, Seq<u8>>,
    secret: Seq<u8>,
    now: u64,
) -> Result<RequestIdentity, TokenError> {
    match validate_spec(t, secret, now) {
        Err(e) => Err(e),
        Ok(identity) => if sessions.contains_key(identity.subject_id) && sessions[identity.subject_id]
            == t {
            Ok(identity)
        } else {
            Err(TokenError::Revoked)
        },
    }
}

/// The auth guard in strict-revocation mode against the in-process store:
/// a valid signature is not enough, the token must also be the subject's
/// registered session.
pub fn authenticate_with_store(
    presented: Option<&Vec<u8>>,
    store: &SessionStore,
    secret: &str,
    now: u64,
) -> (r: Result<RequestIdentity, TokenError>)
    ensures
        presented is None ==> r == Err::<RequestIdentity, TokenError>(TokenError::Missing),
        presented matches Some(t) ==> r == strict_validate_spec(
            t@,
            store@,
            secret.spec_bytes(),
            now,
        ),
{
    let t = match presented {
        None => {
            return Err(TokenError::Missing);
        },
        Some(t) => t,
    };
    let identity = match validate_token(t.as_slice(), secret, now) {
        Err(e) => {
            return Err(e);
        },
        Ok(identity) => identity,
    };
    match store.get(identity.subject_id) {
        Some(current) => {
            if vec_bytes_equal(current, t) {
                Ok(identity)
            } else {
                Err(TokenError::Revoked)
            }
        },
        None => Err(TokenError::Revoked),
    }
}

/// The issuer's whole login step, the credential check and the session
/// registration: absent credential and wrong password are refused with
/// their tags; a verified password mints the token for the fixed TTL and
/// registers it as the subject's only session.
pub fn login(
    user: Option<&UserFromDBWithPassword>,
    password: &str,
    secret: &str,
    now: u64,
    ttl: u64,
    store: &mut SessionStore,
) -> (r: Result<LoginSuccess, CredentialError>)
    requires
        now + ttl <= u64::MAX,
        user matches Some(u) ==> u.id >= 0,
    ensures
        user is None ==> r == Err::<LoginSuccess, CredentialError>(CredentialError::NotFound)
            && *final(store) == *old(store),
        user matches Some(u) ==> (!bcrypt_matches(password.spec_bytes(), u.password@) ==> (r
            == Err::<LoginSuccess, CredentialError>(CredentialError::Mismatch) && *final(store)
            == *old(store))),
        user matches Some(u) ==> (bcrypt_matches(password.spec_bytes(), u.password@) ==> (
        r matches Ok(ls) && ls.user_id == u.id && ls.token@ == token_bytes(
            u.id as u64,
            now,
            (now + ttl) as u64,
            secret.spec_bytes(),
        ) && final(store)@ == old(store)@.insert(u.id as u64, ls.token@))),
{
    let u = match user {
        None => {
            return Err(CredentialError::NotFound);
        },
        Some(u) => u,
    };
    if !verify_password(password, u.password.as_str()) {
        return Err(CredentialError::Mismatch);
    }
    let token = issue_token(u.id as u64, now, now + ttl, secret);
    let returned = token.clone();
    proof {
        assert(returned@ =~= token@);
    }
    store.set(u.id as u64, token);
    Ok(LoginSuccess { token: returned, user_id: u.id })
}

/// The boundary's answer for every refused login: an unknown email and a
/// wrong password read identically to the client, so accounts cannot be
/// enumerated.
pub fn credential_rejection_message(e: &CredentialError) -> (r: String)
    ensures
        r@ == "Invalid credentials"@,
{
    match e {
        CredentialError::NotFound => "Invalid credentials".to_owned(),
        CredentialError::Mismatch => "Invalid credentials".to_owned(),
    }
}

/// Law: when a second login for the same subject has registered its token,
/// an earlier token minted at a different second is rejected as revoked in
/// strict-revocation mode, yet still validates by signature alone until its
/// own expiry.
pub proof fn lemma_second_login_revokes_first(
    subject_id: u64,
    iat1: u64,
    exp1: u64,
    iat2: u64,
    exp2: u64,
    secret: Seq<u8>,
    sessions: Map<u64, Seq<u8>>,
    now: u64,
)
    requires
        iat1 != iat2,
        now < exp1,
        sessions.contains_key(subject_id),
        sessions[subject_id] == token_bytes(subject_id, iat2, exp2, secret),
    ensures
        strict_validate_spec(token_bytes(subject_id, iat1, exp1, secret), sessions, secret, now)
            == Err::<RequestIdentity, TokenError>(TokenError::Revoked),
        validate_spec(token_bytes(subject_id, iat1, exp1, secret), secret, now)
            == Ok::<RequestIdentity, TokenError>(RequestIdentity { subject_id }),
{
    lemma_token_lifetime(subject_id, iat1, exp1, secret, now);
    lemma_token_bytes_parse(subject_id, iat1, exp1, secret);
    lemma_distinct_issue_times_distinct_tokens(
        subject_id,
        iat1,
        exp1,
        iat2,
        exp2,
        secret,
        secret,
    );
}

} // verus!
