//! Accounts and sessions: storing a password as an Argon2 hash, checking a
//! sign-in against the stored hash, and issuing session tokens.
use vstd::prelude::*;
use vstd::utf8::encode_utf8;

use argon2::password_hash::PasswordHasher;
use argon2::password_hash::PasswordVerifier;

verus! {

#[verifier::external_type_specification]
#[verifier::external_body]
pub struct ExHashError(argon2::password_hash::Error);

/// Whether `phc` parses as a PHC password-hash string
/// (`password_hash::PasswordHash::new` succeeds on it).
pub uninterp spec fn phc_well_formed(phc: Seq<char>) -> bool;

/// Whether Argon2 with its default parameters accepts `password` against the
/// PHC string `phc` (`PasswordVerifier::verify_password` returns `Ok`).
pub uninterp spec fn argon2_accepts(password: Seq<char>, phc: Seq<char>) -> bool;

/// Whether `c` belongs to the standard Base64 alphabet.
pub open spec fn is_b64_char(c: char) -> bool {
    ('A' <= c && c <= 'Z') || ('a' <= c && c <= 'z') || ('0' <= c && c <= '9') || c == '+' || c
        == '/'
}

/// Whether `salt` is sixteen bytes in unpadded standard Base64: twenty-two
/// characters of the alphabet, the last of which carries two data bits and
/// four zero bits.
pub open spec fn is_sixteen_byte_salt(salt: Seq<char>) -> bool {
    &&& salt.len() == 22
    &&& forall|i: int| 0 <= i < 22 ==> is_b64_char(#[trigger] salt[i])
    &&& salt[21] == 'A' || salt[21] == 'Q' || salt[21] == 'g' || salt[21] == 'w'
}

/// `SaltString::generate` fed by the operating system's random source
/// (`rand_core::OsRng`), as its text. The source fills sixteen random bytes
/// and encodes them in unpadded standard Base64, which is what the contract
/// claims; which bytes come out is random and not stated.
#[verifier::external_body]
fn fresh_salt() -> (salt: String)
    ensures
        is_sixteen_byte_salt(salt@),
{
    argon2::password_hash::SaltString::generate(&mut rand_core::OsRng).as_str().to_owned()
}

/// `PasswordHasher::hash_password` of `Argon2::default()` on the UTF-8 bytes
/// of `password` with the salt that `Salt::from_b64` reads from `salt`,
/// written as its PHC string. The contract claims what the password-hash
/// crate's documentation promises of a hash it produces: the PHC string
/// parses again, and verifying the same password against it succeeds. It also
/// claims success for a sixteen-byte salt and a password of at most
/// `0xFFFFFFFF` bytes: the salt text passes `Salt::from_b64` and decodes to
/// sixteen bytes, and Argon2's input checks refuse only salts under eight
/// bytes and passwords over that length; a longer password is refused. The hash itself depends on the salt
/// and is not stated.
#[verifier::external_body]
fn argon2_hash(password: &str, salt: &str) -> (r: Result<String, argon2::password_hash::Error>)
    ensures
        r matches Ok(phc) ==> phc_well_formed(phc@) && argon2_accepts(password@, phc@),
        is_sixteen_byte_salt(salt@) && encode_utf8(password@).len() <= 0xFFFF_FFFF ==> r is Ok,
        encode_utf8(password@).len() > 0xFFFF_FFFF ==> r is Err,
{
    match argon2::password_hash::Salt::from_b64(salt) {
        Ok(salt) => match argon2::Argon2::default().hash_password(password.as_bytes(), salt) {
            Ok(hash) => Ok(hash.to_string()),
            Err(e) => Err(e),
        },
        Err(e) => Err(e),
    }
}

/// `PasswordVerifier::verify_password` of `Argon2::default()` on the UTF-8
/// bytes of `password` against the hash that `PasswordHash::new` reads from
/// `phc`. The contract claims that the parse fails exactly on texts that are
/// not PHC strings, and that the answer is the verifier's.
#[verifier::external_body]
fn argon2_verify(password: &str, phc: &str) -> (r: Result<bool, argon2::password_hash::Error>)
    ensures
        r is Ok <==> phc_well_formed(phc@),
        r matches Ok(ok) ==> ok == argon2_accepts(password@, phc@),
{
    match argon2::password_hash::PasswordHash::new(phc) {
        Ok(parsed) => Ok(argon2::Argon2::default().verify_password(password.as_bytes(), &parsed).is_ok()),
        Err(e) => Err(e),
    }
}

/// Whether `c` is a lower-case hexadecimal digit.
pub open spec fn is_lower_hex(c: char) -> bool {
    ('0' <= c && c <= '9') || ('a' <= c && c <= 'f')
}

/// Whether `t` is a random (version 4) UUID in its hyphenated lower-case
/// form, as session tokens are.
pub open spec fn is_session_token(t: Seq<char>) -> bool {
    &&& t.len() == 36
    &&& forall|i: int|
        0 <= i < 36 ==> if i == 8 || i == 13 || i == 18 || i == 23 {
            t[i] == '-'
        } else {
            is_lower_hex(#[trigger] t[i])
        }
    &&& t[14] == '4'
}

/// `uuid::Uuid::new_v4().to_string()`: a random version 4 UUID written as
/// 36 characters, lower-case hexadecimal digits in groups of 8, 4, 4, 4 and 12
/// separated by hyphens, with the version digit `4`. The contract states that
/// form, as the crate's formatting code writes it; which UUID comes out is
/// random and not stated.
#[verifier::external_body]
fn new_session_token() -> (t: String)
    ensures
        is_session_token(t@),
{
    uuid::Uuid::new_v4().to_string()
}

/// Why an account operation failed.
#[derive(PartialEq, Eq, Structural)]
pub enum AuthError {
    /// Hashing a new password failed.
    HashFailed,
    /// The stored password hash is not a PHC string.
    MalformedStoredHash,
}

/// The stored form of a new password: its Argon2 hash with a fresh random
/// salt, as a PHC string that accepts the same password again. It fails only
/// for a password longer than `0xFFFFFFFF` bytes.
pub fn hash_new_password(password: &str) -> (r: Result<String, AuthError>)
    ensures
        r matches Ok(phc) ==> phc_well_formed(phc@) && argon2_accepts(password@, phc@),
        r is Err <==> encode_utf8(password@).len() > 0xFFFF_FFFF,
        r matches Err(e) ==> e == AuthError::HashFailed,
{
    let salt = fresh_salt();
    match argon2_hash(password, salt.as_str()) {
        Ok(phc) => Ok(phc),
        Err(_) => Err(AuthError::HashFailed),
    }
}

/// An account as the store holds it.
pub struct StoredAccount {
    pub user_id: i64,
    pub password_hash: String,
}

/// The result of a sign-in.
pub enum SignIn {
    /// The password matched: a new session for the user.
    Accepted { user_id: i64, session_token: String },
    /// No such user, or the password did not match.
    Rejected,
}

/// What a sign-in comes to for an account found under the name (its user id
/// and stored hash), or none, and a password.
pub enum SignInVerdict {
    Accepted(i64),
    Rejected,
    MalformedStoredHash,
}

/// The verdict of a sign-in: rejected without an account; an error when the
/// stored hash is no PHC string; otherwise accepted exactly when Argon2
/// accepts the password against the stored hash.
pub open spec fn sign_in_verdict(account: Option<(i64, Seq<char>)>, password: Seq<char>) -> SignInVerdict {
    match account {
        None => SignInVerdict::Rejected,
        Some((user_id, phc)) => if !phc_well_formed(phc) {
            SignInVerdict::MalformedStoredHash
        } else if argon2_accepts(password, phc) {
            SignInVerdict::Accepted(user_id)
        } else {
            SignInVerdict::Rejected
        },
    }
}

/// The account as the verdict reads it.
pub open spec fn account_view(account: Option<&StoredAccount>) -> Option<(i64, Seq<char>)> {
    match account {
        Some(a) => Some((a.user_id, a.password_hash@)),
        None => None,
    }
}

/// Whether a sign-in result follows a verdict, with
/// a well-formed token when it accepts.
pub open spec fn carries_out(r: Result<SignIn, AuthError>, verdict: SignInVerdict) -> bool {
    match verdict {
        SignInVerdict::Accepted(id) => r matches Ok(SignIn::Accepted { user_id, session_token })
            && user_id == id && is_session_token(session_token@),
        SignInVerdict::Rejected => r matches Ok(SignIn::Rejected),
        SignInVerdict::MalformedStoredHash => r == Err::<SignIn, AuthError>(
            AuthError::MalformedStoredHash,
        ),
    }
}

/// Whether `password` matches the stored hash of `account`.
pub fn check_password(account: &StoredAccount, password: &str) -> (r: Result<bool, AuthError>)
    ensures
        r is Ok <==> phc_well_formed(account.password_hash@),
        r matches Ok(ok) ==> ok == argon2_accepts(password@, account.password_hash@),
        r matches Err(e) ==> e == AuthError::MalformedStoredHash,
{
    match argon2_verify(password, account.password_hash.as_str()) {
        Ok(ok) => Ok(ok),
        Err(_) => Err(AuthError::MalformedStoredHash),
    }
}

/// What follows a password check for the account `user_id`: a new session
/// when the password matched, a rejection when it did not, and the check's
/// error otherwise.
pub fn sign_in_outcome(user_id: i64, check: Result<bool, AuthError>) -> (r: Result<SignIn, AuthError>)
    ensures
        check matches Ok(true) ==> r matches Ok(SignIn::Accepted { user_id: id, session_token })
            && id == user_id && is_session_token(session_token@),
        check matches Ok(false) ==> r matches Ok(SignIn::Rejected),
        check matches Err(e) ==> r == Err::<SignIn, AuthError>(e),
{
    match check {
        Ok(true) => Ok(SignIn::Accepted { user_id, session_token: new_session_token() }),
        Ok(false) => Ok(SignIn::Rejected),
        Err(e) => Err(e),
    }
}

/// Signs in with `password` to the account found under the user's name, if
/// any, as [`sign_in_verdict`] decides.
pub fn sign_in(account: Option<&StoredAccount>, password: &str) -> (r: Result<SignIn, AuthError>)
    ensures
        carries_out(r, sign_in_verdict(account_view(account), password@)),
{
    match account {
        None => Ok(SignIn::Rejected),
        Some(a) => sign_in_outcome(a.user_id, check_password(a, password)),
    }
}

/// A password stored the way [`hash_new_password`] stores it signs in: the
/// account holding that hash accepts the same password.
pub proof fn law_stored_password_signs_in(user_id: i64, password: Seq<char>, phc: Seq<char>)
    requires
        phc_well_formed(phc),
        argon2_accepts(password, phc),
    ensures
        sign_in_verdict(Some((user_id, phc)), password) == SignInVerdict::Accepted(user_id),
{
}

/// Without an account under the name, every password is rejected.
pub proof fn law_unknown_user_rejected(password: Seq<char>)
    ensures
        sign_in_verdict(None, password) == SignInVerdict::Rejected,
{
}

/// A sign-in is accepted only with a password that Argon2 accepts against the
/// account's stored hash, and only for that account.
pub proof fn law_accepted_only_with_matching_password(
    account: Option<(i64, Seq<char>)>,
    password: Seq<char>,
    id: i64,
)
    requires
        sign_in_verdict(account, password) == SignInVerdict::Accepted(id),
    ensures
        account matches Some((user_id, phc)) && user_id == id && argon2_accepts(password, phc),
{
}

} // verus!
