//! Passwords of the accounts: how a new one is stored, and how a login is
//! judged against what is stored.

use crate::schema::db::User;
use crate::schema::ids::UserId;
use vstd::prelude::*;
use vstd::string::*;

verus! {

/// The hash of a password under a salt as argon2 writes it, with its
/// default parameters, in the PHC string format; `None` where argon2 turns
/// the salt down or gives up.
pub uninterp spec fn argon2_hash(password: Seq<u8>, salt_b64: Seq<char>) -> Option<Seq<char>>;

/// Reads the salt with `SaltString::from_b64` and calls
/// `Argon2::default().hash_password` on it. Trusted: the hash, as a string,
/// is a function of the password and the salt alone.
#[verifier::external_body]
fn hash_password(password: &[u8], salt_b64: &str) -> (r: Option<String>)
    ensures
        match r {
            Some(hash) => argon2_hash(password@, salt_b64@) == Some(hash@),
            None => argon2_hash(password@, salt_b64@).is_none(),
        },
{
    let salt = argon2::password_hash::SaltString::from_b64(salt_b64).ok()?;
    let hasher = argon2::Argon2::default();
    let hash = argon2::PasswordHasher::hash_password(&hasher, password, &salt).ok()?;
    Some(hash.to_string())
}

/// Calls `SaltString::generate` with the thread's generator. Nothing is
/// promised of the salt: two calls differ.
#[verifier::external_body]
fn random_salt() -> (salt_b64: String) {
    argon2::password_hash::SaltString::generate(&mut rand::thread_rng()).as_str().to_owned()
}

/// How a login ended.
#[derive(Clone, Copy, Debug, PartialEq, Eq)]
pub enum Login {
    /// The password is the user's: a token is issued for the user.
    Granted(UserId),
    /// No such user, or not the user's password.
    Invalid,
    /// The stored salt could not be used, or the password not be hashed.
    Failed,
}

/// A password as it is stored.
#[derive(Clone, Debug, PartialEq, Eq)]
pub struct StoredPassword {
    pub salt_b64: String,
    pub hash: String,
}

/// The judgement of a login, given the hash of the password that was
/// presented: the login is granted where that hash is the stored one.
pub open spec fn judgement(id: UserId, stored: Seq<char>, presented: Option<Seq<char>>) -> Login {
    match presented {
        None => Login::Failed,
        Some(hash) => if hash == stored {
            Login::Granted(id)
        } else {
            Login::Invalid
        },
    }
}

/// Judges a login for the user `id`, whose stored hash is `stored`, given
/// the hash of the password that was presented, or `None` where it could
/// not be hashed.
pub fn judge(id: UserId, stored: &String, presented: Option<String>) -> (r: Login)
    ensures
        r == judgement(id, stored@, match presented {
            Some(hash) => Some(hash@),
            None => None,
        }),
{
    match presented {
        None => Login::Failed,
        Some(hash) => if hash == *stored {
            Login::Granted(id)
        } else {
            Login::Invalid
        },
    }
}

/// Judges a login with `password` against the row of the user that was
/// named, or against `None` where there is no such user.
pub fn login(user: Option<&User>, password: &str) -> (r: Login)
    ensures
        r == (match user {
            None => Login::Invalid,
            Some(user) => judgement(
                user.id,
                user.password_hash@,
                argon2_hash(password.spec_bytes(), user.password_salt_b64@),
            ),
        }),
{
    match user {
        None => Login::Invalid,
        Some(user) => {
            let presented = hash_password(password.as_bytes(), user.password_salt_b64.as_str());
            judge(user.id, &user.password_hash, presented)
        },
    }
}

/// What to store for `password` under the salt `salt_b64`, or `None` where
/// it cannot be hashed under that salt.
pub fn store_with_salt(password: &str, salt_b64: String) -> (r: Option<StoredPassword>)
    ensures
        match r {
            Some(stored) => stored.salt_b64 == salt_b64 && argon2_hash(
                password.spec_bytes(),
                salt_b64@,
            ) == Some(stored.hash@),
            None => argon2_hash(password.spec_bytes(), salt_b64@).is_none(),
        },
{
    match hash_password(password.as_bytes(), salt_b64.as_str()) {
        Some(hash) => Some(StoredPassword { salt_b64, hash }),
        None => None,
    }
}

/// What to store for a new `password`: a fresh random salt and the hash of
/// the password under it, so that a later login with the same password is
/// granted. Nothing is stored only where argon2 gave no hash of the
/// password under the salt that was drawn.
pub fn store(password: &str) -> (r: Option<StoredPassword>)
    ensures
        match r {
            Some(stored) => argon2_hash(password.spec_bytes(), stored.salt_b64@) == Some(
                stored.hash@,
            ),
            None => exists|salt_b64: Seq<char>|
                (#[trigger] argon2_hash(password.spec_bytes(), salt_b64)).is_none(),
        },
{
    let salt_b64 = random_salt();
    let ghost drawn = salt_b64@;
    let stored = store_with_salt(password, salt_b64);
    assert(stored.is_none() ==> argon2_hash(password.spec_bytes(), drawn).is_none());
    stored
}

} // verus!
