//! Accounts: registration checks, password hashing and login.
//!
//! Passwords are kept as Argon2 PHC strings; the hashing and checking are the
//! `argon2` crate's, the decisions around them are this module's.

use vstd::prelude::*;
use crate::models::{plus_hours, Session, User};
use crate::text::{chars_of, utf8_len, utf8_len_capped};

verus! {

/// How long a login session lasts: one week, in hours.
pub const SESSION_HOURS: i64 = 168;

/// The stored text is a PHC password hash string.
pub uninterp spec fn phc_parses(hash: Seq<char>) -> bool;

/// Argon2, with the parameters and salt that the PHC string `hash` names,
/// turns `password` into the output that the string holds.
pub uninterp spec fn argon2_accepts(password: Seq<char>, hash: Seq<char>) -> bool;

/// Whether `hash` is a PHC password hash string.
///
/// Trusted: calls `password_hash::PasswordHash::new` and reports whether it
/// parsed. Its result depends on the text alone.
#[verifier::external_body]
fn stored_hash_parses(hash: &str) -> (b: bool)
    ensures
        b == phc_parses(hash@),
{
    argon2::password_hash::PasswordHash::new(hash).is_ok()
}

/// Whether `password` matches the stored hash.
///
/// Trusted: parses `hash` with `PasswordHash::new` and calls
/// `PasswordVerifier::verify_password` of `Argon2::default()`, which hashes
/// the password again with the parameters and salt that the string names and
/// compares the outputs. Its result depends on its two arguments alone. Left
/// unsaid: the recomputation allocates the memory cost that the string names,
/// so a string naming a cost beyond the machine's memory aborts.
#[verifier::external_body]
fn argon2_verify(password: &str, hash: &str) -> (b: bool)
    requires
        phc_parses(hash@),
    ensures
        b == argon2_accepts(password@, hash@),
{
    match argon2::password_hash::PasswordHash::new(hash) {
        Ok(h) => argon2::password_hash::PasswordVerifier::verify_password(
            &argon2::Argon2::default(),
            password.as_bytes(),
            &h,
        ).is_ok(),
        Err(_) => false,
    }
}

/// A new Argon2 hash of `password`, as a PHC string.
///
/// Trusted: draws a salt with `SaltString::generate(&mut OsRng)` and calls
/// `PasswordHasher::hash_password` of `Argon2::default()`, then writes the
/// hash as its PHC string. The salt is random, so the text is not a function
/// of the password; what holds of every outcome, as the crate's documentation
/// shows, is that the text parses and verifies against the same password.
/// With the default parameters and a generated salt, `hash_password` refuses
/// only a password of more than `argon2::MAX_PWD_LEN` (0xFFFF_FFFF) bytes.
#[verifier::external_body]
fn argon2_hash(password: &str) -> (r: Option<String>)
    ensures
        r is Some <==> utf8_len(password@) <= MAX_PASSWORD_BYTES,
        r matches Some(h) ==> phc_parses(h@) && argon2_accepts(password@, h@),
{
    let salt = argon2::password_hash::SaltString::generate(&mut argon2::password_hash::rand_core::OsRng);
    match argon2::password_hash::PasswordHasher::hash_password(
        &argon2::Argon2::default(),
        password.as_bytes(),
        &salt,
    ) {
        Ok(h) => Some(h.to_string()),
        Err(_) => None,
    }
}

/// Why a login or a registration was refused.
#[derive(Debug, Clone, Copy, PartialEq, Eq, Structural)]
pub enum AuthError {
    UserNotFound,
    InvalidStoredPassword,
    InvalidPassword,
    UsernameTooShort,
    PasswordTooShort,
    HashFailed,
    UsernameTaken,
}

/// The message shown for a refusal.
pub open spec fn auth_error_text(e: AuthError) -> Seq<char> {
    match e {
        AuthError::UserNotFound => "User not found"@,
        AuthError::InvalidStoredPassword => "Invalid stored password"@,
        AuthError::InvalidPassword => "Invalid password"@,
        AuthError::UsernameTooShort => "Username must be at least 3 characters"@,
        AuthError::PasswordTooShort => "Password must be at least 6 characters"@,
        AuthError::HashFailed => "Failed to hash password"@,
        AuthError::UsernameTaken => "Username already exists"@,
    }
}

impl AuthError {
    /// The message shown for this refusal.
    pub fn message(&self) -> (s: &'static str)
        ensures
            s@ == auth_error_text(*self),
    {
        match self {
            AuthError::UserNotFound => "User not found",
            AuthError::InvalidStoredPassword => "Invalid stored password",
            AuthError::InvalidPassword => "Invalid password",
            AuthError::UsernameTooShort => "Username must be at least 3 characters",
            AuthError::PasswordTooShort => "Password must be at least 6 characters",
            AuthError::HashFailed => "Failed to hash password",
            AuthError::UsernameTaken => "Username already exists",
        }
    }
}

/// The longest password, in UTF-8 bytes, that Argon2 hashes.
pub const MAX_PASSWORD_BYTES: u64 = 0xFFFF_FFFF;

/// What registration makes of a username and password before anything is
/// hashed: the username needs 3 bytes (UTF-8), the password 6.
pub open spec fn registration_check(username: Seq<char>, password: Seq<char>) -> Result<(), AuthError> {
    if utf8_len(username) < 3 {
        Err(AuthError::UsernameTooShort)
    } else if utf8_len(password) < 6 {
        Err(AuthError::PasswordTooShort)
    } else {
        Ok(())
    }
}

/// What a login makes of a password and the stored hash.
pub open spec fn login_check(password: Seq<char>, stored_hash: Seq<char>) -> Result<(), AuthError> {
    if !phc_parses(stored_hash) {
        Err(AuthError::InvalidStoredPassword)
    } else if !argon2_accepts(password, stored_hash) {
        Err(AuthError::InvalidPassword)
    } else {
        Ok(())
    }
}

/// Checks the lengths of a new username and password.
pub fn validate_registration(username: &str, password: &str) -> (r: Result<(), AuthError>)
    ensures
        r == registration_check(username@, password@),
{
    let u = chars_of(username);
    if utf8_len_capped(&u, 3) < 3 {
        return Err(AuthError::UsernameTooShort);
    }
    let p = chars_of(password);
    if utf8_len_capped(&p, 6) < 6 {
        return Err(AuthError::PasswordTooShort);
    }
    Ok(())
}

/// Checks a password against a stored hash.
pub fn verify_login(password: &str, stored_hash: &str) -> (r: Result<(), AuthError>)
    ensures
        r == login_check(password@, stored_hash@),
{
    if !stored_hash_parses(stored_hash) {
        return Err(AuthError::InvalidStoredPassword);
    }
    if !argon2_verify(password, stored_hash) {
        return Err(AuthError::InvalidPassword);
    }
    Ok(())
}

/// Log in: the user must exist and the password match the stored hash; then
/// a session of one week starts now.
pub fn login(user: Option<&User>, password: &str) -> (r: Result<Session, AuthError>)
    ensures
        user is None ==> r == Err::<Session, AuthError>(AuthError::UserNotFound),
        user matches Some(u) ==> match login_check(password@, u.password_hash@) {
            Err(e) => r == Err::<Session, AuthError>(e),
            Ok(_) => r matches Ok(s) && s.user_id == u.id && crate::time::chrono_ok(s.created_at)
                && s.expires_at == plus_hours(s.created_at, SESSION_HOURS),
        },
{
    let u = match user {
        None => return Err(AuthError::UserNotFound),
        Some(u) => u,
    };
    match verify_login(password, u.password_hash.as_str()) {
        Err(e) => Err(e),
        Ok(()) => Ok(Session::new(u.id, SESSION_HOURS)),
    }
}

/// Prepare a registration: the lengths are checked, then the password is
/// hashed and the new user made. Whether the name is taken is the store's to
/// say (see `finish_registration`). The stored hash is one that a login with
/// the same password accepts.
pub fn prepare_registration(username: String, password: &str) -> (r: Result<User, AuthError>)
    ensures
        registration_check(username@, password@) is Err ==> r == Err::<User, AuthError>(
            registration_check(username@, password@)->Err_0,
        ),
        registration_check(username@, password@) is Ok ==> if utf8_len(password@) <= MAX_PASSWORD_BYTES {
            r is Ok
        } else {
            r == Err::<User, AuthError>(AuthError::HashFailed)
        },
        r matches Ok(u) ==> u.username == username && u.last_login is None && login_check(
            password@,
            u.password_hash@,
        ) == Ok::<(), AuthError>(()),
{
    match validate_registration(username.as_str(), password) {
        Err(e) => return Err(e),
        Ok(()) => {},
    }
    match argon2_hash(password) {
        None => Err(AuthError::HashFailed),
        Some(h) => Ok(User::new(username, h)),
    }
}

/// Finish a registration once the store has said whether the name is taken:
/// a new user gets a session of one week, starting now.
pub fn finish_registration(user: &User, name_taken: bool) -> (r: Result<Session, AuthError>)
    ensures
        name_taken ==> r == Err::<Session, AuthError>(AuthError::UsernameTaken),
        !name_taken ==> (r matches Ok(s) && s.user_id == user.id && crate::time::chrono_ok(s.created_at)
            && s.expires_at == plus_hours(s.created_at, SESSION_HOURS)),
{
    if name_taken {
        Err(AuthError::UsernameTaken)
    } else {
        Ok(Session::new(user.id, SESSION_HOURS))
    }
}

} // verus!
