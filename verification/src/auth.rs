//! Passwords: the rule for forms that carry one, and the check against a stored hash.

use vstd::prelude::*;
use vstd::string::StrSliceExecFns;
use crate::errors::{login_message, AppError, AppErrorType, AppErrorView};

verus! {

/// The least number of characters of a username and of a password.
pub const MIN_FIELD_LEN: usize = 6;

/// The number of characters of the hash of a password.
pub const HASH_LEN: usize = 60;

/// What `bcrypt::verify` makes of a password and a hash: whether they match, or what it
/// says of a hash that it cannot read.
pub uninterp spec fn bcrypt_verify(password: Seq<char>, hash: Seq<char>) -> Result<bool, Seq<char>>;

/// Checks a password against a hash with `bcrypt::verify`, which takes the cost and the
/// salt from the hash, hashes the password with them and compares.
#[verifier::external_body]
fn check_hash(password: &str, hash: &str) -> (verdict: Result<bool, String>)
    ensures
        match verdict {
            Ok(same) => bcrypt_verify(password@, hash@) == Ok::<bool, Seq<char>>(same),
            Err(why) => bcrypt_verify(password@, hash@) == Err::<bool, Seq<char>>(why@),
        },
{
    match bcrypt::verify(password, hash) {
        Ok(same) => Ok(same),
        Err(why) => Err(why.to_string()),
    }
}

/// Hashes a password with `bcrypt::hash` at the default cost, under a salt drawn at
/// random. Which hash comes is left open, and so is whether one comes at all: the draw of
/// the salt can fail, and the failure is handed back as text. A hash that comes is sixty
/// characters long and holds the cost and the salt it was made with, so that
/// `bcrypt::verify`, which reads them back and hashes again, finds the password to match.
#[verifier::external_body]
fn make_hash(password: &str) -> (hashed: Result<String, String>)
    ensures
        match hashed {
            Ok(hash) => hash@.len() == HASH_LEN && bcrypt_verify(password@, hash@) == Ok::<
                bool,
                Seq<char>,
            >(true),
            Err(_) => true,
        },
{
    match bcrypt::hash(password, bcrypt::DEFAULT_COST) {
        Ok(hash) => Ok(hash),
        Err(why) => Err(why.to_string()),
    }
}

/// What is said of a form whose username is too short.
pub open spec fn short_username_message() -> Seq<char> {
    "The username must have at least 6 characters"@
}

/// What is said of a form whose password is too short.
pub open spec fn short_password_message() -> Seq<char> {
    "The password must have at least 6 characters"@
}

/// What is said of a password that does not match.
pub open spec fn wrong_password_message() -> Seq<char> {
    "Can not login the user."@
}

/// What is wrong with a form that carries a username and a password, if anything: the
/// username is too short, or the password is.
pub open spec fn form_fault(username: Seq<char>, password: Seq<char>) -> Option<Seq<char>> {
    if username.len() < MIN_FIELD_LEN {
        Some(short_username_message())
    } else if password.len() < MIN_FIELD_LEN {
        Some(short_password_message())
    } else {
        None
    }
}

/// The failure that reports a form that is not acceptable.
pub open spec fn form_failure(why: Seq<char>) -> AppErrorView {
    AppErrorView { message: Some(why), cause: Some(why), error_type: AppErrorType::UnvalidFormError }
}

/// The failure that reports a hash that cannot be made or read.
pub open spec fn hash_failure(why: Seq<char>) -> AppErrorView {
    AppErrorView { message: None, cause: Some(why), error_type: AppErrorType::DbError }
}

/// The failure that reports a password that does not match, shown under the name given at
/// login.
pub open spec fn login_failure(username: Seq<char>) -> AppErrorView {
    AppErrorView {
        message: Some(login_message(username)),
        cause: Some(login_message(username)),
        error_type: AppErrorType::LoginError,
    }
}

/// The failure that reports a password that does not match.
pub open spec fn wrong_password() -> AppErrorView {
    AppErrorView {
        message: Some(wrong_password_message()),
        cause: Some(wrong_password_message()),
        error_type: AppErrorType::LoginError,
    }
}

/// Checks a form that carries a username and a password: each has to have six characters
/// at least.
pub fn validate_form(username: &str, password: &str) -> (checked: Result<(), AppError>)
    ensures
        match form_fault(username@, password@) {
            Some(why) => checked matches Err(e) && e@ == form_failure(why),
            None => checked is Ok,
        },
{
    if username.unicode_len() < MIN_FIELD_LEN {
        Err(AppError::unvalid_form_error("The username must have at least 6 characters"))
    } else if password.unicode_len() < MIN_FIELD_LEN {
        Err(AppError::unvalid_form_error("The password must have at least 6 characters"))
    } else {
        Ok(())
    }
}

/// What the check of a password comes to for the user who logs in as `username`.
pub open spec fn password_fault(verdict: Result<bool, Seq<char>>, username: Seq<char>) -> Option<
    AppErrorView,
> {
    match verdict {
        Ok(true) => None,
        Ok(false) => Some(login_failure(username)),
        Err(why) => Some(hash_failure(why)),
    }
}

/// Turns the verdict on a password into the outcome of a login as `username`.
pub fn password_outcome(verdict: Result<bool, String>, username: &str) -> (outcome: Result<
    (),
    AppError,
>)
    ensures
        match password_fault(
            match verdict {
                Ok(same) => Ok(same),
                Err(why) => Err(why@),
            },
            username@,
        ) {
            Some(why) => outcome matches Err(e) && e@ == why,
            None => outcome is Ok,
        },
{
    match verdict {
        Ok(true) => Ok(()),
        Ok(false) => Err(AppError::login_error(username)),
        Err(why) => Err(AppError::db_error(why.as_str())),
    }
}

/// Checks the password given at login against the hash on record, for the user who logs
/// in as `username`.
pub fn check_password(password: &str, user_password: &str, username: &str) -> (outcome: Result<
    (),
    AppError,
>)
    ensures
        match password_fault(bcrypt_verify(password@, user_password@), username@) {
            Some(why) => outcome matches Err(e) && e@ == why,
            None => outcome is Ok,
        },
{
    password_outcome(check_hash(password, user_password), username)
}

/// What the check of a password comes to where no name is given.
pub open spec fn verdict_fault(verdict: Result<bool, Seq<char>>) -> Option<AppErrorView> {
    match verdict {
        Ok(true) => None,
        Ok(false) => Some(wrong_password()),
        Err(why) => Some(hash_failure(why)),
    }
}

/// Turns the verdict on a password into a pass or a failure.
pub fn verdict_outcome(verdict: Result<bool, String>) -> (outcome: Result<(), AppError>)
    ensures
        match verdict_fault(
            match verdict {
                Ok(same) => Ok(same),
                Err(why) => Err(why@),
            },
        ) {
            Some(why) => outcome matches Err(e) && e@ == why,
            None => outcome is Ok,
        },
{
    match verdict {
        Ok(true) => Ok(()),
        Ok(false) => Err(
            AppError {
                message: Some("Can not login the user.".to_owned()),
                cause: Some("Can not login the user.".to_owned()),
                error_type: AppErrorType::LoginError,
            },
        ),
        Err(why) => Err(AppError::db_error(why.as_str())),
    }
}

/// Passes where the password matches the hash.
pub fn verify_password(password: &str, user_password: &str) -> (outcome: Result<(), AppError>)
    ensures
        match verdict_fault(bcrypt_verify(password@, user_password@)) {
            Some(why) => outcome matches Err(e) && e@ == why,
            None => outcome is Ok,
        },
{
    verdict_outcome(check_hash(password, user_password))
}

/// The failure that reports a password that could not be hashed.
pub open spec fn hash_fault(made: Result<Seq<char>, Seq<char>>) -> Option<AppErrorView> {
    match made {
        Ok(_) => None,
        Err(why) => Some(hash_failure(why)),
    }
}

/// Turns what became of hashing a password into the hash or a failure of the store that
/// would have held it.
pub fn hash_outcome(made: Result<String, String>) -> (hashed: Result<String, AppError>)
    ensures
        match made {
            Ok(hash) => hashed == Ok::<String, AppError>(hash),
            Err(why) => hashed matches Err(e) && e@ == hash_failure(why@),
        },
{
    match made {
        Ok(hash) => Ok(hash),
        Err(why) => Err(AppError::db_error(why.as_str())),
    }
}

/// Hashes a password for the record of a new user. Which hash comes is left open, but
/// any that comes is sixty characters long and is one that the password checks against;
/// a failure to hash is reported as a failure of the store that would have held it.
pub fn hash_password(password: &str) -> (hashed: Result<String, AppError>)
    ensures
        match hashed {
            Ok(hash) => hash@.len() == HASH_LEN && bcrypt_verify(password@, hash@) == Ok::<
                bool,
                Seq<char>,
            >(true),
            Err(e) => e@.error_type == AppErrorType::DbError && e@.message is None
                && e@.cause is Some,
        },
{
    hash_outcome(make_hash(password))
}

} // verus!
