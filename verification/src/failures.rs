//! The failures that name a record, a user or a name, as the stores and the rules above
//! them report them.

use vstd::prelude::*;
use crate::errors::{AppErrorType, AppErrorView};
use crate::errors::{already_invited_message, not_found_message, not_in_project_message};
use crate::errors::{user_exist_cause, user_exist_message};
use crate::oid::{hex_text, ObjectId};

verus! {

/// The failure that reports an identifier without a record.
pub open spec fn not_found(id: ObjectId) -> AppErrorView {
    AppErrorView {
        message: Some(not_found_message(hex_text(id.bytes@))),
        cause: Some(hex_text(id.bytes@)),
        error_type: AppErrorType::NotFoundError,
    }
}

/// The failure that reports a name without a record.
pub open spec fn name_not_found(name: Seq<char>) -> AppErrorView {
    AppErrorView {
        message: Some(not_found_message(name)),
        cause: Some(name),
        error_type: AppErrorType::NotFoundError,
    }
}

/// The failure that reports a user who is not a member of the project acted on.
pub open spec fn not_in_project(user: ObjectId) -> AppErrorView {
    AppErrorView {
        message: Some(not_in_project_message(hex_text(user.bytes@))),
        cause: Some(hex_text(user.bytes@)),
        error_type: AppErrorType::NotInProject,
    }
}

/// Why a record was not taken into the store.
pub open spec fn duplicate_key_cause() -> Seq<char> {
    "A record with this identifier exists already"@
}

/// Why a record with an identifier listed twice was not taken into the store.
pub open spec fn listed_twice_cause() -> Seq<char> {
    "An identifier is listed twice"@
}

/// The failure that reports a record whose identifier is in use.
pub open spec fn duplicate_key() -> AppErrorView {
    AppErrorView { message: None, cause: Some(duplicate_key_cause()), error_type: AppErrorType::DbError }
}

/// The failure that reports a record that lists an identifier twice.
pub open spec fn listed_twice() -> AppErrorView {
    AppErrorView { message: None, cause: Some(listed_twice_cause()), error_type: AppErrorType::DbError }
}

/// The failure that reports a username in use.
pub open spec fn user_exists(username: Seq<char>) -> AppErrorView {
    AppErrorView {
        message: Some(user_exist_message(username)),
        cause: Some(user_exist_cause(username)),
        error_type: AppErrorType::UserExistError,
    }
}

/// The failure that reports an invitation of somebody who is invited already, or a member.
pub open spec fn already_invited(username: Seq<char>) -> AppErrorView {
    AppErrorView {
        message: Some(already_invited_message(username)),
        cause: Some(username),
        error_type: AppErrorType::AlreadyInvited,
    }
}

} // verus!
